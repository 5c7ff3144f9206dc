use vstd::prelude::*;

use crate::types::{ConnectionStatus, NetworkStatus, PeerIp};

verus! {

/// How the header's status badge is drawn.
#[derive(Clone, Copy, Debug, PartialEq, Eq, Structural)]
pub enum Indicator {
    /// Networking runs.
    Active,
    /// Networking stopped with an error.
    Failed,
    /// Networking is starting.
    Pending,
}

/// The networking status shown by the user interface.
pub struct StatusBoard {
    pub networking_active: bool,
    pub status_message: String,
    pub error_message: Option<String>,
}

impl StatusBoard {
    /// The status before networking is started.
    pub fn new() -> (board: Self)
        ensures
            !board.networking_active,
            board.status_message@ == "Initializing network..."@,
            board.error_message is None,
    {
        StatusBoard {
            networking_active: false,
            status_message: "Initializing network...".to_owned(),
            error_message: None,
        }
    }

    /// Networking has been asked to start.
    pub fn networking_starting(&mut self)
        ensures
            final(self).status_message@ == "Starting network..."@,
            final(self).networking_active == old(self).networking_active,
            final(self).error_message == old(self).error_message,
    {
        self.status_message = "Starting network...".to_owned();
    }

    /// Networking is being restarted: it is no longer active and any error is
    /// cleared.
    pub fn networking_restarting(&mut self)
        ensures
            !final(self).networking_active,
            final(self).status_message@ == "Restarting network..."@,
            final(self).error_message is None,
    {
        self.networking_active = false;
        self.status_message = "Restarting network...".to_owned();
        self.error_message = None;
    }

    /// Takes in one status update from the networking layer.
    pub fn apply(&mut self, status: NetworkStatus)
        ensures
            match status {
                NetworkStatus::Started(msg) => {
                    &&& final(self).networking_active
                    &&& final(self).status_message == msg
                    &&& final(self).error_message is None
                },
                NetworkStatus::Error(msg) => {
                    &&& !final(self).networking_active
                    &&& final(self).error_message == Some(msg)
                    &&& final(self).status_message@ == "Network error"@
                },
                NetworkStatus::StatusUpdate(msg) => {
                    &&& final(self).networking_active == old(self).networking_active
                    &&& final(self).status_message == msg
                    &&& final(self).error_message == old(self).error_message
                },
            },
    {
        match status {
            NetworkStatus::Started(msg) => {
                self.networking_active = true;
                self.status_message = msg;
                self.error_message = None;
            },
            NetworkStatus::Error(msg) => {
                self.networking_active = false;
                self.error_message = Some(msg);
                self.status_message = "Network error".to_owned();
            },
            NetworkStatus::StatusUpdate(msg) => {
                self.status_message = msg;
            },
        }
    }

    /// The user closed the error dialog.
    pub fn dismiss_error(&mut self)
        ensures
            final(self).error_message is None,
            final(self).networking_active == old(self).networking_active,
            final(self).status_message == old(self).status_message,
    {
        self.error_message = None;
    }

    /// How the header's status badge is drawn: active networking first, then
    /// an error, otherwise pending.
    pub fn indicator(&self) -> (indicator: Indicator)
        ensures
            indicator == (if self.networking_active {
                Indicator::Active
            } else if self.error_message is Some {
                Indicator::Failed
            } else {
                Indicator::Pending
            }),
    {
        if self.networking_active {
            Indicator::Active
        } else if self.error_message.is_some() {
            Indicator::Failed
        } else {
            Indicator::Pending
        }
    }
}

/// Colour family of a device's status badge.
#[derive(Clone, Copy, Debug, PartialEq, Eq, Structural)]
pub enum StatusTone {
    Muted,
    Warning,
    Success,
    Info,
}

/// Style of a device card's action button.
#[derive(Clone, Copy, Debug, PartialEq, Eq, Structural)]
pub enum ButtonKind {
    Primary,
    Success,
    Error,
    Secondary,
}

/// What a device card shows.
#[derive(Clone, Copy, Debug)]
pub struct DeviceCard {
    pub tone: StatusTone,
    pub status_text: &'static str,
    pub button_text: &'static str,
    pub button: ButtonKind,
    pub button_enabled: bool,
}

/// What clicking a device card's button asks of the networking layer.
#[derive(Clone, Copy, Debug, PartialEq, Eq, Structural)]
pub enum CardAction {
    /// Send a pairing request.
    RequestPairing(PeerIp),
    /// Accept the peer's pairing request and connect.
    ConfirmPairing(PeerIp),
    /// Close the connection.
    Disconnect(PeerIp),
}

/// The card drawn for a device in `status`.
pub fn device_card(status: ConnectionStatus, intentionally_disconnected: bool) -> (card: DeviceCard)
    ensures
        match status {
            ConnectionStatus::Disconnected => {
                &&& card.tone == StatusTone::Muted
                &&& card.status_text@ == "DISCONNECTED"@
                &&& card.button_text@ == (if intentionally_disconnected {
                    "Reconnect"@
                } else {
                    "Connect"@
                })
                &&& card.button == ButtonKind::Primary
                &&& card.button_enabled
            },
            ConnectionStatus::Connecting => {
                &&& card.tone == StatusTone::Warning
                &&& card.status_text@ == "PENDING"@
                &&& card.button_text@ == "Accept"@
                &&& card.button == ButtonKind::Success
                &&& card.button_enabled
            },
            ConnectionStatus::Connected => {
                &&& card.tone == StatusTone::Success
                &&& card.status_text@ == "CONNECTED"@
                &&& card.button_text@ == "Disconnect"@
                &&& card.button == ButtonKind::Error
                &&& card.button_enabled
            },
            ConnectionStatus::Reconnecting => {
                &&& card.tone == StatusTone::Info
                &&& card.status_text@ == "CONNECTING"@
                &&& card.button_text@ == ""@
                &&& card.button == ButtonKind::Secondary
                &&& !card.button_enabled
            },
        },
{
    match status {
        ConnectionStatus::Disconnected => {
            if intentionally_disconnected {
                DeviceCard {
                    tone: StatusTone::Muted,
                    status_text: "DISCONNECTED",
                    button_text: "Reconnect",
                    button: ButtonKind::Primary,
                    button_enabled: true,
                }
            } else {
                DeviceCard {
                    tone: StatusTone::Muted,
                    status_text: "DISCONNECTED",
                    button_text: "Connect",
                    button: ButtonKind::Primary,
                    button_enabled: true,
                }
            }
        },
        ConnectionStatus::Connecting => DeviceCard {
            tone: StatusTone::Warning,
            status_text: "PENDING",
            button_text: "Accept",
            button: ButtonKind::Success,
            button_enabled: true,
        },
        ConnectionStatus::Connected => DeviceCard {
            tone: StatusTone::Success,
            status_text: "CONNECTED",
            button_text: "Disconnect",
            button: ButtonKind::Error,
            button_enabled: true,
        },
        ConnectionStatus::Reconnecting => DeviceCard {
            tone: StatusTone::Info,
            status_text: "CONNECTING",
            button_text: "",
            button: ButtonKind::Secondary,
            button_enabled: false,
        },
    }
}

/// What clicking the button of the card of the device at `ip`, in `status`,
/// asks for.
pub fn card_action(status: ConnectionStatus, ip: PeerIp) -> (action: Option<CardAction>)
    ensures
        action == (match status {
            ConnectionStatus::Disconnected => Some(CardAction::RequestPairing(ip)),
            ConnectionStatus::Connecting => Some(CardAction::ConfirmPairing(ip)),
            ConnectionStatus::Connected => Some(CardAction::Disconnect(ip)),
            ConnectionStatus::Reconnecting => None,
        }),
{
    match status {
        ConnectionStatus::Disconnected => Some(CardAction::RequestPairing(ip)),
        ConnectionStatus::Connecting => Some(CardAction::ConfirmPairing(ip)),
        ConnectionStatus::Connected => Some(CardAction::Disconnect(ip)),
        ConnectionStatus::Reconnecting => None,
    }
}

/// The animated dots after "Scanning", by whole seconds since scanning began.
pub fn scanning_dots(elapsed_secs: u64) -> (dots: &'static str)
    ensures
        elapsed_secs % 4 == 0 ==> dots@ == ""@,
        elapsed_secs % 4 == 1 ==> dots@ == "."@,
        elapsed_secs % 4 == 2 ==> dots@ == ".."@,
        elapsed_secs % 4 == 3 ==> dots@ == "..."@,
{
    match elapsed_secs % 4 {
        0 => "",
        1 => ".",
        2 => "..",
        _ => "...",
    }
}

/// The tabs of the main window.
#[derive(Clone, Copy, Debug, PartialEq, Eq, Structural)]
pub enum CurrentTab {
    Devices,
    Settings,
}

/// How a tab button is drawn.
#[derive(Clone, Copy, Debug, PartialEq, Eq, Structural)]
pub enum TabLook {
    Selected,
    Hovered,
    Plain,
}

/// How the button of `tab` is drawn when `current` is shown: the shown tab is
/// selected; another one is highlighted while hovered.
pub fn tab_look(tab: CurrentTab, current: CurrentTab, hovered: bool) -> (look: TabLook)
    ensures
        look == (if tab == current {
            TabLook::Selected
        } else if hovered {
            TabLook::Hovered
        } else {
            TabLook::Plain
        }),
{
    if tab == current {
        TabLook::Selected
    } else if hovered {
        TabLook::Hovered
    } else {
        TabLook::Plain
    }
}

/// The largest character boundary of the UTF-8 bytes `bytes` that is at most
/// `limit`.
pub open spec fn boundary_at_or_below(bytes: Seq<u8>, limit: int) -> int
    decreases limit,
{
    if limit <= 0 {
        0
    } else if vstd::utf8::is_char_boundary(bytes, limit) {
        limit
    } else {
        boundary_at_or_below(bytes, limit - 1)
    }
}

/// Bytes of an identifier that a card shows: the longest prefix of at most
/// eight bytes that ends on a character boundary.
pub open spec fn short_id_len(bytes: Seq<u8>) -> int {
    boundary_at_or_below(bytes, if bytes.len() < 8 { bytes.len() as int } else { 8 })
}

/// The identifier of a device as a card shows it: its first eight bytes, cut
/// back to the last character boundary, or all of it when it is shorter.
pub fn short_device_id(device_id: &str) -> (short: &str)
    ensures
        vstd::utf8::encode_utf8(short@) == vstd::utf8::encode_utf8(device_id@).subrange(0, short_id_len(vstd::utf8::encode_utf8(device_id@))),
        vstd::utf8::encode_utf8(device_id@).len() >= 8 && vstd::utf8::is_char_boundary(vstd::utf8::encode_utf8(device_id@), 8)
            ==> vstd::utf8::encode_utf8(short@) == vstd::utf8::encode_utf8(device_id@).subrange(0, 8),
{
    let ghost bytes = vstd::utf8::encode_utf8(device_id@);
    proof {
        vstd::utf8::encode_utf8_valid_utf8(device_id@);
        vstd::utf8::is_char_boundary_start_end_of_seq(bytes);
    }
    let len = device_id.as_bytes().len();
    let mut end: usize = if len < 8 { len } else { 8 };
    let ghost start = end as int;
    while end > 0 && !device_id.is_char_boundary(end)
        invariant
            bytes == vstd::utf8::encode_utf8(device_id@),
            vstd::utf8::valid_utf8(bytes),
            vstd::utf8::is_char_boundary(bytes, 0),
            end <= len,
            len == bytes.len(),
            start == (if bytes.len() < 8 { bytes.len() as int } else { 8 }),
            boundary_at_or_below(bytes, end as int) == boundary_at_or_below(bytes, start),
        decreases end,
    {
        end = end - 1;
    }
    assert(boundary_at_or_below(bytes, end as int) == end as int);
    let (head, _) = device_id.split_at(end);
    head
}

proof fn lemma_boundary_at_or_below(bytes: Seq<u8>, limit: int)
    requires
        vstd::utf8::valid_utf8(bytes),
        0 <= limit,
    ensures
        0 <= boundary_at_or_below(bytes, limit) <= limit,
        vstd::utf8::is_char_boundary(bytes, boundary_at_or_below(bytes, limit)),
        forall|j: int|
            boundary_at_or_below(bytes, limit) < j <= limit ==> !#[trigger] vstd::utf8::is_char_boundary(bytes, j),
    decreases limit,
{
    vstd::utf8::is_char_boundary_start_end_of_seq(bytes);
    if limit > 0 && !vstd::utf8::is_char_boundary(bytes, limit) {
        lemma_boundary_at_or_below(bytes, limit - 1);
    }
}

/// A card shows the longest prefix of an identifier that has at most eight
/// bytes and ends on a character boundary: no longer prefix within eight bytes
/// ends on one.
pub proof fn lemma_short_id_longest_prefix(bytes: Seq<u8>)
    requires
        vstd::utf8::valid_utf8(bytes),
    ensures
        0 <= short_id_len(bytes) <= 8,
        short_id_len(bytes) <= bytes.len(),
        vstd::utf8::is_char_boundary(bytes, short_id_len(bytes)),
        forall|j: int|
            short_id_len(bytes) < j <= 8 && j <= bytes.len() ==> !#[trigger] vstd::utf8::is_char_boundary(bytes, j),
        bytes.len() <= 8 ==> short_id_len(bytes) == bytes.len(),
{
    vstd::utf8::is_char_boundary_start_end_of_seq(bytes);
    lemma_boundary_at_or_below(bytes, if bytes.len() < 8 { bytes.len() as int } else { 8 });
}

} // verus!
