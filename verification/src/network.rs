use vstd::prelude::*;
use vstd::string::StringExecFns;

use crate::clock::{instant_now, nanos_since};
use crate::clipboard::{content_hash, ClipboardManager};
use crate::table::{has_key, keys_distinct, lemma_entry_in_map, pairs_to_map, PeerTable};
use crate::tracker::{remember, HashTracker};
use crate::types::{ConnectionStatus, Device, Message, PeerIp};
use crate::ui::{card_action, CardAction};

verus! {

/// Largest clipboard content, in UTF-8 bytes, that is sent or applied (50 MiB).
pub const MAX_CONTENT_BYTES: usize = 52428800;

/// Number of recent content hashes remembered for echo suppression.
pub const HASH_TRACKER_CAPACITY: usize = 10;

/// A device not heard from for this many nanoseconds (10 s) is forgotten.
pub const DEVICE_TIMEOUT_NANOS: u64 = 10_000_000_000;

/// Milliseconds between discovery announcements.
pub const DISCOVERY_INTERVAL_MS: u64 = 1000;

/// Milliseconds between polls of the local clipboard.
pub const CLIPBOARD_POLL_INTERVAL_MS: u64 = 250;

/// Milliseconds between attempts to restore lost connections.
pub const RECONNECT_INTERVAL_MS: u64 = 3000;

/// Milliseconds between removals of devices that stopped announcing themselves.
pub const CLEANUP_INTERVAL_MS: u64 = 5000;

/// Milliseconds to wait after putting received content on the clipboard.
pub const CLIPBOARD_APPLY_PAUSE_MS: u64 = 50;

/// Size of text in UTF-8 bytes.
pub open spec fn utf8_len(text: Seq<char>) -> nat {
    vstd::utf8::encode_utf8(text).len()
}

/// Whether text is small enough to be synchronised.
pub open spec fn within_size_limit(text: Seq<char>) -> bool {
    utf8_len(text) <= MAX_CONTENT_BYTES
}

/// Every device is stored under its own address.
pub open spec fn devices_keyed(devices: Map<PeerIp, Device>) -> bool {
    forall|ip: PeerIp| #[trigger] devices.contains_key(ip) ==> devices[ip].ip == ip
}

/// The table after a discovery announcement from `ip` by `peer_id` at time
/// `now`: a known device only has its `last_seen` refreshed; an unknown one is
/// added, disconnected.
pub open spec fn after_sighting(
    devices: Map<PeerIp, Device>,
    ip: PeerIp,
    peer_id: String,
    now: u64,
) -> Map<PeerIp, Device> {
    if devices.contains_key(ip) {
        devices.insert(ip, Device { last_seen: now, ..devices[ip] })
    } else {
        devices.insert(
            ip,
            Device {
                ip,
                device_id: peer_id,
                last_seen: now,
                connection_status: ConnectionStatus::Disconnected,
                intentionally_disconnected: false,
            },
        )
    }
}

/// The table with the status of the device at `ip` set, if there is one.
pub open spec fn with_status(
    devices: Map<PeerIp, Device>,
    ip: PeerIp,
    status: ConnectionStatus,
) -> Map<PeerIp, Device> {
    if devices.contains_key(ip) {
        devices.insert(ip, Device { connection_status: status, ..devices[ip] })
    } else {
        devices
    }
}

/// The table with the device at `ip`, if there is one, in `status` and with
/// its intentional-disconnect mark set to `marked`.
pub open spec fn with_state(
    devices: Map<PeerIp, Device>,
    ip: PeerIp,
    status: ConnectionStatus,
    marked: bool,
) -> Map<PeerIp, Device> {
    if devices.contains_key(ip) {
        devices.insert(
            ip,
            Device { connection_status: status, intentionally_disconnected: marked, ..devices[ip] },
        )
    } else {
        devices
    }
}

/// The table after a TCP connection with `ip` came up: the device, if known,
/// is `Connected` and no longer marked as intentionally disconnected.
pub open spec fn after_connection_established(devices: Map<PeerIp, Device>, ip: PeerIp) -> Map<
    PeerIp,
    Device,
> {
    with_state(devices, ip, ConnectionStatus::Connected, false)
}

/// The table after the user disconnected from `ip`: the device, if known, is
/// `Disconnected` and marked as intentionally disconnected.
pub open spec fn after_user_disconnect(devices: Map<PeerIp, Device>, ip: PeerIp) -> Map<PeerIp, Device> {
    with_state(devices, ip, ConnectionStatus::Disconnected, true)
}

/// The table after the TCP connection with `ip` ended: a known device becomes
/// `Reconnecting`, so that the connection is restored, unless the user
/// disconnected it (it is marked as intentionally disconnected), in which
/// case it stays as it is.
pub open spec fn after_connection_lost(devices: Map<PeerIp, Device>, ip: PeerIp) -> Map<PeerIp, Device> {
    if devices.contains_key(ip) && !devices[ip].intentionally_disconnected {
        with_status(devices, ip, ConnectionStatus::Reconnecting)
    } else {
        devices
    }
}

/// The table after a pairing request from `ip`: a known, disconnected device
/// becomes `Connecting`; nothing else changes.
pub open spec fn after_pair_request(devices: Map<PeerIp, Device>, ip: PeerIp) -> Map<PeerIp, Device> {
    if devices.contains_key(ip) && devices[ip].connection_status == ConnectionStatus::Disconnected {
        with_status(devices, ip, ConnectionStatus::Connecting)
    } else {
        devices
    }
}

/// The table after `message` arrives from `sender` at time `now`, on a device
/// whose own identifier is `own_id`. Messages that carry the own identifier are
/// ignored; only discovery announcements and pairing requests change the table.
pub open spec fn after_discovery_message(
    devices: Map<PeerIp, Device>,
    message: Message,
    sender: PeerIp,
    own_id: Seq<char>,
    now: u64,
) -> Map<PeerIp, Device> {
    match message {
        Message::Discovery { device_id, .. } => if device_id@ != own_id {
            after_sighting(devices, sender, device_id, now)
        } else {
            devices
        },
        Message::PairRequest { device_id } => if device_id@ != own_id {
            after_pair_request(devices, sender)
        } else {
            devices
        },
        _ => devices,
    }
}

/// Whether a device seen at `last_seen` is still current at `now`: its age,
/// counted as zero when the clock reads earlier than `last_seen`, is under the
/// timeout.
pub open spec fn is_fresh(last_seen: u64, now: u64) -> bool {
    (if now >= last_seen { now - last_seen } else { 0 }) < DEVICE_TIMEOUT_NANOS
}

/// The table keeping only the devices that are still current at `now`.
pub open spec fn fresh_devices(devices: Map<PeerIp, Device>, now: u64) -> Map<PeerIp, Device> {
    devices.restrict(Set::new(|ip: PeerIp| is_fresh(devices[ip].last_seen, now)))
}

/// The addresses of the devices in the given status.
pub open spec fn peers_in_status(devices: Map<PeerIp, Device>, status: ConnectionStatus) -> Set<PeerIp> {
    devices.dom().filter(|ip: PeerIp| devices[ip].connection_status == status)
}

/// Whether the monitor, whose last seen hash is `last_hash`, sends `content`
/// when the tracker remembers `recent`: the content is new to the monitor and
/// not a hash that this device has already sent or applied.
pub open spec fn monitor_sends(last_hash: u64, recent: Seq<u64>, content: Seq<char>) -> bool {
    content_hash(content) != last_hash && !recent.contains(content_hash(content))
}

/// Whether content received from a peer is put on the local clipboard when the
/// tracker remembers `recent`: it is within the size limit and its hash is not
/// remembered.
pub open spec fn incoming_accepted(recent: Seq<u64>, content: Seq<char>) -> bool {
    within_size_limit(content) && !recent.contains(content_hash(content))
}

/// One network interface as the operating system reports it.
#[derive(Clone, Copy, Debug)]
pub struct NetInterface {
    pub is_loopback: bool,
    /// The IPv4 address and netmask, as 32-bit big-endian values, when the
    /// interface's address is IPv4.
    pub ipv4: Option<(u32, u32)>,
}

/// Directed broadcast addresses of the non-loopback IPv4 interfaces, in order.
pub open spec fn interface_broadcasts(interfaces: Seq<NetInterface>) -> Seq<PeerIp>
    decreases interfaces.len(),
{
    if interfaces.len() == 0 {
        Seq::empty()
    } else {
        let rest = interface_broadcasts(interfaces.drop_last());
        let last = interfaces.last();
        match last.ipv4 {
            Some((ip, netmask)) => if !last.is_loopback {
                rest.push(PeerIp::V4(ip | !netmask))
            } else {
                rest
            },
            None => rest,
        }
    }
}

/// The limited broadcast address 255.255.255.255.
pub open spec fn limited_broadcast() -> PeerIp {
    PeerIp::V4(0xffff_ffffu32)
}

/// Where discovery announcements go: the interfaces' broadcast addresses, or
/// the limited broadcast address when there are none.
pub open spec fn broadcast_plan(interfaces: Seq<NetInterface>) -> Seq<PeerIp> {
    if interface_broadcasts(interfaces).len() == 0 {
        seq![limited_broadcast()]
    } else {
        interface_broadcasts(interfaces)
    }
}

/// What the connection manager does on a pairing event.
#[derive(Clone, Debug)]
pub struct PairAction {
    /// Message to send to the peer's discovery port.
    pub message: Message,
    /// Whether to open a TCP connection to the peer afterwards.
    pub connect: bool,
}

/// Errors when starting the networking layer.
#[derive(Clone, Debug)]
pub enum NetworkError {
    PortInUse(u16),
    BindError(String),
    /// The discovery port is the last port, so there is no data port after it.
    NoDataPort(u16),
}

/// The character of the decimal digit `d`.
pub open spec fn digit_char(d: nat) -> char {
    (48 + d) as char
}

/// The decimal numeral of `n`, with no leading zeros.
pub open spec fn decimal(n: nat) -> Seq<char>
    decreases n,
{
    if n < 10 {
        seq![digit_char(n)]
    } else {
        decimal(n / 10).push(digit_char(n % 10))
    }
}

/// Calls `u16::to_string`, which writes the number as `Display` does for
/// integers: in decimal, with no sign, padding or leading zeros.
#[verifier::external_body]
fn decimal_text(n: u16) -> (text: String)
    ensures
        text@ == decimal(n as nat),
{
    n.to_string()
}

/// The text shown for a networking error.
pub open spec fn error_text(error: NetworkError) -> Seq<char> {
    match error {
        NetworkError::PortInUse(port) => "Port "@ + decimal(port as nat) + " is already in use"@,
        NetworkError::BindError(msg) => "Network bind error: "@ + msg@,
        NetworkError::NoDataPort(port) => "Port "@ + decimal(port as nat)
            + " leaves no port for clipboard data"@,
    }
}

impl NetworkError {
    /// The text shown for this error.
    pub fn message(&self) -> (text: String)
        ensures
            text@ == error_text(*self),
    {
        match self {
            NetworkError::PortInUse(port) => {
                let mut text = "Port ".to_owned();
                text.append(decimal_text(*port).as_str());
                text.append(" is already in use");
                text
            },
            NetworkError::BindError(msg) => {
                let mut text = "Network bind error: ".to_owned();
                text.append(msg.as_str());
                text
            },
            NetworkError::NoDataPort(port) => {
                let mut text = "Port ".to_owned();
                text.append(decimal_text(*port).as_str());
                text.append(" leaves no port for clipboard data");
                text
            },
        }
    }
}

/// Watches the local clipboard for new content to send.
pub struct ClipboardMonitor {
    /// Hash of the content seen at the previous poll.
    pub last_content_hash: u64,
}

impl ClipboardMonitor {
    /// A monitor that has seen nothing yet.
    pub fn new() -> (monitor: Self)
        ensures
            monitor.last_content_hash == 0,
    {
        ClipboardMonitor { last_content_hash: 0 }
    }

    /// Handles one poll of the local clipboard that read `content`; returns
    /// whether the content is to be sent to the connected peers. Content whose
    /// hash differs from the previous poll is remembered; it is sent only when
    /// the tracker did not already remember it.
    pub fn observe(&mut self, tracker: &mut HashTracker, content: &str) -> (send: bool)
        ensures
            send == monitor_sends(old(self).last_content_hash, old(tracker)@, content@),
            final(self).last_content_hash == content_hash(content@),
            final(tracker).capacity() == old(tracker).capacity(),
            final(tracker)@ == (if send {
                remember(old(tracker)@, old(tracker).capacity(), content_hash(content@))
            } else {
                old(tracker)@
            }),
    {
        let content_hash = ClipboardManager::calculate_hash(content);
        if content_hash != self.last_content_hash {
            if !tracker.contains(content_hash) {
                tracker.insert(content_hash);
                self.last_content_hash = content_hash;
                true
            } else {
                self.last_content_hash = content_hash;
                false
            }
        } else {
            false
        }
    }
}

/// The table with the intentional-disconnect mark of the device at `ip`
/// cleared, if there is such a device.
pub open spec fn with_mark_cleared(devices: Map<PeerIp, Device>, ip: PeerIp) -> Map<PeerIp, Device> {
    if devices.contains_key(ip) {
        devices.insert(ip, Device { intentionally_disconnected: false, ..devices[ip] })
    } else {
        devices
    }
}

/// Whether two strings hold the same text.
fn same_text(a: &str, b: &str) -> (same: bool)
    ensures
        same == (a@ == b@),
{
    let x = a.as_bytes();
    let y = b.as_bytes();
    proof {
        vstd::utf8::encode_utf8_decode_utf8(a@);
        vstd::utf8::encode_utf8_decode_utf8(b@);
    }
    if x.len() != y.len() {
        return false;
    }
    let n = x.len();
    let mut i: usize = 0;
    while i < n
        invariant
            n == x@.len(),
            n == y@.len(),
            x@ == vstd::utf8::encode_utf8(a@),
            y@ == vstd::utf8::encode_utf8(b@),
            i <= n,
            forall|k: int| 0 <= k < i ==> x@[k] == y@[k],
        decreases n - i,
    {
        if x[i] != y[i] {
            return false;
        }
        i = i + 1;
    }
    assert(x@ =~= y@);
    true
}

/// Sets the status of the device at `ip`, if the table has one.
fn set_device_status(devices: &mut PeerTable<Device>, ip: PeerIp, status: ConnectionStatus)
    ensures
        final(devices)@ == with_status(old(devices)@, ip, status),
{
    let updated = match devices.get(ip) {
        Some(d) => Some(
            Device {
                ip: d.ip,
                device_id: d.device_id.clone(),
                last_seen: d.last_seen,
                connection_status: status,
                intentionally_disconnected: d.intentionally_disconnected,
            },
        ),
        None => None,
    };
    match updated {
        Some(d) => {
            devices.insert(ip, d);
        },
        None => {},
    }
}

/// Sets the status and the intentional-disconnect mark of the device at `ip`,
/// if the table has one.
fn set_device_state(devices: &mut PeerTable<Device>, ip: PeerIp, status: ConnectionStatus, marked: bool)
    ensures
        final(devices)@ == with_state(old(devices)@, ip, status, marked),
{
    let updated = match devices.get(ip) {
        Some(d) => Some(
            Device {
                ip: d.ip,
                device_id: d.device_id.clone(),
                last_seen: d.last_seen,
                connection_status: status,
                intentionally_disconnected: marked,
            },
        ),
        None => None,
    };
    match updated {
        Some(d) => {
            devices.insert(ip, d);
        },
        None => {},
    }
}

/// The discovery table, the live connections (each held by a sender value of
/// type `S`), the hashes used to suppress echoes, and the instant from which
/// the devices' times are counted, in nanoseconds on the monotonic clock.
pub struct NetworkState<S> {
    pub devices: PeerTable<Device>,
    pub connections: PeerTable<S>,
    pub hash_tracker: HashTracker,
    pub clock_origin: std::time::Instant,
}

impl<S> NetworkState<S> {
    /// Empty state, with a hash tracker that remembers ten hashes.
    pub fn new() -> (state: Self)
        ensures
            state.devices@ == Map::<PeerIp, Device>::empty(),
            state.connections@ == Map::<PeerIp, S>::empty(),
            state.hash_tracker@ == Seq::<u64>::empty(),
            state.hash_tracker.capacity() == HASH_TRACKER_CAPACITY,
    {
        NetworkState {
            devices: PeerTable::new(),
            connections: PeerTable::new(),
            hash_tracker: HashTracker::new(HASH_TRACKER_CAPACITY),
            clock_origin: instant_now(),
        }
    }
}

/// Decisions of the networking layer.
pub struct NetworkManager;

impl NetworkManager {
    /// Handles a message received on the discovery socket from `sender_ip`, on
    /// a device whose own identifier is `device_id`, at the current time.
    pub fn handle_discovery_message<S>(
        message: Message,
        sender_ip: PeerIp,
        device_id: &str,
        state: &mut NetworkState<S>,
    )
        ensures
            final(state).connections == old(state).connections,
            final(state).hash_tracker == old(state).hash_tracker,
            final(state).clock_origin == old(state).clock_origin,
            exists|now: u64|
                final(state).devices@ == after_discovery_message(
                    old(state).devices@,
                    message,
                    sender_ip,
                    device_id@,
                    now,
                ),
    {
        let now = nanos_since(&state.clock_origin);
        Self::apply_discovery_message(message, sender_ip, device_id, state, now);
    }

    /// Handles a message received on the discovery socket from `sender_ip` at
    /// time `now`, on a device whose own identifier is `device_id`.
    pub fn apply_discovery_message<S>(
        message: Message,
        sender_ip: PeerIp,
        device_id: &str,
        state: &mut NetworkState<S>,
        now: u64,
    )
        ensures
            final(state).connections == old(state).connections,
            final(state).hash_tracker == old(state).hash_tracker,
            final(state).clock_origin == old(state).clock_origin,
            final(state).devices@ == after_discovery_message(
                old(state).devices@,
                message,
                sender_ip,
                device_id@,
                now,
            ),
    {
        match message {
            Message::Discovery { device_id: peer_id, .. } => {
                if !same_text(peer_id.as_str(), device_id) {
                    let refreshed = match state.devices.get(sender_ip) {
                        Some(d) => Device {
                            ip: d.ip,
                            device_id: d.device_id.clone(),
                            last_seen: now,
                            connection_status: d.connection_status,
                            intentionally_disconnected: d.intentionally_disconnected,
                        },
                        None => Device::new(sender_ip, peer_id, now),
                    };
                    state.devices.insert(sender_ip, refreshed);
                }
            },
            Message::PairRequest { device_id: peer_id } => {
                if !same_text(peer_id.as_str(), device_id) {
                    let disconnected = match state.devices.get(sender_ip) {
                        Some(d) => d.connection_status == ConnectionStatus::Disconnected,
                        None => false,
                    };
                    if disconnected {
                        set_device_status(&mut state.devices, sender_ip, ConnectionStatus::Connecting);
                    }
                }
            },
            _ => {},
        }
    }

    /// A TCP connection with `peer_ip` is up: the device, if known, becomes
    /// `Connected` and loses any intentional-disconnect mark, and `sender`
    /// becomes the connection's outgoing channel (replacing any earlier one for
    /// that peer).
    pub fn connection_established<S>(state: &mut NetworkState<S>, peer_ip: PeerIp, sender: S)
        ensures
            final(state).devices@ == after_connection_established(old(state).devices@, peer_ip),
            final(state).connections@ == old(state).connections@.insert(peer_ip, sender),
            final(state).hash_tracker == old(state).hash_tracker,
            final(state).clock_origin == old(state).clock_origin,
    {
        set_device_state(&mut state.devices, peer_ip, ConnectionStatus::Connected, false);
        state.connections.insert(peer_ip, sender);
    }

    /// The TCP connection with `peer_ip` ended: its channel is dropped, and the
    /// device, if known, becomes `Reconnecting` unless the user disconnected
    /// it.
    pub fn connection_lost<S>(state: &mut NetworkState<S>, peer_ip: PeerIp)
        ensures
            final(state).devices@ == after_connection_lost(old(state).devices@, peer_ip),
            final(state).connections@ == old(state).connections@.remove(peer_ip),
            final(state).hash_tracker == old(state).hash_tracker,
            final(state).clock_origin == old(state).clock_origin,
    {
        state.connections.remove(peer_ip);
        let retry = match state.devices.get(peer_ip) {
            Some(d) => !d.intentionally_disconnected,
            None => false,
        };
        if retry {
            set_device_status(&mut state.devices, peer_ip, ConnectionStatus::Reconnecting);
        }
    }

    /// The user disconnected from `peer_ip`: its channel is dropped and the
    /// device, if known, becomes `Disconnected`, marked as intentionally
    /// disconnected.
    pub fn disconnect_peer<S>(state: &mut NetworkState<S>, peer_ip: PeerIp)
        ensures
            final(state).devices@ == after_user_disconnect(old(state).devices@, peer_ip),
            final(state).connections@ == old(state).connections@.remove(peer_ip),
            final(state).hash_tracker == old(state).hash_tracker,
            final(state).clock_origin == old(state).clock_origin,
    {
        state.connections.remove(peer_ip);
        set_device_state(&mut state.devices, peer_ip, ConnectionStatus::Disconnected, true);
    }

    /// The addresses of the devices in `status`, each once.
    pub fn peers_with_status<S>(state: &NetworkState<S>, status: ConnectionStatus) -> (peers: Vec<PeerIp>)
        ensures
            peers@.no_duplicates(),
            forall|ip: PeerIp| peers@.contains(ip) <==> peers_in_status(state.devices@, status).contains(ip),
    {
        let entries = state.devices.entries();
        let n = entries.len();
        let mut peers: Vec<PeerIp> = Vec::new();
        let mut i: usize = 0;
        while i < n
            invariant
                n == entries@.len(),
                keys_distinct(entries@),
                state.devices@ == pairs_to_map(entries@),
                i <= n,
                peers@.no_duplicates(),
                forall|ip: PeerIp| peers@.contains(ip) <==> exists|j: int| 0 <= j < i
                    && #[trigger] entries@[j].0 == ip && entries@[j].1.connection_status == status,
            decreases n - i,
        {
            if entries[i].1.connection_status == status {
                proof {
                    assert(!peers@.contains(entries@[i as int].0)) by {
                        if peers@.contains(entries@[i as int].0) {
                            let j = choose|j: int| 0 <= j < i && #[trigger] entries@[j].0 == entries@[i as int].0
                                && entries@[j].1.connection_status == status;
                            assert(entries@[j].0 == entries@[i as int].0);
                        }
                    }
                }
                let ghost prev = peers@;
                peers.push(entries[i].0);
                proof {
                    assert forall|ip: PeerIp| peers@.contains(ip) <==> exists|j: int| 0 <= j < i + 1
                        && #[trigger] entries@[j].0 == ip && entries@[j].1.connection_status == status by {
                        assert(peers@ == prev.push(entries@[i as int].0));
                        if peers@.contains(ip) {
                            let k = choose|k: int| 0 <= k < peers@.len() && peers@[k] == ip;
                            if k < prev.len() {
                                assert(prev[k] == ip);
                                assert(prev.contains(ip));
                            } else {
                                assert(entries@[i as int].0 == ip);
                            }
                        }
                        if exists|j: int| 0 <= j < i + 1 && #[trigger] entries@[j].0 == ip
                            && entries@[j].1.connection_status == status {
                            let j = choose|j: int| 0 <= j < i + 1 && #[trigger] entries@[j].0 == ip
                                && entries@[j].1.connection_status == status;
                            if j < i {
                                assert(prev.contains(ip));
                                let k = choose|k: int| 0 <= k < prev.len() && prev[k] == ip;
                                assert(peers@[k] == ip);
                            } else {
                                assert(peers@[prev.len() as int] == ip);
                            }
                        }
                    }
                }
            }
            i = i + 1;
        }
        proof {
            assert forall|ip: PeerIp| peers@.contains(ip) <==> peers_in_status(state.devices@, status).contains(ip) by {
                if has_key(entries@, ip) {
                    let j = choose|j: int| 0 <= j < entries@.len() && #[trigger] entries@[j].0 == ip;
                    lemma_entry_in_map(entries@, j);
                }
                if peers@.contains(ip) {
                    let j = choose|j: int| 0 <= j < n && #[trigger] entries@[j].0 == ip
                        && entries@[j].1.connection_status == status;
                    lemma_entry_in_map(entries@, j);
                }
            }
        }
        peers
    }

    /// The devices to reconnect to: those in `Reconnecting`, each once.
    pub fn reconnect_targets<S>(state: &NetworkState<S>) -> (targets: Vec<PeerIp>)
        ensures
            targets@.no_duplicates(),
            forall|ip: PeerIp| targets@.contains(ip) <==> peers_in_status(
                state.devices@,
                ConnectionStatus::Reconnecting,
            ).contains(ip),
    {
        Self::peers_with_status(state, ConnectionStatus::Reconnecting)
    }

    /// Number of devices in `Connected`.
    pub fn connected_count<S>(state: &NetworkState<S>) -> (count: usize)
        ensures
            count == peers_in_status(state.devices@, ConnectionStatus::Connected).len(),
    {
        let peers = Self::peers_with_status(state, ConnectionStatus::Connected);
        proof {
            peers@.unique_seq_to_set();
            assert(peers@.to_set() =~= peers_in_status(state.devices@, ConnectionStatus::Connected));
        }
        peers.len()
    }

    /// Forgets every device that has not been heard from within the timeout,
    /// measured against the current time.
    pub fn cleanup_devices<S>(state: &mut NetworkState<S>)
        ensures
            exists|now: u64| final(state).devices@ == fresh_devices(old(state).devices@, now),
            final(state).connections == old(state).connections,
            final(state).hash_tracker == old(state).hash_tracker,
            final(state).clock_origin == old(state).clock_origin,
    {
        let now = nanos_since(&state.clock_origin);
        Self::remove_stale_devices(state, now);
    }

    /// Forgets every device that is no longer current at time `now`.
    pub fn remove_stale_devices<S>(state: &mut NetworkState<S>, now: u64)
        ensures
            final(state).devices@ == fresh_devices(old(state).devices@, now),
            final(state).connections == old(state).connections,
            final(state).hash_tracker == old(state).hash_tracker,
            final(state).clock_origin == old(state).clock_origin,
    {
        let ghost old_devices = state.devices@;
        let mut stale: Vec<PeerIp> = Vec::new();
        {
            let entries = state.devices.entries();
            let n = entries.len();
            let mut i: usize = 0;
            while i < n
                invariant
                    n == entries@.len(),
                    keys_distinct(entries@),
                    old_devices == pairs_to_map(entries@),
                    i <= n,
                    forall|ip: PeerIp| stale@.contains(ip) <==> exists|j: int| 0 <= j < i
                        && #[trigger] entries@[j].0 == ip && !is_fresh(entries@[j].1.last_seen, now),
                decreases n - i,
            {
                let last_seen = entries[i].1.last_seen;
                let age: u64 = if now >= last_seen { now - last_seen } else { 0 };
                if age >= DEVICE_TIMEOUT_NANOS {
                    let ghost prev = stale@;
                    stale.push(entries[i].0);
                    proof {
                        assert forall|ip: PeerIp| stale@.contains(ip) <==> exists|j: int| 0 <= j < i + 1
                            && #[trigger] entries@[j].0 == ip && !is_fresh(entries@[j].1.last_seen, now) by {
                            assert(stale@ == prev.push(entries@[i as int].0));
                            if stale@.contains(ip) {
                                let k = choose|k: int| 0 <= k < stale@.len() && stale@[k] == ip;
                                if k < prev.len() {
                                    assert(prev[k] == ip);
                                    assert(prev.contains(ip));
                                }
                            }
                            if exists|j: int| 0 <= j < i + 1 && #[trigger] entries@[j].0 == ip
                                && !is_fresh(entries@[j].1.last_seen, now) {
                                let j = choose|j: int| 0 <= j < i + 1 && #[trigger] entries@[j].0 == ip
                                    && !is_fresh(entries@[j].1.last_seen, now);
                                if j < i {
                                    assert(prev.contains(ip));
                                    let k = choose|k: int| 0 <= k < prev.len() && prev[k] == ip;
                                    assert(stale@[k] == ip);
                                } else {
                                    assert(stale@[prev.len() as int] == ip);
                                }
                            }
                        }
                    }
                }
                i = i + 1;
            }
            proof {
                assert forall|ip: PeerIp| stale@.contains(ip) <==> (old_devices.contains_key(ip)
                    && !is_fresh(old_devices[ip].last_seen, now)) by {
                    if has_key(entries@, ip) {
                        let j = choose|j: int| 0 <= j < entries@.len() && #[trigger] entries@[j].0 == ip;
                        lemma_entry_in_map(entries@, j);
                    }
                    if stale@.contains(ip) {
                        let j = choose|j: int| 0 <= j < n && #[trigger] entries@[j].0 == ip
                            && !is_fresh(entries@[j].1.last_seen, now);
                        lemma_entry_in_map(entries@, j);
                    }
                }
            }
        }
        let m = stale.len();
        let mut k: usize = 0;
        while k < m
            invariant
                m == stale@.len(),
                k <= m,
                forall|ip: PeerIp| stale@.contains(ip) <==> (old_devices.contains_key(ip)
                    && !is_fresh(old_devices[ip].last_seen, now)),
                state.devices@ == old_devices.remove_keys(stale@.take(k as int).to_set()),
                state.connections == old(state).connections,
                state.hash_tracker == old(state).hash_tracker,
                state.clock_origin == old(state).clock_origin,
            decreases m - k,
        {
            let ip = stale[k];
            state.devices.remove(ip);
            proof {
                assert(stale@.take(k + 1).to_set() =~= stale@.take(k as int).to_set().insert(ip)) by {
                    assert forall|x: PeerIp| stale@.take(k + 1).contains(x) <==> (stale@.take(
                        k as int,
                    ).contains(x) || x == ip) by {
                        if stale@.take(k + 1).contains(x) {
                            let a = choose|a: int| 0 <= a < k + 1 && #[trigger] stale@.take(k + 1)[a] == x;
                            if a < k {
                                assert(stale@.take(k as int)[a] == x);
                            }
                        }
                        if stale@.take(k as int).contains(x) {
                            let a = choose|a: int| 0 <= a < k && #[trigger] stale@.take(k as int)[a] == x;
                            assert(stale@.take(k + 1)[a] == x);
                        }
                        if x == ip {
                            assert(stale@.take(k + 1)[k as int] == x);
                        }
                    }
                }
                assert(state.devices@ =~= old_devices.remove_keys(stale@.take(k + 1).to_set()));
            }
            k = k + 1;
        }
        proof {
            assert(stale@.take(m as int) =~= stale@);
            assert(state.devices@ =~= fresh_devices(old_devices, now));
        }
    }

    /// Decides whether clipboard content received from a peer is put on the
    /// local clipboard: content over the size limit or whose hash is remembered
    /// is dropped; other content is remembered and applied.
    pub fn accept_incoming_clipboard(tracker: &mut HashTracker, content: &str) -> (apply: bool)
        ensures
            apply == incoming_accepted(old(tracker)@, content@),
            final(tracker).capacity() == old(tracker).capacity(),
            final(tracker)@ == (if within_size_limit(content@) {
                remember(old(tracker)@, old(tracker).capacity(), content_hash(content@))
            } else {
                old(tracker)@
            }),
    {
        if content.as_bytes().len() > MAX_CONTENT_BYTES {
            return false;
        }
        let content_hash = ClipboardManager::calculate_hash(content);
        if !tracker.contains(content_hash) {
            tracker.insert(content_hash);
            true
        } else {
            proof {
                assert(remember(tracker@, tracker.capacity(), content_hash) == tracker@);
            }
            false
        }
    }

    /// The message that carries `content` to a peer, or `None` when the content
    /// is over the size limit.
    pub fn outgoing_clipboard_message(device_id: String, content: String) -> (message: Option<Message>)
        ensures
            within_size_limit(content@) ==> message == Some(
                Message::ClipboardData { device_id, content },
            ),
            !within_size_limit(content@) ==> message is None,
    {
        if content.as_str().as_bytes().len() > MAX_CONTENT_BYTES {
            None
        } else {
            Some(Message::ClipboardData { device_id, content })
        }
    }

    /// The announcement broadcast on the discovery port.
    pub fn discovery_announcement(device_id: String, port: u16) -> (message: Message)
        ensures
            message == (Message::Discovery { device_id, port }),
    {
        Message::Discovery { device_id, port }
    }

    /// What to do when the user asks to pair with a peer (`is_confirm` false)
    /// or accepts a peer's request (`is_confirm` true): a confirmation is
    /// followed by a TCP connection; a request is not.
    pub fn pair_action(device_id: String, is_confirm: bool) -> (action: PairAction)
        ensures
            is_confirm ==> action == (PairAction {
                message: Message::PairConfirm { device_id },
                connect: true,
            }),
            !is_confirm ==> action == (PairAction {
                message: Message::PairRequest { device_id },
                connect: false,
            }),
    {
        if is_confirm {
            PairAction { message: Message::PairConfirm { device_id }, connect: true }
        } else {
            PairAction { message: Message::PairRequest { device_id }, connect: false }
        }
    }

    /// The TCP port used for clipboard data: the one after the discovery port,
    /// or `None` when the discovery port is the last one.
    pub fn tcp_port(port: u16) -> (tcp: Option<u16>)
        ensures
            port < 65535 ==> tcp == Some((port + 1) as u16),
            port == 65535 ==> tcp is None,
    {
        if port < 65535 {
            Some(port + 1)
        } else {
            None
        }
    }

    /// The outcome of reserving the discovery port (UDP) and then the data
    /// port (TCP): the first port that could not be bound is reported; the
    /// last port has no data port after it.
    pub fn check_ports(port: u16, udp_bound: bool, tcp_bound: bool) -> (result: Result<(), NetworkError>)
        ensures
            !udp_bound ==> result == Err::<(), NetworkError>(NetworkError::PortInUse(port)),
            udp_bound && port == 65535 ==> result == Err::<(), NetworkError>(NetworkError::NoDataPort(port)),
            udp_bound && port < 65535 && !tcp_bound ==> result == Err::<(), NetworkError>(
                NetworkError::PortInUse((port + 1) as u16),
            ),
            udp_bound && port < 65535 && tcp_bound ==> result is Ok,
    {
        if !udp_bound {
            Err(NetworkError::PortInUse(port))
        } else {
            match Self::tcp_port(port) {
                None => Err(NetworkError::NoDataPort(port)),
                Some(tcp) => {
                    if !tcp_bound {
                        Err(NetworkError::PortInUse(tcp))
                    } else {
                        Ok(())
                    }
                },
            }
        }
    }

    /// Broadcast addresses for the discovery announcements: for each
    /// non-loopback IPv4 interface, in order, its address with every host bit
    /// set; when there is none, the limited broadcast address.
    pub fn get_broadcast_addresses(interfaces: &Vec<NetInterface>) -> (addresses: Vec<PeerIp>)
        ensures
            addresses@ == broadcast_plan(interfaces@),
            addresses@.len() > 0,
    {
        let mut addresses: Vec<PeerIp> = Vec::new();
        let n = interfaces.len();
        let mut i: usize = 0;
        while i < n
            invariant
                n == interfaces@.len(),
                i <= n,
                addresses@ == interface_broadcasts(interfaces@.take(i as int)),
            decreases n - i,
        {
            let interface = interfaces[i];
            proof {
                assert(interfaces@.take(i + 1).drop_last() =~= interfaces@.take(i as int));
            }
            if !interface.is_loopback {
                match interface.ipv4 {
                    Some((ip, netmask)) => {
                        addresses.push(PeerIp::V4(ip | !netmask));
                    },
                    None => {},
                }
            }
            i = i + 1;
        }
        proof {
            assert(interfaces@.take(n as int) =~= interfaces@);
        }
        if addresses.len() == 0 {
            addresses.push(PeerIp::V4(0xffff_ffffu32));
            assert(addresses@ =~= seq![limited_broadcast()]);
        }
        addresses
    }

    /// The user clicked the button of the card drawn for `shown`, the device at
    /// `ip` as the card showed it. Clicking a disconnected device that was
    /// marked as intentionally disconnected clears the mark in the table.
    /// Returns what the networking layer is asked to do.
    pub fn card_clicked<S>(state: &mut NetworkState<S>, ip: PeerIp, shown: &Device) -> (action: Option<CardAction>)
        ensures
            action == (match shown.connection_status {
                ConnectionStatus::Disconnected => Some(CardAction::RequestPairing(ip)),
                ConnectionStatus::Connecting => Some(CardAction::ConfirmPairing(ip)),
                ConnectionStatus::Connected => Some(CardAction::Disconnect(ip)),
                ConnectionStatus::Reconnecting => None,
            }),
            final(state).devices@ == (if shown.connection_status == ConnectionStatus::Disconnected
                && shown.intentionally_disconnected {
                with_mark_cleared(old(state).devices@, ip)
            } else {
                old(state).devices@
            }),
            final(state).connections == old(state).connections,
            final(state).hash_tracker == old(state).hash_tracker,
            final(state).clock_origin == old(state).clock_origin,
    {
        if shown.connection_status == ConnectionStatus::Disconnected && shown.intentionally_disconnected {
            let cleared = match state.devices.get(ip) {
                Some(d) => Some(
                    Device {
                        ip: d.ip,
                        device_id: d.device_id.clone(),
                        last_seen: d.last_seen,
                        connection_status: d.connection_status,
                        intentionally_disconnected: false,
                    },
                ),
                None => None,
            };
            match cleared {
                Some(d) => {
                    state.devices.insert(ip, d);
                },
                None => {},
            }
        }
        card_action(shown.connection_status, ip)
    }

    /// Networking restarts: every device and every connection is forgotten;
    /// the remembered hashes stay.
    pub fn reset_for_restart<S>(state: &mut NetworkState<S>)
        ensures
            final(state).devices@ == Map::<PeerIp, Device>::empty(),
            final(state).connections@ == Map::<PeerIp, S>::empty(),
            final(state).hash_tracker == old(state).hash_tracker,
            final(state).clock_origin == old(state).clock_origin,
    {
        state.connections.clear();
        state.devices.clear();
    }
}

/// The identifier that a message carries.
pub open spec fn sender_id(message: Message) -> Seq<char> {
    match message {
        Message::Discovery { device_id, .. } => device_id@,
        Message::PairRequest { device_id } => device_id@,
        Message::PairConfirm { device_id } => device_id@,
        Message::ClipboardData { device_id, .. } => device_id@,
        Message::Disconnect { device_id } => device_id@,
    }
}

proof fn lemma_remember_contains(recent: Seq<u64>, capacity: nat, hash: u64)
    requires
        capacity > 0,
    ensures
        remember(recent, capacity, hash).contains(hash),
{
    let r = remember(recent, capacity, hash);
    if !recent.contains(hash) {
        assert(r[r.len() - 1] == hash);
    }
}

/// Echo suppression, one way: once content received from a peer has been
/// through the acceptance check, the clipboard monitor does not send that
/// content back, whatever hash it saw last.
pub proof fn lemma_received_content_not_echoed(
    recent: Seq<u64>,
    capacity: nat,
    last_hash: u64,
    content: Seq<char>,
)
    requires
        capacity > 0,
        within_size_limit(content),
    ensures
        !monitor_sends(last_hash, remember(recent, capacity, content_hash(content)), content),
{
    lemma_remember_contains(recent, capacity, content_hash(content));
}

/// Echo suppression, the other way: content that the monitor has just sent is
/// not put on the clipboard again when a peer sends it back.
pub proof fn lemma_sent_content_not_reapplied(
    recent: Seq<u64>,
    capacity: nat,
    last_hash: u64,
    content: Seq<char>,
)
    requires
        capacity > 0,
        monitor_sends(last_hash, recent, content),
    ensures
        !incoming_accepted(remember(recent, capacity, content_hash(content)), content),
{
    lemma_remember_contains(recent, capacity, content_hash(content));
}

/// A device ignores discovery messages that carry its own identifier.
pub proof fn lemma_own_messages_ignored(
    devices: Map<PeerIp, Device>,
    message: Message,
    sender: PeerIp,
    own_id: Seq<char>,
    now: u64,
)
    requires
        sender_id(message) == own_id,
    ensures
        after_discovery_message(devices, message, sender, own_id, now) == devices,
{
}

/// Discovery messages only ever add the sender, and only announcements add it;
/// a device they add is disconnected; and the only status change they make is
/// from `Disconnected` to `Connecting`.
pub proof fn lemma_discovery_transitions(
    devices: Map<PeerIp, Device>,
    message: Message,
    sender: PeerIp,
    own_id: Seq<char>,
    now: u64,
)
    ensures
        ({
            let after = after_discovery_message(devices, message, sender, own_id, now);
            &&& forall|ip: PeerIp| #[trigger] after.contains_key(ip) ==> devices.contains_key(ip) || ip == sender
            &&& forall|ip: PeerIp| devices.contains_key(ip) ==> #[trigger] after.contains_key(ip)
            &&& !(message is Discovery) ==> after.dom() == devices.dom()
            &&& forall|ip: PeerIp|
                #[trigger] after.contains_key(ip) && !devices.contains_key(ip)
                    ==> after[ip].connection_status == ConnectionStatus::Disconnected
            &&& forall|ip: PeerIp|
                #[trigger] devices.contains_key(ip) ==> (after[ip].connection_status
                    == devices[ip].connection_status || (devices[ip].connection_status
                    == ConnectionStatus::Disconnected && after[ip].connection_status
                    == ConnectionStatus::Connecting))
        }),
{
    let after = after_discovery_message(devices, message, sender, own_id, now);
    if !(message is Discovery) {
        assert(after.dom() =~= devices.dom());
    }
}

/// Every operation on the device table keeps each device stored under its own
/// address.
pub proof fn lemma_devices_stay_keyed(
    devices: Map<PeerIp, Device>,
    message: Message,
    sender: PeerIp,
    own_id: Seq<char>,
    ip: PeerIp,
    status: ConnectionStatus,
    now: u64,
)
    requires
        devices_keyed(devices),
    ensures
        devices_keyed(after_discovery_message(devices, message, sender, own_id, now)),
        devices_keyed(with_status(devices, ip, status)),
        devices_keyed(fresh_devices(devices, now)),
        devices_keyed(with_mark_cleared(devices, ip)),
        devices_keyed(after_connection_lost(devices, ip)),
        devices_keyed(after_connection_established(devices, ip)),
        devices_keyed(after_user_disconnect(devices, ip)),
{
}

/// After a cleanup at time `now`, the table holds exactly the devices that are
/// current at `now`, unchanged.
pub proof fn lemma_cleanup_keeps_exactly_fresh(devices: Map<PeerIp, Device>, now: u64)
    ensures
        forall|ip: PeerIp| #[trigger] fresh_devices(devices, now).contains_key(ip) <==> (
        devices.contains_key(ip) && is_fresh(devices[ip].last_seen, now)),
        forall|ip: PeerIp|
            #![trigger fresh_devices(devices, now).contains_key(ip)]
            devices.contains_key(ip) ==> (fresh_devices(devices, now).contains_key(ip) <==> (
            devices[ip].last_seen > now || now - devices[ip].last_seen < 10_000_000_000)),
        forall|ip: PeerIp| #[trigger] fresh_devices(devices, now).contains_key(ip)
            ==> fresh_devices(devices, now)[ip] == devices[ip],
{
}

/// A known device whose connection is lost, and that the user did not
/// disconnect, is among the reconnection targets.
pub proof fn lemma_lost_connection_is_retried(devices: Map<PeerIp, Device>, ip: PeerIp)
    requires
        devices.contains_key(ip),
        !devices[ip].intentionally_disconnected,
    ensures
        after_connection_lost(devices, ip)[ip].connection_status == ConnectionStatus::Reconnecting,
        peers_in_status(after_connection_lost(devices, ip), ConnectionStatus::Reconnecting).contains(ip),
{
}

/// A device that the user disconnects stays disconnected when its connection
/// then ends, and is not among the reconnection targets, whatever its status
/// was before.
pub proof fn lemma_user_disconnect_not_retried(devices: Map<PeerIp, Device>, ip: PeerIp)
    ensures
        ({
            let after = after_connection_lost(after_user_disconnect(devices, ip), ip);
            &&& devices.contains_key(ip) ==> after[ip].connection_status == ConnectionStatus::Disconnected
            &&& !peers_in_status(after, ConnectionStatus::Reconnecting).contains(ip)
        }),
{
}

/// When a TCP connection with a known peer comes up, the peer is `Connected`,
/// whatever its status was, and no longer marked as intentionally
/// disconnected; its identifier, address and time are kept, and no other
/// device changes. An unknown peer leaves the table as it is.
pub proof fn lemma_connection_established_connects(devices: Map<PeerIp, Device>, ip: PeerIp)
    ensures
        ({
            let after = after_connection_established(devices, ip);
            &&& devices.contains_key(ip) ==> {
                &&& after.contains_key(ip)
                &&& after[ip].connection_status == ConnectionStatus::Connected
                &&& !after[ip].intentionally_disconnected
                &&& after[ip].device_id == devices[ip].device_id
                &&& after[ip].ip == devices[ip].ip
                &&& after[ip].last_seen == devices[ip].last_seen
                &&& peers_in_status(after, ConnectionStatus::Connected).contains(ip)
            }
            &&& !devices.contains_key(ip) ==> after == devices
            &&& after.dom() == devices.dom()
            &&& forall|other: PeerIp| #[trigger] devices.contains_key(other) && other != ip ==> after[other] == devices[other]
        }),
{
    let after = after_connection_established(devices, ip);
    assert(after.dom() =~= devices.dom());
}

/// An announcement from another device sets the sender's time to `now`,
/// whatever its status; a known sender keeps its identifier, status and mark,
/// and an unknown one is added, disconnected and unmarked, under the
/// announced identifier. No other device changes.
pub proof fn lemma_discovery_refreshes_sender(
    devices: Map<PeerIp, Device>,
    message: Message,
    sender: PeerIp,
    own_id: Seq<char>,
    now: u64,
)
    requires
        message is Discovery,
        sender_id(message) != own_id,
    ensures
        ({
            let after = after_discovery_message(devices, message, sender, own_id, now);
            &&& after.contains_key(sender)
            &&& after[sender].last_seen == now
            &&& devices.contains_key(sender) ==> {
                &&& after[sender].connection_status == devices[sender].connection_status
                &&& after[sender].device_id == devices[sender].device_id
                &&& after[sender].intentionally_disconnected == devices[sender].intentionally_disconnected
                &&& after[sender].ip == devices[sender].ip
            }
            &&& !devices.contains_key(sender) ==> {
                &&& after[sender].device_id@ == sender_id(message)
                &&& after[sender].connection_status == ConnectionStatus::Disconnected
                &&& !after[sender].intentionally_disconnected
                &&& after[sender].ip == sender
            }
            &&& forall|other: PeerIp|
                other != sender ==> (#[trigger] after.contains_key(other) == devices.contains_key(other))
            &&& forall|other: PeerIp| #[trigger] devices.contains_key(other) && other != sender ==> after[other] == devices[other]
        }),
{
}

/// A pairing request from another device moves that device, when known and
/// disconnected, to `Connecting`, keeping its identifier, time and mark.
pub proof fn lemma_pair_request_marks_connecting(
    devices: Map<PeerIp, Device>,
    message: Message,
    sender: PeerIp,
    own_id: Seq<char>,
    now: u64,
)
    requires
        message is PairRequest,
        sender_id(message) != own_id,
        devices.contains_key(sender),
        devices[sender].connection_status == ConnectionStatus::Disconnected,
    ensures
        ({
            let after = after_discovery_message(devices, message, sender, own_id, now);
            &&& after.contains_key(sender)
            &&& after[sender].connection_status == ConnectionStatus::Connecting
            &&& after[sender].device_id == devices[sender].device_id
            &&& after[sender].last_seen == devices[sender].last_seen
            &&& after[sender].intentionally_disconnected == devices[sender].intentionally_disconnected
            &&& after.dom() == devices.dom()
        }),
{
    let after = after_discovery_message(devices, message, sender, own_id, now);
    assert(after.dom() =~= devices.dom());
}

/// The monitor sends polled content exactly when its hash differs from the
/// hash of the previous poll and is not remembered; nothing else about the
/// text matters, so two texts with the same hash are treated alike.
pub proof fn lemma_monitor_sends_new_content(last_hash: u64, recent: Seq<u64>, content: Seq<char>, other: Seq<char>)
    ensures
        content_hash(content) != last_hash && !recent.contains(content_hash(content)) ==> monitor_sends(
            last_hash,
            recent,
            content,
        ),
        monitor_sends(last_hash, recent, content) ==> content_hash(content) != last_hash,
        monitor_sends(last_hash, recent, content) ==> !recent.contains(content_hash(content)),
        content_hash(content) == content_hash(other) ==> monitor_sends(last_hash, recent, content)
            == monitor_sends(last_hash, recent, other),
{
}

/// Content received from a peer is applied exactly when its UTF-8 encoding is
/// at most 50 MiB and its hash is not remembered.
pub proof fn lemma_incoming_accepted_exactly(recent: Seq<u64>, content: Seq<char>)
    ensures
        incoming_accepted(recent, content) <==> (vstd::utf8::encode_utf8(content).len() <= 50 * 1024 * 1024
            && !recent.contains(content_hash(content))),
{
}

/// Broadcast addresses of interfaces listed one after another are the
/// addresses of each list, one after the other: every interface contributes
/// on its own, however many come before it.
pub proof fn lemma_broadcasts_concat(first: Seq<NetInterface>, second: Seq<NetInterface>)
    ensures
        interface_broadcasts(first + second) == interface_broadcasts(first) + interface_broadcasts(second),
    decreases second.len(),
{
    if second.len() == 0 {
        assert(first + second =~= first);
        assert(interface_broadcasts(first) + Seq::<PeerIp>::empty() =~= interface_broadcasts(first));
    } else {
        lemma_broadcasts_concat(first, second.drop_last());
        assert((first + second).drop_last() =~= first + second.drop_last());
        assert((first + second).last() == second.last());
        let rest = interface_broadcasts(second.drop_last());
        let a = interface_broadcasts(first);
        match second.last().ipv4 {
            Some((ip, netmask)) => {
                if !second.last().is_loopback {
                    assert(a + rest.push(PeerIp::V4(ip | !netmask)) =~= (a + rest).push(PeerIp::V4(ip | !netmask)));
                }
            },
            None => {},
        }
    }
}

/// One interface contributes its address with every host bit set when it is a
/// non-loopback IPv4 interface, and nothing otherwise.
pub proof fn lemma_broadcasts_single(interface: NetInterface)
    ensures
        interface_broadcasts(seq![interface]) == (match interface.ipv4 {
            Some((ip, netmask)) => if !interface.is_loopback {
                seq![PeerIp::V4(ip | !netmask)]
            } else {
                Seq::<PeerIp>::empty()
            },
            None => Seq::<PeerIp>::empty(),
        }),
{
    assert(seq![interface].drop_last() =~= Seq::<NetInterface>::empty());
    assert(interface_broadcasts(Seq::<NetInterface>::empty()) == Seq::<PeerIp>::empty());
    match interface.ipv4 {
        Some((ip, netmask)) => {
            if !interface.is_loopback {
                assert(Seq::<PeerIp>::empty().push(PeerIp::V4(ip | !netmask)) =~= seq![PeerIp::V4(ip | !netmask)]);
            }
        },
        None => {},
    }
}

/// There are as many broadcast addresses as non-loopback IPv4 interfaces.
pub proof fn lemma_broadcasts_count(interfaces: Seq<NetInterface>)
    ensures
        interface_broadcasts(interfaces).len() == interfaces.filter(
            |i: NetInterface| !i.is_loopback && i.ipv4 is Some,
        ).len(),
    decreases interfaces.len(),
{
    reveal_with_fuel(Seq::filter, 1);
    if interfaces.len() > 0 {
        lemma_broadcasts_count(interfaces.drop_last());
    }
}

/// The limited broadcast address is used exactly when no interface is a
/// non-loopback IPv4 interface.
pub proof fn lemma_broadcast_fallback(interfaces: Seq<NetInterface>)
    ensures
        (interface_broadcasts(interfaces).len() == 0) <==> (forall|k: int|
            0 <= k < interfaces.len() ==> #[trigger] interfaces[k].is_loopback || interfaces[k].ipv4 is None),
    decreases interfaces.len(),
{
    if interfaces.len() > 0 {
        lemma_broadcast_fallback(interfaces.drop_last());
        let last = interfaces.len() - 1;
        assert(interfaces[last] == interfaces.last());
        assert forall|k: int| 0 <= k < interfaces.len() - 1 implies #[trigger] interfaces.drop_last()[k]
            == interfaces[k] by {}
        if interface_broadcasts(interfaces).len() == 0 {
            assert forall|k: int| 0 <= k < interfaces.len() implies #[trigger] interfaces[k].is_loopback
                || interfaces[k].ipv4 is None by {
                if k < last {
                    assert(interfaces.drop_last()[k] == interfaces[k]);
                }
            }
        }
    }
}

/// When a connection ends, only that peer's status can change, and only to
/// `Reconnecting`; its identifier, address, time and mark are kept.
pub proof fn lemma_connection_lost_changes_only_status(devices: Map<PeerIp, Device>, ip: PeerIp)
    ensures
        ({
            let after = after_connection_lost(devices, ip);
            &&& after.dom() == devices.dom()
            &&& forall|other: PeerIp| #[trigger] devices.contains_key(other) && other != ip ==> after[other] == devices[other]
            &&& devices.contains_key(ip) ==> {
                &&& after[ip].device_id == devices[ip].device_id
                &&& after[ip].ip == devices[ip].ip
                &&& after[ip].last_seen == devices[ip].last_seen
                &&& after[ip].intentionally_disconnected == devices[ip].intentionally_disconnected
                &&& (after[ip].connection_status == devices[ip].connection_status
                    || after[ip].connection_status == ConnectionStatus::Reconnecting)
            }
        }),
{
    let after = after_connection_lost(devices, ip);
    assert(after.dom() =~= devices.dom());
}

/// When the user disconnects a known peer, it is `Disconnected` and marked as
/// intentionally disconnected, keeping its identifier, address and time; no
/// other device changes.
pub proof fn lemma_user_disconnect_marks(devices: Map<PeerIp, Device>, ip: PeerIp)
    ensures
        ({
            let after = after_user_disconnect(devices, ip);
            &&& after.dom() == devices.dom()
            &&& forall|other: PeerIp| #[trigger] devices.contains_key(other) && other != ip ==> after[other] == devices[other]
            &&& devices.contains_key(ip) ==> {
                &&& after[ip].connection_status == ConnectionStatus::Disconnected
                &&& after[ip].intentionally_disconnected
                &&& after[ip].device_id == devices[ip].device_id
                &&& after[ip].ip == devices[ip].ip
                &&& after[ip].last_seen == devices[ip].last_seen
            }
        }),
{
    let after = after_user_disconnect(devices, ip);
    assert(after.dom() =~= devices.dom());
}

/// The number written by a sequence of decimal digits.
pub open spec fn digits_value(digits: Seq<char>) -> int
    decreases digits.len(),
{
    if digits.len() == 0 {
        0
    } else {
        digits_value(digits.drop_last()) * 10 + (digits.last() as int - 48)
    }
}

/// The decimal numeral of `n` consists of digits only, has no leading zero
/// (except for zero itself), and reads back as `n`.
pub proof fn lemma_decimal_reads_back(n: nat)
    ensures
        decimal(n).len() > 0,
        forall|k: int| 0 <= k < decimal(n).len() ==> '0' <= #[trigger] decimal(n)[k] && decimal(n)[k] <= '9',
        n > 0 ==> decimal(n)[0] != '0',
        digits_value(decimal(n)) == n,
    decreases n,
{
    if n >= 10 {
        lemma_decimal_reads_back(n / 10);
        let d = decimal(n);
        assert(d.drop_last() =~= decimal(n / 10));
        assert forall|k: int| 0 <= k < d.len() implies '0' <= #[trigger] d[k] && d[k] <= '9' by {
            if k < d.len() - 1 {
                assert(d[k] == decimal(n / 10)[k]);
            }
        }
        assert(d[0] == decimal(n / 10)[0]);
        assert(d.last() == digit_char(n % 10));
        assert(digit_char(n % 10) as int == 48 + n % 10);
        assert(digits_value(d) == (n / 10) * 10 + (n % 10));
    } else {
        assert(decimal(n).drop_last() =~= Seq::<char>::empty());
        assert(digit_char(n) as int == 48 + n);
        assert(digits_value(decimal(n)) == digits_value(Seq::<char>::empty()) * 10 + (digit_char(n) as int - 48));
    }
}

/// The devices counted in a status are exactly the known devices in that
/// status.
pub proof fn lemma_peers_in_status_exactly(devices: Map<PeerIp, Device>, status: ConnectionStatus, ip: PeerIp)
    ensures
        peers_in_status(devices, status).contains(ip) <==> (devices.contains_key(ip)
            && devices[ip].connection_status == status),
{
}

/// Discovery goes to the interfaces' broadcast addresses when some interface
/// is a non-loopback IPv4 one, and to 255.255.255.255 alone otherwise.
pub proof fn lemma_broadcast_plan_targets(interfaces: Seq<NetInterface>)
    ensures
        (exists|k: int| 0 <= k < interfaces.len() && !(#[trigger] interfaces[k]).is_loopback
            && interfaces[k].ipv4 is Some) ==> broadcast_plan(interfaces) == interface_broadcasts(interfaces),
        (forall|k: int| 0 <= k < interfaces.len() ==> (#[trigger] interfaces[k]).is_loopback
            || interfaces[k].ipv4 is None) ==> broadcast_plan(interfaces) == seq![PeerIp::V4(4294967295u32)],
{
    lemma_broadcast_fallback(interfaces);
}

/// Clicking the card of a device marked as intentionally disconnected clears
/// only that mark.
pub proof fn lemma_mark_cleared_only(devices: Map<PeerIp, Device>, ip: PeerIp)
    ensures
        ({
            let after = with_mark_cleared(devices, ip);
            &&& after.dom() == devices.dom()
            &&& forall|other: PeerIp| #[trigger] devices.contains_key(other) && other != ip ==> after[other] == devices[other]
            &&& devices.contains_key(ip) ==> after[ip] == (Device { intentionally_disconnected: false, ..devices[ip] })
        }),
{
    let after = with_mark_cleared(devices, ip);
    assert(after.dom() =~= devices.dom());
}

} // verus!
