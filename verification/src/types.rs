use vstd::prelude::*;

verus! {

/// The network address of a peer: an IPv4 address as its 32-bit big-endian
/// value, or an IPv6 address as its 128-bit value.
#[derive(Clone, Copy, Debug, PartialEq, Eq, Structural, Hash)]
pub enum PeerIp {
    V4(u32),
    V6(u128),
}

/// Message types for network communication.
#[derive(Clone, Debug)]
pub enum Message {
    /// Discovery announcement broadcast.
    Discovery { device_id: String, port: u16 },
    /// Request to pair with a device.
    PairRequest { device_id: String },
    /// Confirmation to accept pairing.
    PairConfirm { device_id: String },
    /// Clipboard data synchronisation.
    ClipboardData { device_id: String, content: String },
    /// Intentional disconnect notification.
    Disconnect { device_id: String },
}

/// Connection status of a discovered device.
#[derive(Clone, Copy, Debug, PartialEq, Eq, Structural)]
pub enum ConnectionStatus {
    /// Default state: a connection can be initiated.
    Disconnected,
    /// The remote device wants to connect and waits for local confirmation.
    Connecting,
    /// A TCP connection is established.
    Connected,
    /// The connection was lost and is being re-established.
    Reconnecting,
}

/// Status updates from the networking layer to the user interface.
#[derive(Clone, Debug)]
pub enum NetworkStatus {
    Started(String),
    Error(String),
    StatusUpdate(String),
}

/// A device discovered on the network. `last_seen` is a time in nanoseconds
/// on the monotonic clock of the network state that holds the device.
#[derive(Clone, Debug)]
pub struct Device {
    pub ip: PeerIp,
    pub device_id: String,
    pub last_seen: u64,
    pub connection_status: ConnectionStatus,
    pub intentionally_disconnected: bool,
}

impl Device {
    /// A disconnected device, seen at time `now`.
    pub fn new(ip: PeerIp, device_id: String, now: u64) -> (device: Self)
        ensures
            device == (Device {
                ip,
                device_id,
                last_seen: now,
                connection_status: ConnectionStatus::Disconnected,
                intentionally_disconnected: false,
            }),
    {
        Device {
            ip,
            device_id,
            last_seen: now,
            connection_status: ConnectionStatus::Disconnected,
            intentionally_disconnected: false,
        }
    }
}

} // verus!
