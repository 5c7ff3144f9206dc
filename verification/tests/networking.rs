use clipsync::network::{
    ClipboardMonitor, NetInterface, NetworkError, NetworkManager, NetworkState, CLEANUP_INTERVAL_MS,
    CLIPBOARD_APPLY_PAUSE_MS, CLIPBOARD_POLL_INTERVAL_MS, DEVICE_TIMEOUT_NANOS, DISCOVERY_INTERVAL_MS,
    HASH_TRACKER_CAPACITY, MAX_CONTENT_BYTES, RECONNECT_INTERVAL_MS,
};
use clipsync::types::{ConnectionStatus, Device, Message, PeerIp};
use clipsync::ui::CardAction;

const ME: &str = "aaaaaaaa-0000-4000-8000-000000000000";
const PEER: &str = "bbbbbbbb-1111-4111-9111-111111111111";

/// Milliseconds as nanoseconds, the unit of device times.
fn ms(millis: u64) -> u64 {
    millis * 1_000_000
}

fn ip(last: u32) -> PeerIp {
    PeerIp::V4(0xc0a8_0100 | last)
}

fn discovery(id: &str) -> Message {
    Message::Discovery { device_id: id.to_string(), port: 3847 }
}

fn status_of(state: &NetworkState<u8>, peer: PeerIp) -> Option<ConnectionStatus> {
    state.devices.get(peer).map(|d| d.connection_status)
}

#[test]
fn new_state_is_empty() {
    let state: NetworkState<u8> = NetworkState::new();
    assert_eq!(state.devices.len(), 0);
    assert_eq!(state.connections.len(), 0);
    assert_eq!(HASH_TRACKER_CAPACITY, 10);
}

#[test]
fn discovery_adds_disconnected_device() {
    let mut state: NetworkState<u8> = NetworkState::new();
    NetworkManager::apply_discovery_message(discovery(PEER), ip(7), ME, &mut state, ms(1000));
    let d = state.devices.get(ip(7)).unwrap();
    assert_eq!(d.ip, ip(7));
    assert_eq!(d.device_id, PEER);
    assert_eq!(d.last_seen, ms(1000));
    assert_eq!(d.connection_status, ConnectionStatus::Disconnected);
    assert!(!d.intentionally_disconnected);
}

#[test]
fn discovery_refreshes_known_device_only() {
    let mut state: NetworkState<u8> = NetworkState::new();
    NetworkManager::apply_discovery_message(discovery(PEER), ip(7), ME, &mut state, ms(1000));
    NetworkManager::connection_established(&mut state, ip(7), 1u8);
    NetworkManager::apply_discovery_message(discovery("other-id"), ip(7), ME, &mut state, ms(5000));
    let d = state.devices.get(ip(7)).unwrap();
    assert_eq!(d.last_seen, ms(5000));
    assert_eq!(d.device_id, PEER);
    assert_eq!(d.connection_status, ConnectionStatus::Connected);
    assert_eq!(state.devices.len(), 1);
}

#[test]
fn own_messages_are_ignored() {
    let mut state: NetworkState<u8> = NetworkState::new();
    NetworkManager::apply_discovery_message(discovery(ME), ip(7), ME, &mut state, ms(1000));
    assert_eq!(state.devices.len(), 0);
    NetworkManager::apply_discovery_message(discovery(PEER), ip(7), ME, &mut state, ms(1000));
    let request = Message::PairRequest { device_id: ME.to_string() };
    NetworkManager::apply_discovery_message(request, ip(7), ME, &mut state, ms(2000));
    assert_eq!(status_of(&state, ip(7)), Some(ConnectionStatus::Disconnected));
}

#[test]
fn pair_request_moves_disconnected_to_connecting() {
    let mut state: NetworkState<u8> = NetworkState::new();
    NetworkManager::apply_discovery_message(discovery(PEER), ip(7), ME, &mut state, ms(1000));
    let request = Message::PairRequest { device_id: PEER.to_string() };
    NetworkManager::apply_discovery_message(request, ip(7), ME, &mut state, ms(2000));
    assert_eq!(status_of(&state, ip(7)), Some(ConnectionStatus::Connecting));
    assert_eq!(state.devices.get(ip(7)).unwrap().last_seen, ms(1000));
}

#[test]
fn pair_request_leaves_other_states_and_unknown_peers() {
    let mut state: NetworkState<u8> = NetworkState::new();
    NetworkManager::apply_discovery_message(discovery(PEER), ip(7), ME, &mut state, ms(1000));
    NetworkManager::connection_established(&mut state, ip(7), 1u8);
    let request = Message::PairRequest { device_id: PEER.to_string() };
    NetworkManager::apply_discovery_message(request, ip(7), ME, &mut state, ms(2000));
    assert_eq!(status_of(&state, ip(7)), Some(ConnectionStatus::Connected));
    let request = Message::PairRequest { device_id: PEER.to_string() };
    NetworkManager::apply_discovery_message(request, ip(9), ME, &mut state, ms(2000));
    assert_eq!(state.devices.get(ip(9)).map(|d| d.ip), None);
}

#[test]
fn other_messages_change_nothing() {
    let mut state: NetworkState<u8> = NetworkState::new();
    NetworkManager::apply_discovery_message(discovery(PEER), ip(7), ME, &mut state, ms(1000));
    for m in [
        Message::PairConfirm { device_id: PEER.to_string() },
        Message::ClipboardData { device_id: PEER.to_string(), content: "x".to_string() },
        Message::Disconnect { device_id: PEER.to_string() },
    ] {
        NetworkManager::apply_discovery_message(m, ip(8), ME, &mut state, ms(3000));
    }
    assert_eq!(state.devices.len(), 1);
    assert_eq!(status_of(&state, ip(7)), Some(ConnectionStatus::Disconnected));
}

#[test]
fn handle_discovery_message_reads_the_clock() {
    let mut state: NetworkState<u8> = NetworkState::new();
    NetworkManager::handle_discovery_message(discovery(PEER), ip(7), ME, &mut state);
    let first = state.devices.get(ip(7)).unwrap().last_seen;
    // Nanoseconds since the state was made: well under a minute.
    assert!(first < ms(60_000));
    let waiting = std::time::Instant::now();
    while waiting.elapsed() < std::time::Duration::from_millis(30) {}
    NetworkManager::handle_discovery_message(discovery(PEER), ip(7), ME, &mut state);
    let second = state.devices.get(ip(7)).unwrap().last_seen;
    assert!(second >= first + ms(30));
}

#[test]
fn connection_lifecycle() {
    let mut state: NetworkState<u8> = NetworkState::new();
    NetworkManager::apply_discovery_message(discovery(PEER), ip(7), ME, &mut state, ms(1000));
    NetworkManager::connection_established(&mut state, ip(7), 5u8);
    assert_eq!(status_of(&state, ip(7)), Some(ConnectionStatus::Connected));
    assert_eq!(state.connections.get(ip(7)), Some(&5u8));
    assert_eq!(NetworkManager::connected_count(&state), 1);
    NetworkManager::connection_lost(&mut state, ip(7));
    assert_eq!(status_of(&state, ip(7)), Some(ConnectionStatus::Reconnecting));
    assert_eq!(state.connections.get(ip(7)), None);
    assert_eq!(NetworkManager::reconnect_targets(&state), vec![ip(7)]);
    assert_eq!(NetworkManager::connected_count(&state), 0);
    NetworkManager::connection_established(&mut state, ip(7), 6u8);
    NetworkManager::disconnect_peer(&mut state, ip(7));
    assert_eq!(status_of(&state, ip(7)), Some(ConnectionStatus::Disconnected));
    assert_eq!(state.connections.len(), 0);
}

#[test]
fn connection_from_unknown_peer_keeps_channel_only() {
    let mut state: NetworkState<u8> = NetworkState::new();
    NetworkManager::connection_established(&mut state, ip(3), 9u8);
    assert_eq!(state.devices.len(), 0);
    assert_eq!(state.connections.get(ip(3)), Some(&9u8));
}

#[test]
fn reconnect_targets_lists_each_reconnecting_device() {
    let mut state: NetworkState<u8> = NetworkState::new();
    for k in 1..=4 {
        NetworkManager::apply_discovery_message(discovery(PEER), ip(k), ME, &mut state, ms(1000));
        NetworkManager::connection_established(&mut state, ip(k), k as u8);
    }
    NetworkManager::connection_lost(&mut state, ip(2));
    NetworkManager::connection_lost(&mut state, ip(4));
    let mut targets = NetworkManager::reconnect_targets(&state);
    targets.sort_by_key(|p| match p {
        PeerIp::V4(v) => *v as u128,
        PeerIp::V6(v) => *v,
    });
    assert_eq!(targets, vec![ip(2), ip(4)]);
    assert_eq!(NetworkManager::connected_count(&state), 2);
    assert_eq!(
        NetworkManager::peers_with_status(&state, ConnectionStatus::Connecting),
        Vec::<PeerIp>::new()
    );
}

#[test]
fn stale_devices_are_removed() {
    let mut state: NetworkState<u8> = NetworkState::new();
    NetworkManager::apply_discovery_message(discovery(PEER), ip(1), ME, &mut state, ms(1000));
    NetworkManager::apply_discovery_message(discovery(PEER), ip(2), ME, &mut state, ms(5000));
    NetworkManager::apply_discovery_message(discovery(PEER), ip(3), ME, &mut state, ms(20000));
    assert_eq!(DEVICE_TIMEOUT_NANOS, ms(10000));
    NetworkManager::remove_stale_devices(&mut state, ms(14999));
    assert!(state.devices.get(ip(1)).is_none());
    assert!(state.devices.get(ip(2)).is_some());
    // Seen "in the future": its age counts as zero.
    assert!(state.devices.get(ip(3)).is_some());
    NetworkManager::remove_stale_devices(&mut state, ms(15000));
    assert!(state.devices.get(ip(2)).is_none());
    assert_eq!(state.devices.len(), 1);
}

#[test]
fn cleanup_devices_uses_the_clock() {
    let mut state: NetworkState<u8> = NetworkState::new();
    NetworkManager::apply_discovery_message(discovery(PEER), ip(1), ME, &mut state, ms(0));
    // The state was made a moment ago, so the device is current.
    NetworkManager::cleanup_devices(&mut state);
    assert_eq!(state.devices.len(), 1);
}

#[test]
fn reset_forgets_devices_and_connections() {
    let mut state: NetworkState<u8> = NetworkState::new();
    NetworkManager::apply_discovery_message(discovery(PEER), ip(1), ME, &mut state, ms(1000));
    NetworkManager::connection_established(&mut state, ip(1), 1u8);
    state.hash_tracker.insert(42);
    NetworkManager::reset_for_restart(&mut state);
    assert_eq!(state.devices.len(), 0);
    assert_eq!(state.connections.len(), 0);
    assert!(state.hash_tracker.contains(42));
}

#[test]
fn received_content_is_not_echoed() {
    let mut state: NetworkState<u8> = NetworkState::new();
    let mut monitor = ClipboardMonitor::new();
    assert!(NetworkManager::accept_incoming_clipboard(&mut state.hash_tracker, "from peer"));
    assert!(!monitor.observe(&mut state.hash_tracker, "from peer"));
    // Applying the same content twice does not happen either.
    assert!(!NetworkManager::accept_incoming_clipboard(&mut state.hash_tracker, "from peer"));
}

#[test]
fn sent_content_is_not_reapplied() {
    let mut state: NetworkState<u8> = NetworkState::new();
    let mut monitor = ClipboardMonitor::new();
    assert!(monitor.observe(&mut state.hash_tracker, "copied here"));
    assert!(!monitor.observe(&mut state.hash_tracker, "copied here"));
    assert!(!NetworkManager::accept_incoming_clipboard(&mut state.hash_tracker, "copied here"));
    assert!(monitor.observe(&mut state.hash_tracker, "something else"));
}

#[test]
fn oversized_content_is_neither_sent_nor_applied() {
    assert_eq!(MAX_CONTENT_BYTES, 50 * 1024 * 1024);
    let big = "x".repeat(MAX_CONTENT_BYTES + 1);
    let limit = "y".repeat(MAX_CONTENT_BYTES);
    let mut state: NetworkState<u8> = NetworkState::new();
    assert!(!NetworkManager::accept_incoming_clipboard(&mut state.hash_tracker, &big));
    assert!(NetworkManager::accept_incoming_clipboard(&mut state.hash_tracker, &limit));
    assert!(NetworkManager::outgoing_clipboard_message(ME.to_string(), big).is_none());
    match NetworkManager::outgoing_clipboard_message(ME.to_string(), "hi".to_string()) {
        Some(Message::ClipboardData { device_id, content }) => {
            assert_eq!(device_id, ME);
            assert_eq!(content, "hi");
        }
        other => panic!("unexpected {:?}", other),
    }
}

#[test]
fn pairing_actions() {
    let confirm = NetworkManager::pair_action(ME.to_string(), true);
    assert!(confirm.connect);
    assert!(matches!(confirm.message, Message::PairConfirm { ref device_id } if device_id == ME));
    let request = NetworkManager::pair_action(ME.to_string(), false);
    assert!(!request.connect);
    assert!(matches!(request.message, Message::PairRequest { ref device_id } if device_id == ME));
    let announce = NetworkManager::discovery_announcement(ME.to_string(), 4000);
    assert!(matches!(announce, Message::Discovery { ref device_id, port: 4000 } if device_id == ME));
}

#[test]
fn ports() {
    assert_eq!(NetworkManager::tcp_port(3847), Some(3848));
    assert_eq!(NetworkManager::tcp_port(65534), Some(65535));
    assert_eq!(NetworkManager::tcp_port(65535), None);
    assert!(NetworkManager::check_ports(3847, true, true).is_ok());
    assert!(matches!(NetworkManager::check_ports(3847, false, true), Err(NetworkError::PortInUse(3847))));
    assert!(matches!(NetworkManager::check_ports(3847, false, false), Err(NetworkError::PortInUse(3847))));
    assert!(matches!(NetworkManager::check_ports(3847, true, false), Err(NetworkError::PortInUse(3848))));
    assert!(matches!(NetworkManager::check_ports(65535, true, true), Err(NetworkError::NoDataPort(65535))));
    assert!(matches!(NetworkManager::check_ports(65535, false, false), Err(NetworkError::PortInUse(65535))));
}

#[test]
fn broadcast_addresses_from_interfaces() {
    let interfaces = vec![
        NetInterface { is_loopback: true, ipv4: Some((0x7f00_0001, 0xff00_0000)) },
        NetInterface { is_loopback: false, ipv4: Some((0xc0a8_010a, 0xffff_ff00)) },
        NetInterface { is_loopback: false, ipv4: None },
        NetInterface { is_loopback: false, ipv4: Some((0x0a00_0005, 0xff00_0000)) },
    ];
    assert_eq!(
        NetworkManager::get_broadcast_addresses(&interfaces),
        vec![PeerIp::V4(0xc0a8_01ff), PeerIp::V4(0x0aff_ffff)]
    );
}

#[test]
fn broadcast_falls_back_to_limited_broadcast() {
    assert_eq!(NetworkManager::get_broadcast_addresses(&Vec::new()), vec![PeerIp::V4(0xffff_ffff)]);
    let only_loopback = vec![NetInterface { is_loopback: true, ipv4: Some((0x7f00_0001, 0xff00_0000)) }];
    assert_eq!(NetworkManager::get_broadcast_addresses(&only_loopback), vec![PeerIp::V4(0xffff_ffff)]);
}

#[test]
fn card_click_clears_intentional_mark() {
    let mut state: NetworkState<u8> = NetworkState::new();
    let mut device = Device::new(ip(5), PEER.to_string(), 1000);
    device.intentionally_disconnected = true;
    state.devices.insert(ip(5), device.clone());
    let action = NetworkManager::card_clicked(&mut state, ip(5), &device);
    assert_eq!(action, Some(CardAction::RequestPairing(ip(5))));
    assert!(!state.devices.get(ip(5)).unwrap().intentionally_disconnected);
}

#[test]
fn card_click_per_status() {
    let mut state: NetworkState<u8> = NetworkState::new();
    let mut device = Device::new(ip(5), PEER.to_string(), 1000);
    device.connection_status = ConnectionStatus::Connecting;
    assert_eq!(NetworkManager::card_clicked(&mut state, ip(5), &device), Some(CardAction::ConfirmPairing(ip(5))));
    device.connection_status = ConnectionStatus::Connected;
    assert_eq!(NetworkManager::card_clicked(&mut state, ip(5), &device), Some(CardAction::Disconnect(ip(5))));
    device.connection_status = ConnectionStatus::Reconnecting;
    assert_eq!(NetworkManager::card_clicked(&mut state, ip(5), &device), None);
    assert_eq!(state.devices.len(), 0);
}

#[test]
fn device_new_is_disconnected() {
    let d = Device::new(ip(1), PEER.to_string(), 42);
    assert_eq!(d.ip, ip(1));
    assert_eq!(d.connection_status, ConnectionStatus::Disconnected);
    assert!(!d.intentionally_disconnected);
    assert_eq!(d.device_id, PEER);
    assert_eq!(d.last_seen, 42);
}

#[test]
fn devices_stay_stored_under_their_own_address() {
    let mut state: NetworkState<u8> = NetworkState::new();
    for k in 1..=3 {
        NetworkManager::apply_discovery_message(discovery(PEER), ip(k), ME, &mut state, ms(1000 * k as u64));
    }
    NetworkManager::connection_established(&mut state, ip(2), 2u8);
    NetworkManager::connection_lost(&mut state, ip(2));
    let request = Message::PairRequest { device_id: PEER.to_string() };
    NetworkManager::apply_discovery_message(request, ip(3), ME, &mut state, ms(4000));
    NetworkManager::remove_stale_devices(&mut state, ms(11500));
    for (key, device) in state.devices.entries().iter() {
        assert_eq!(*key, device.ip);
    }
    assert_eq!(state.devices.len(), 2);
}

#[test]
fn user_disconnect_is_not_retried() {
    let mut state: NetworkState<u8> = NetworkState::new();
    NetworkManager::apply_discovery_message(discovery(PEER), ip(1), ME, &mut state, ms(1000));
    NetworkManager::connection_established(&mut state, ip(1), 1u8);
    // The user disconnects; dropping the channel then ends the connection.
    NetworkManager::disconnect_peer(&mut state, ip(1));
    NetworkManager::connection_lost(&mut state, ip(1));
    assert_eq!(status_of(&state, ip(1)), Some(ConnectionStatus::Disconnected));
    assert!(NetworkManager::reconnect_targets(&state).is_empty());
}

#[test]
fn lost_connection_retries_every_device_not_disconnected_by_the_user() {
    let mut state: NetworkState<u8> = NetworkState::new();
    // A peer that connects before it has been discovered.
    NetworkManager::connection_established(&mut state, ip(1), 1u8);
    NetworkManager::apply_discovery_message(discovery(PEER), ip(1), ME, &mut state, ms(1000));
    assert_eq!(status_of(&state, ip(1)), Some(ConnectionStatus::Disconnected));
    NetworkManager::connection_lost(&mut state, ip(1));
    assert_eq!(status_of(&state, ip(1)), Some(ConnectionStatus::Reconnecting));
    // A device that asked to pair.
    NetworkManager::apply_discovery_message(discovery(PEER), ip(2), ME, &mut state, ms(1000));
    let request = Message::PairRequest { device_id: PEER.to_string() };
    NetworkManager::apply_discovery_message(request, ip(2), ME, &mut state, ms(1000));
    NetworkManager::connection_lost(&mut state, ip(2));
    assert_eq!(status_of(&state, ip(2)), Some(ConnectionStatus::Reconnecting));
    // An unknown peer leaves nothing behind.
    NetworkManager::connection_lost(&mut state, ip(3));
    assert!(state.devices.get(ip(3)).is_none());
    let mut targets = NetworkManager::reconnect_targets(&state);
    targets.sort_by_key(|p| match p {
        PeerIp::V4(v) => *v as u128,
        PeerIp::V6(v) => *v,
    });
    assert_eq!(targets, vec![ip(1), ip(2)]);
}

#[test]
fn reconnecting_after_user_disconnect_clears_the_mark() {
    let mut state: NetworkState<u8> = NetworkState::new();
    NetworkManager::apply_discovery_message(discovery(PEER), ip(1), ME, &mut state, ms(1000));
    NetworkManager::connection_established(&mut state, ip(1), 1u8);
    NetworkManager::disconnect_peer(&mut state, ip(1));
    assert!(state.devices.get(ip(1)).unwrap().intentionally_disconnected);
    NetworkManager::connection_established(&mut state, ip(1), 2u8);
    assert!(!state.devices.get(ip(1)).unwrap().intentionally_disconnected);
    NetworkManager::connection_lost(&mut state, ip(1));
    assert_eq!(status_of(&state, ip(1)), Some(ConnectionStatus::Reconnecting));
}

#[test]
fn error_messages() {
    assert_eq!(NetworkError::PortInUse(3847).message(), "Port 3847 is already in use");
    assert_eq!(NetworkError::PortInUse(0).message(), "Port 0 is already in use");
    assert_eq!(NetworkError::BindError("denied".to_string()).message(), "Network bind error: denied");
    assert_eq!(
        NetworkError::NoDataPort(65535).message(),
        "Port 65535 leaves no port for clipboard data"
    );
}

#[test]
fn intervals() {
    assert_eq!(DISCOVERY_INTERVAL_MS, 1000);
    assert_eq!(CLIPBOARD_POLL_INTERVAL_MS, 250);
    assert_eq!(RECONNECT_INTERVAL_MS, 3000);
    assert_eq!(CLEANUP_INTERVAL_MS, 5000);
    assert_eq!(CLIPBOARD_APPLY_PAUSE_MS, 50);
}
