use clipsync::ident::{SessionConfig, DEFAULT_PORT};
use clipsync::types::{ConnectionStatus, NetworkStatus};
use clipsync::ui::{
    card_action, device_card, scanning_dots, short_device_id, tab_look, ButtonKind, CurrentTab, Indicator, StatusBoard,
    StatusTone, TabLook,
};
use clipsync::types::PeerIp;
use clipsync::ui::CardAction;

#[test]
fn status_board_follows_network_status() {
    let mut board = StatusBoard::new();
    assert_eq!(board.status_message, "Initializing network...");
    assert_eq!(board.indicator(), Indicator::Pending);
    board.networking_starting();
    assert_eq!(board.status_message, "Starting network...");
    board.apply(NetworkStatus::Started("Listening".to_string()));
    assert!(board.networking_active);
    assert_eq!(board.status_message, "Listening");
    assert_eq!(board.indicator(), Indicator::Active);
    board.apply(NetworkStatus::StatusUpdate("Still here".to_string()));
    assert!(board.networking_active);
    assert_eq!(board.status_message, "Still here");
    board.apply(NetworkStatus::Error("Port 3847 is already in use".to_string()));
    assert!(!board.networking_active);
    assert_eq!(board.status_message, "Network error");
    assert_eq!(board.error_message.as_deref(), Some("Port 3847 is already in use"));
    assert_eq!(board.indicator(), Indicator::Failed);
    board.dismiss_error();
    assert_eq!(board.error_message, None);
    assert_eq!(board.indicator(), Indicator::Pending);
    board.apply(NetworkStatus::Error("x".to_string()));
    board.networking_restarting();
    assert!(!board.networking_active);
    assert_eq!(board.error_message, None);
    assert_eq!(board.status_message, "Restarting network...");
}

#[test]
fn device_cards() {
    let c = device_card(ConnectionStatus::Disconnected, false);
    assert_eq!((c.status_text, c.button_text, c.button, c.button_enabled), ("DISCONNECTED", "Connect", ButtonKind::Primary, true));
    assert_eq!(c.tone, StatusTone::Muted);
    let c = device_card(ConnectionStatus::Disconnected, true);
    assert_eq!(c.button_text, "Reconnect");
    let c = device_card(ConnectionStatus::Connecting, false);
    assert_eq!((c.status_text, c.button_text, c.button, c.tone), ("PENDING", "Accept", ButtonKind::Success, StatusTone::Warning));
    let c = device_card(ConnectionStatus::Connected, false);
    assert_eq!((c.status_text, c.button_text, c.button, c.tone), ("CONNECTED", "Disconnect", ButtonKind::Error, StatusTone::Success));
    let c = device_card(ConnectionStatus::Reconnecting, true);
    assert_eq!((c.status_text, c.button_text, c.button_enabled, c.tone), ("CONNECTING", "", false, StatusTone::Info));
}

#[test]
fn card_actions() {
    let p = PeerIp::V4(1);
    assert_eq!(card_action(ConnectionStatus::Disconnected, p), Some(CardAction::RequestPairing(p)));
    assert_eq!(card_action(ConnectionStatus::Connecting, p), Some(CardAction::ConfirmPairing(p)));
    assert_eq!(card_action(ConnectionStatus::Connected, p), Some(CardAction::Disconnect(p)));
    assert_eq!(card_action(ConnectionStatus::Reconnecting, p), None);
}

#[test]
fn scanning_dots_cycle() {
    assert_eq!(scanning_dots(0), "");
    assert_eq!(scanning_dots(1), ".");
    assert_eq!(scanning_dots(2), "..");
    assert_eq!(scanning_dots(3), "...");
    assert_eq!(scanning_dots(4), "");
    assert_eq!(scanning_dots(u64::MAX), "...");
}

#[test]
fn tab_looks() {
    assert_eq!(tab_look(CurrentTab::Devices, CurrentTab::Devices, true), TabLook::Selected);
    assert_eq!(tab_look(CurrentTab::Settings, CurrentTab::Devices, true), TabLook::Hovered);
    assert_eq!(tab_look(CurrentTab::Settings, CurrentTab::Devices, false), TabLook::Plain);
}

#[test]
fn session_config_has_random_uuid_identifier() {
    let config = SessionConfig::new();
    let id = config.device_id().clone();
    assert_eq!(id.len(), 36);
    for (i, c) in id.chars().enumerate() {
        if [8, 13, 18, 23].contains(&i) {
            assert_eq!(c, '-');
        } else {
            assert!(c.is_ascii_hexdigit() && !c.is_ascii_uppercase());
        }
    }
    assert_eq!(id.chars().nth(14), Some('4'));
    assert!(matches!(id.chars().nth(19), Some('8' | '9' | 'a' | 'b')));
    assert_eq!(config.short_id(), &id[..8]);
    assert_eq!(config.port(), DEFAULT_PORT);
    assert_eq!(config.new_port(), 3847);
    assert_ne!(SessionConfig::new().device_id(), &id);
}

#[test]
fn session_config_ports() {
    let mut config = SessionConfig::new();
    assert!(!config.commit_port_change());
    config.set_new_port(5000);
    assert_eq!(config.port(), 3847);
    assert!(config.commit_port_change());
    assert_eq!(config.port(), 5000);
    assert!(!config.commit_port_change());
    assert!(config.advance_port());
    assert_eq!(config.port(), 5001);
    assert_eq!(config.new_port(), 5001);
    config.set_new_port(65534);
    assert!(config.advance_port());
    assert_eq!(config.port(), 65535);
    assert!(!config.advance_port());
    assert_eq!(config.port(), 65535);
    assert_eq!(config.new_port(), 65535);
}

#[test]
fn short_device_ids() {
    assert_eq!(short_device_id("abcdef0123456789"), "abcdef01");
    assert_eq!(short_device_id("abc"), "abc");
    assert_eq!(short_device_id(""), "");
    // Eight bytes: four two-byte characters.
    assert_eq!(short_device_id("ééééééééé"), "éééé");
    // A three-byte character across byte 8 is left out whole.
    assert_eq!(short_device_id("abcdefg€xyz"), "abcdefg");
}
