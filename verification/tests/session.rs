use holograph_server::session::{
    collect_current_badges, format_teleporter_arrival_packet, game_ticket_offer, has_local_room_state_for_test,
    ip_matches_legacy_ticket_ip, is_known_speech_command_name, is_user_at_teleporter_entrance, is_user_on_teleporter,
    parse_swim_outfit_selection, should_reconcile_room_state, speech_command_name,
};

/// Whether the standard library's address parser reads the text as a
/// loopback address, for the texts these tests use.
fn loopback(text: &str) -> bool {
    matches!(text, "::1" | "127.0.0.1")
}

fn ticket_ip_matches(expected: &str, actual: &str) -> bool {
    ip_matches_legacy_ticket_ip(expected, actual, loopback(expected), loopback(actual))
}

#[test]
fn recognizes_known_speech_commands() {
    assert_eq!(speech_command_name("roomalert hello there").as_deref(), Some("roomalert"));
    assert!(is_known_speech_command_name("roomalert"));
    assert!(is_known_speech_command_name("refreshhotel"));
    assert!(is_known_speech_command_name("teleport"));
    assert!(is_known_speech_command_name("givebadge"));
    assert!(is_known_speech_command_name("warp"));
    assert!(!is_known_speech_command_name("dive-off"));
}

#[test]
fn ignores_blank_speech_command_input() {
    assert_eq!(speech_command_name(""), None);
    assert_eq!(speech_command_name("   "), None);
}

#[test]
fn allows_clearing_swim_outfit_back_to_normal_clothes() {
    assert_eq!(parse_swim_outfit_selection("At"), "");
}

#[test]
fn detects_when_local_room_state_needs_reconciliation() {
    assert!(has_local_room_state_for_test(1, None, false, false, false, false, false));
    assert!(has_local_room_state_for_test(0, Some(5), false, false, false, false, false));
    assert!(!has_local_room_state_for_test(0, None, false, false, false, false, false));
}

#[test]
fn preserves_pending_room_entry_until_room_uid_exists() {
    assert!(!should_reconcile_room_state(None, false, 0));
}

#[test]
fn reconciles_only_attached_room_state_when_online_user_is_not_in_room() {
    assert!(should_reconcile_room_state(Some(5), false, 0));
    assert!(!should_reconcile_room_state(Some(5), true, 0));
    assert!(!should_reconcile_room_state(Some(5), false, 12));
}

#[test]
fn accepts_ipv4_and_ipv6_loopback_for_legacy_ticket_ip_check() {
    assert!(ticket_ip_matches("::1", "127.0.0.1"));
    assert!(ticket_ip_matches("127.0.0.1", "::1"));
    assert!(ticket_ip_matches("localhost", "::1"));
    assert!(!ticket_ip_matches("192.168.1.4", "::1"));
}

#[test]
fn maps_enabled_badges_into_current_badge_slots() {
    let badges = vec!["ACH_ONE".to_string(), "ACH_TWO".to_string(), "ACH_THREE".to_string()];
    let slot_ids = vec![0, 3, 1];
    let current_badges = collect_current_badges(&badges, &slot_ids);

    assert_eq!(current_badges[0], "ACH_THREE");
    assert_eq!(current_badges[2], "ACH_TWO");
    assert!(current_badges[1].is_empty());
}

#[test]
fn requires_exact_teleporter_tiles_and_entrances() {
    assert!(is_user_on_teleporter(4, 7, 4, 7));
    assert!(!is_user_on_teleporter(4, 8, 4, 7));
    assert!(!is_user_on_teleporter(5, 7, 4, 7));

    assert!(is_user_at_teleporter_entrance(5, 7, 4, 7, 2));
    assert!(!is_user_at_teleporter_entrance(5, 8, 4, 7, 2));
    assert!(is_user_at_teleporter_entrance(4, 8, 4, 7, 4));
    assert!(!is_user_at_teleporter_entrance(5, 8, 4, 7, 4));
}

#[test]
fn teleporter_arrival_packet_uses_sprite_payload() {
    assert_eq!(format_teleporter_arrival_packet(42, "Jamie", "teleport_door"), "A\\42/Jamie/teleport_door");
}

#[test]
fn maps_legacy_game_ticket_offers() {
    assert_eq!(game_ticket_offer(1), Some((2, 1)));
    assert_eq!(game_ticket_offer(2), Some((20, 6)));
    assert_eq!(game_ticket_offer(3), None);
}

use holograph_server::session::{command_right, hand_page_window, is_legacy_teleporter_sprite};

#[test]
fn pages_through_hand() {
    assert_eq!(hand_page_window("next", 0, 20), (1, 9, 18));
    assert_eq!(hand_page_window("last", 0, 20), (2, 18, 20));
    assert_eq!(hand_page_window("next", 2, 20), (2, 18, 20));
    assert_eq!(hand_page_window("new", 5, 0), (0, 0, 0));
    assert_eq!(hand_page_window("prev", 0, 5), (-1, 0, 5));
    assert_eq!(hand_page_window("update", 1, 12), (1, 9, 12));
}

#[test]
fn names_command_rights() {
    assert_eq!(command_right("kick").as_deref(), Some("fuse_kick"));
    assert_eq!(command_right("ra").as_deref(), Some("fuse_alert"));
    assert_eq!(command_right("coins").as_deref(), Some("fuse_administrator_access"));
    assert_eq!(command_right("warp").as_deref(), Some("fuse_moderator_access"));
    assert_eq!(command_right("emptyhand"), None);
}

#[test]
fn knows_teleporter_sprites() {
    assert!(is_legacy_teleporter_sprite("doorB"));
    assert!(is_legacy_teleporter_sprite("ads_cltele"));
    assert!(!is_legacy_teleporter_sprite("door2"));
}

#[test]
fn hand_paging_stays_in_range() {
    assert!(holograph_server::session::hand_page_fits("next", 0, 20));
    assert!(!holograph_server::session::hand_page_fits("next", i32::MAX, 20));
    assert!(!holograph_server::session::hand_page_fits("prev", i32::MIN, 20));
    assert!(!holograph_server::session::hand_page_fits("update", i32::MAX / 9 + 1, 20));
    assert!(holograph_server::session::hand_page_fits("new", i32::MAX, 20));
}
