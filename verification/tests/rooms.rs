use holograph_server::catalogue::wall_position_ok;
use holograph_server::rooms::{refresh_wallitem_packet, room_state_id, room_state_name, should_decrement_swim_ticket};

#[test]
fn preserves_unlimited_swim_ticket_value() {
    assert!(!should_decrement_swim_ticket(33_333));
    assert!(should_decrement_swim_ticket(2));
    assert!(should_decrement_swim_ticket(0));
}

#[test]
fn room_states_round_trip() {
    for name in ["open", "closed", "password"] {
        assert_eq!(room_state_name(room_state_id(name)), name);
    }
}

use holograph_server::rooms::{
    flat_control_status, floor_placement, game_points_packet, group_badge_packet, placement_item,
    room_entry_admitted, sticky_pad_stays, teleporter_arrival_due, wall_placement,
};

#[test]
fn reads_placement_requests() {
    let packet = "AZ123 :w=1,2 l=3,4 r";
    assert_eq!(placement_item(packet, 5, false, true), Some(123));
    assert_eq!(placement_item(packet, 5, true, true), None);
    assert_eq!(placement_item(packet, 5, false, false), None);
    assert_eq!(placement_item(packet, 0, false, true), None);
    assert_eq!(placement_item("AZx 1", 5, false, true), None);
    assert_eq!(wall_placement(packet, 123), Some(":w=1,2 l=3,4 r".to_string()));
    assert_eq!(wall_placement("AZ123 :w=01,2 l=3,4 r", 123), None);
    assert_eq!(wall_placement("AZ123 :w=1,2 l=3,4 x", 123), None);
    assert_eq!(floor_placement("AZ45 3 4 0"), Some((3, 4, 0)));
    assert_eq!(floor_placement("AZ45 3 x 0"), None);
    assert_eq!(floor_placement("AZ45 3"), None);
}

#[test]
fn sticky_pads_run_out() {
    assert!(sticky_pad_stays("5"));
    assert!(!sticky_pad_stays("1"));
    assert!(!sticky_pad_stays("abc"));
}

#[test]
fn decides_room_entry() {
    assert!(room_entry_admitted(5, true, false, 9));
    assert!(room_entry_admitted(5, true, true, 0));
    assert!(!room_entry_admitted(5, true, false, 0));
    assert!(!room_entry_admitted(5, false, true, 0));
    assert!(!room_entry_admitted(0, true, true, 0));
    assert_eq!(flat_control_status(false, true, false), Some("onlyfurniture"));
    assert_eq!(flat_control_status(false, true, true), Some("useradmin"));
    assert_eq!(flat_control_status(false, false, false), None);
    assert_eq!(flat_control_status(true, true, true), None);
    assert!(teleporter_arrival_due(3, 5, 5));
    assert!(!teleporter_arrival_due(0, 5, 5));
    assert!(!teleporter_arrival_due(3, 4, 5));
}

#[test]
fn formats_room_entry_packets() {
    assert_eq!(group_badge_packet(4, "ABC"), Some("DuIPAABC\u{2}".to_string()));
    assert_eq!(group_badge_packet(4, ""), None);
    assert_eq!(game_points_packet(1, 250, "Pro"), "CzII250Pro\u{2}");
}

use holograph_server::rooms::{
    door_check, room_entry_request, teleport_away_packet, teleport_flash_packet, teleport_trip, DoorRefusal, TeleportTrip,
};

fn row(cells: &[&str]) -> Vec<String> {
    cells.iter().map(|c| c.to_string()).collect()
}

#[test]
fn reads_room_entry_requests() {
    assert_eq!(room_entry_request("@BAPA"), Some((true, 4)));
    assert_eq!(room_entry_request("@BBI"), Some((false, 1)));
    assert_eq!(room_entry_request("@B"), None);
    assert_eq!(room_entry_request("@BAH"), None);
}

#[test]
fn checks_room_doors() {
    assert_eq!(door_check(&row(&["3", "0", "10"]), false, false, false), Some(DoorRefusal::ClubOnly));
    assert_eq!(door_check(&row(&["3", "0", "10"]), true, false, false), None);
    assert_eq!(door_check(&row(&["3", "0", "10"]), false, true, false), None);
    assert_eq!(door_check(&row(&["4", "0", "10"]), true, false, false), Some(DoorRefusal::StaffOnly));
    assert_eq!(door_check(&row(&["4", "0", "10"]), false, true, false), None);
    assert_eq!(door_check(&row(&["0", "10", "10"]), false, false, false), Some(DoorRefusal::Full));
    assert_eq!(door_check(&row(&["0", "10", "10"]), false, false, true), None);
    assert_eq!(door_check(&row(&["x", "5", "10"]), false, false, false), None);
    assert_eq!(door_check(&row(&["0"]), false, false, false), None);
}

#[test]
fn follows_teleporters() {
    assert_eq!(teleport_trip(5, 0), TeleportTrip::Nowhere);
    assert_eq!(teleport_trip(5, 5), TeleportTrip::SameRoom);
    assert_eq!(teleport_trip(5, 6), TeleportTrip::OtherRoom);
    assert_eq!(teleport_away_packet(4, 6), "@~PARA");
    assert_eq!(teleport_flash_packet(12, "bob", "door"), "AY12/bob/door");
}

use holograph_server::rooms::{dice_face, dice_in_reach, dice_packet, whisper_parts};

#[test]
fn rolls_dice_next_to_user() {
    assert!(dice_in_reach(3, 3, 4, 4));
    assert!(dice_in_reach(3, 3, 3, 3));
    assert!(!dice_in_reach(3, 3, 5, 3));
    assert_eq!(dice_face(1234), 5);
    assert_eq!(dice_face(0), 1);
    assert_eq!(dice_packet(10, None), "AZ10");
    assert_eq!(dice_packet(10, Some(3)), "AZ10 383");
    assert_eq!(dice_packet(10, Some(0)), "AZ10 380");
}

#[test]
fn splits_whispers() {
    assert_eq!(whisper_parts("@x@Kbob hello"), ("bob".to_string(), "hello".to_string()));
    assert_eq!(whisper_parts("@x@K :cmd"), ("".to_string(), ":cmd".to_string()));
    assert_eq!(whisper_parts("@x"), ("".to_string(), "".to_string()));
}

use holograph_server::rooms::{room_score_packet, room_vote_value};

#[test]
fn reads_room_votes() {
    assert_eq!(room_vote_value("DEI"), Some(1));
    assert_eq!(room_vote_value("DEM"), Some(-1));
    assert_eq!(room_vote_value("DEJ"), None);
    assert_eq!(room_vote_value("DE"), None);
    assert_eq!(room_score_packet(-3), "EYH");
    assert_eq!(room_score_packet(4), "EYPA");
}

#[test]
fn checked_wall_positions_check_the_same_again() {
    for raw in [":w=007,3 l=10,020 r", ":w=1,2 l=3,4 l", ":w=1,2 l=3,400 l", "bad", ":w=+5,2 l=3,4 r"] {
        let once = holograph_server::catalogue::wall_position_ok(raw);
        assert_eq!(holograph_server::catalogue::wall_position_ok(&once), once);
    }
    assert_eq!(holograph_server::catalogue::wall_position_ok(":w=007,3 l=10,020 r"), ":w=7,3 l=10,20 r");
}
