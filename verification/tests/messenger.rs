use std::collections::HashMap;

use holograph_server::messenger::{
    build_updates_packet, buddy_added_packet, get_user_friend_ids, buddy_removed_packet, friend_list, friend_requests,
    to_legacy_string, Buddy, FriendRequest,
};

fn buddy(user_id: i64, name: &str, online: bool, in_room: bool, figure: &str) -> Buddy {
    Buddy { user_id, name: name.to_string(), online, in_room, figure: figure.to_string() }
}

#[test]
fn buddy_text_shows_presence() {
    assert_eq!(to_legacy_string(&buddy(5, "al", true, true, "fig"), true), "QAal\u{2}IIIfig\u{2}H");
    assert_eq!(to_legacy_string(&buddy(5, "al", true, false, "fig"), false), "QAIIHfig\u{2}H");
    assert_eq!(to_legacy_string(&buddy(2, "bo", false, true, "fig"), true), "Jbo\u{2}IHH\u{2}H");
}

#[test]
fn friend_list_frames_the_buddies() {
    let list = friend_list(&[buddy(5, "al", true, true, "fig")]);
    assert_eq!(list, "PrPrXVBHIQAal\u{2}IIIfig\u{2}HPrH");
    assert_eq!(friend_list(&[]), "PrPrXVBHHPrH");
}

#[test]
fn friend_requests_count_twice() {
    let requests = vec![FriendRequest { request_id: 1, from_user_id: 7, from_name: "al".to_string() }];
    assert_eq!(friend_requests(&requests), "IIIal\u{2}7\u{2}");
    assert_eq!(friend_requests(&[]), "HH");
}

#[test]
fn buddy_notifications() {
    assert_eq!(buddy_added_packet(&buddy(5, "al", true, true, "fig")), "@MHIIQAal\u{2}IIIfig\u{2}H");
    assert_eq!(buddy_removed_packet(5), "@MHIMQA");
}

#[test]
fn presence_updates_report_only_changes() {
    let mut presence = HashMap::new();
    let buddies = vec![buddy(5, "al", true, true, "fig"), buddy(2, "bo", false, false, "f2")];
    assert_eq!(
        build_updates_packet(&mut presence, &buddies),
        "HJHQAIIIfig\u{2}HHJIHH\u{2}H"
    );
    assert_eq!(build_updates_packet(&mut presence, &buddies), "HH");
    let moved = vec![buddy(5, "al", true, true, "fig"), buddy(2, "bo", true, false, "f2")];
    assert_eq!(build_updates_packet(&mut presence, &moved), "HIHJIIHf2\u{2}H");
    assert_eq!(presence.get(&2), Some(&(true, false)));
}

#[test]
fn friend_ids_merge_both_directions_once() {
    assert_eq!(get_user_friend_ids(&[3, 5], &[5, 9, 9, 1]), vec![3, 5, 9, 1]);
    assert_eq!(get_user_friend_ids(&[], &[]), Vec::<i64>::new());
}
