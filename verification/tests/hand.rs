use holograph_server::catalogue::present_reveal_packet;
use holograph_server::hand::{hand_packet, HandItem};
use holograph_server::session::{packet_decimal, packet_vl64};

fn item(id: i64, type_id: u8, sprite: &str, colour: &str, length: i64, width: i64, var: &str, recycleable: bool) -> HandItem {
    HandItem {
        id,
        type_id,
        sprite: sprite.to_string(),
        colour: colour.to_string(),
        length,
        width,
        var: var.to_string(),
        recycleable,
    }
}

#[test]
fn formats_wall_items_in_hand() {
    let items = vec![item(5, 0, "poster", "0", 0, 0, "", false)];
    assert_eq!(hand_packet(&items, 0, 1), "BLSI\u{1e}5\u{1e}0\u{1e}I\u{1e}5\u{1e}poster\u{1e}0\u{1e}0/\r1");
    let sticky = vec![item(6, 0, "post.it", "x", 0, 0, "FFFF33", false)];
    assert_eq!(hand_packet(&sticky, 3, 4), "BLSI\u{1e}6\u{1e}3\u{1e}I\u{1e}6\u{1e}post.it\u{1e}FFFF33\u{1e}0/\r4");
}

#[test]
fn formats_floor_items_in_hand() {
    let items = vec![item(7, 1, "chair", "0,0,0", 1, 2, "", true)];
    assert_eq!(
        hand_packet(&items, 9, 12),
        "BLSI\u{1e}7\u{1e}9\u{1e}S\u{1e}7\u{1e}chair\u{1e}1\u{1e}2\u{1e}\u{1e}0,0,0\u{1e}1\u{1e}chair\u{1e}/\r12"
    );
}

#[test]
fn formats_empty_hand() {
    assert_eq!(hand_packet(&vec![], 0, 0), "BL\r0");
}

#[test]
fn reads_request_numbers() {
    assert_eq!(packet_decimal("AN 42 "), Some(42));
    assert_eq!(packet_decimal("AN-7"), Some(-7));
    assert_eq!(packet_decimal("ANx"), None);
    assert_eq!(packet_decimal("A"), None);
    assert_eq!(packet_vl64("AaPA"), Some(4));
    assert_eq!(packet_vl64("Aa"), None);
}

#[test]
fn reveals_presents() {
    assert_eq!(present_reveal_packet("chair", 1, 1, 2, "0,0,0"), "BAchair\rchair\r1\u{1e}2\u{1e}0,0,0");
    assert_eq!(present_reveal_packet("poster", 0, 0, 0, "7"), "BAposter\rposter 7\r");
}
