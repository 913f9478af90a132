use holograph_server::badges::{badge_notify_packet, parse_badge_choices};

#[test]
fn reads_badge_choices() {
    let choices = parse_badge_choices("B^I@CACHJ@@K@BHC");
    assert_eq!(choices, vec![(1, "ACH".to_string()), (3, "HC".to_string())]);
}

#[test]
fn stops_at_truncated_badge() {
    assert_eq!(parse_badge_choices("B^I@CAC"), vec![]);
    assert_eq!(parse_badge_choices("B^"), vec![]);
}

#[test]
fn tells_room_about_worn_badges() {
    let rows = vec![
        vec!["ACH".to_string(), "1".to_string()],
        vec!["X".to_string(), "0".to_string()],
        vec!["HC".to_string(), "3".to_string()],
        vec!["short".to_string()],
    ];
    assert_eq!(badge_notify_packet(7, 2, &rows), "7\u{2}JIACH\u{2}KHC\u{2}");
}
