use holograph_server::events::{get_event, get_events, EventRow};

fn row(room_id: i64, host: Option<&str>) -> EventRow {
    EventRow {
        room_id,
        host: host.map(|h| h.to_string()),
        name: "n".to_string(),
        description: "d".to_string(),
        date: "dt".to_string(),
    }
}

#[test]
fn events_list_skips_offline_hosts() {
    let rows = vec![row(7, Some("al")), row(8, None), row(9, Some("bo"))];
    assert_eq!(
        get_events(&rows),
        "J7\u{2}al\u{2}n\u{2}d\u{2}dt\u{2}9\u{2}bo\u{2}n\u{2}d\u{2}dt\u{2}"
    );
    assert_eq!(get_events(&[row(1, None)]), "H");
}

#[test]
fn event_details_encode_the_category() {
    assert_eq!(
        get_event(3, "al", "7", "1", "n", "d", "dt"),
        "3\u{2}al\u{2}7\u{2}In\u{2}d\u{2}dt\u{2}"
    );
    assert_eq!(
        get_event(3, "al", "7", "x", "n", "d", "dt"),
        "3\u{2}al\u{2}7\u{2}Hn\u{2}d\u{2}dt\u{2}"
    );
}
