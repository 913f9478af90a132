use holograph_server::trades::{trade_boxes_packet, trade_item_list, TradeBook, TradeItem};

fn open_book() -> TradeBook {
    let mut book = TradeBook::new();
    assert!(book.start(1, 10, 2, 20, false));
    book
}

#[test]
fn start_pairs_both_users() {
    let book = open_book();
    let a = book.get(1).unwrap();
    assert_eq!(a.partner_user_id, 2);
    assert_eq!(a.partner_room_uid, 20);
    assert!(!a.accepted);
    assert!(a.item_ids.is_empty());
    let b = book.get(2).unwrap();
    assert_eq!(b.partner_user_id, 1);
    assert_eq!(b.partner_room_uid, 10);
}

#[test]
fn start_refused_when_trading_self_or_busy() {
    let mut book = open_book();
    assert!(!book.start(1, 10, 3, 30, false));
    assert!(!book.start(5, 50, 5, 50, false));
    assert!(!book.start(6, 60, 7, 70, true));
    assert!(book.get(5).is_none());
    assert!(book.get(6).is_none());
    assert_eq!(book.get(1).unwrap().partner_user_id, 2);
}

#[test]
fn offer_adds_items_once_and_withdraws_acceptance() {
    let mut book = open_book();
    assert!(book.accept(2).is_none());
    assert!(book.get(2).unwrap().accepted);
    assert!(book.offer(1, 100));
    assert!(!book.get(2).unwrap().accepted);
    assert!(!book.offer(1, 100));
    assert!(!book.offer(1, 0));
    assert!(!book.offer(9, 100));
    assert_eq!(book.get(1).unwrap().item_ids, vec![100]);
}

#[test]
fn offer_stops_at_the_limit() {
    let mut book = open_book();
    for item in 1..=65 {
        assert!(book.offer(1, item));
    }
    assert!(!book.offer(1, 66));
    assert_eq!(book.get(1).unwrap().item_ids.len(), 65);
}

#[test]
fn second_accept_completes_the_trade() {
    let mut book = open_book();
    assert!(book.offer(1, 100));
    assert!(book.offer(2, 200));
    assert!(book.offer(2, 201));
    assert!(book.accept(1).is_none());
    let (mine, theirs) = book.accept(2).unwrap();
    assert_eq!(mine, vec![200, 201]);
    assert_eq!(theirs, vec![100]);
}

#[test]
fn decline_withdraws_both_acceptances() {
    let mut book = open_book();
    assert!(book.accept(1).is_none());
    book.decline(2);
    assert!(!book.get(1).unwrap().accepted);
    assert!(!book.get(2).unwrap().accepted);
    assert!(book.accept(2).is_none());
}

#[test]
fn abort_removes_both_sides() {
    let mut book = open_book();
    assert_eq!(book.abort(2), Some(1));
    assert!(book.get(1).is_none());
    assert!(book.get(2).is_none());
    assert_eq!(book.abort(2), None);
}

#[test]
fn partner_outside_a_room_blocks_accepting() {
    let mut book = TradeBook::new();
    assert!(book.start(1, -1, 2, -1, false));
    assert!(book.accept(1).is_none());
    assert!(!book.get(1).unwrap().accepted);
    assert!(!book.offer(1, 5));
}

#[test]
fn trade_item_list_formats_floor_and_wall_items() {
    let items = vec![
        TradeItem {
            item_id: 7,
            type_id: 1,
            sprite: "chair".to_string(),
            length: 1,
            width: 2,
            var: "0".to_string(),
            colour: "#fff".to_string(),
        },
        TradeItem {
            item_id: 0,
            type_id: 0,
            sprite: String::new(),
            length: 0,
            width: 0,
            var: String::new(),
            colour: String::new(),
        },
        TradeItem {
            item_id: 9,
            type_id: 0,
            sprite: "poster".to_string(),
            length: 0,
            width: 0,
            var: "x".to_string(),
            colour: "3".to_string(),
        },
    ];
    assert_eq!(
        trade_item_list(&items),
        "SI7\u{1e}0\u{1e}S\u{1e}7\u{1e}chair\u{1e}1\u{1e}2\u{1e}0\u{1e}#fff\u{1e}0\u{1e}/\
         SI9\u{1e}2\u{1e}I\u{1e}9\u{1e}poster\u{1e}3\u{1e}2\u{1e}/"
    );
    assert_eq!(trade_item_list(&[]), "");
}

#[test]
fn trade_boxes_packet_lists_both_sides() {
    assert_eq!(
        trade_boxes_packet("alice", true, "ITEMS", "bob", false, ""),
        "Alalice\ttrue\tITEMS\rbob\tfalse\t"
    );
}
