use holograph_server::bots::{closest_walk_coord_to, seeded_index, ChatTrigger};

fn words(ws: &[&str]) -> Vec<String> {
    ws.iter().map(|w| w.to_string()).collect()
}

#[test]
fn triggers_on_words_without_case_or_question_marks() {
    let t = ChatTrigger { words: words(&["hello", "beer"]), replies: words(&["a", "b", "c"]), serve_replies: vec![], serve_item: String::new() };
    assert!(t.contains_word("Hello??"));
    assert!(t.contains_word("BEER"));
    assert!(!t.contains_word("hi"));
    assert_eq!(t.reply(4), "b");
    assert_eq!(t.serve_reply(4), "");
}

#[test]
fn walks_to_nearest_spot() {
    assert_eq!(closest_walk_coord_to(&vec![(5, 5), (1, 2), (2, 1)], 0, 0), Some((1, 2)));
    assert_eq!(closest_walk_coord_to(&vec![(-1, 0), (4, 4)], 0, 0), None);
    assert_eq!(closest_walk_coord_to(&vec![], 0, 0), None);
}

#[test]
fn seeds_bot_choices() {
    assert_eq!(seeded_index(3, 7, 5, 11), 3);
    assert_eq!(seeded_index(3, 7, 0, 11), 0);
    assert!(seeded_index(-9, 1 << 40, 7, u64::MAX) < 7);
}
