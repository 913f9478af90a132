use holograph_server::polls::{chosen_answer_ids, take_vl64, text_answer};

#[test]
fn reads_poll_and_question() {
    let body = "QAJJIK";
    let (poll, rest) = take_vl64(body).unwrap();
    assert_eq!(poll, 5);
    let (question, rest) = take_vl64(rest).unwrap();
    assert_eq!(question, 2);
    assert_eq!(chosen_answer_ids(rest), vec![1, 3]);
    assert_eq!(take_vl64(""), None);
    assert_eq!(take_vl64("@"), None);
}

#[test]
fn stops_at_missing_answers() {
    assert_eq!(chosen_answer_ids("KI"), vec![1]);
    assert_eq!(chosen_answer_ids("H"), Vec::<i32>::new());
    assert_eq!(chosen_answer_ids("M"), Vec::<i32>::new());
    assert_eq!(chosen_answer_ids(""), Vec::<i32>::new());
}

#[test]
fn reads_written_answers() {
    assert_eq!(text_answer("@Chi!xyz"), Some("hi!".to_string()));
    assert_eq!(text_answer("@Dit's"), Some("it\\'s".to_string()));
    assert_eq!(text_answer("@Ehi"), None);
    assert_eq!(text_answer(""), None);
}

use holograph_server::polls::{poll_packet, PollQuestion};

fn strings(cells: &[&str]) -> Vec<String> {
    cells.iter().map(|c| c.to_string()).collect()
}

#[test]
fn shows_room_poll() {
    let questions = vec![
        PollQuestion { row: strings(&["11", "Q1", "1", "0", "2"]), answers: strings(&["A", "B"]) },
        PollQuestion { row: strings(&["x"]), answers: vec![] },
        PollQuestion { row: strings(&["12", "Q2", "2", "1", "1"]), answers: vec![] },
    ];
    assert_eq!(
        poll_packet(&strings(&["5", "Title", "Thanks"]), &questions),
        "D}QATitle\u{2}Thanks\u{2}KSBIIQ1\u{2}JHJA\u{2}B\u{2}PCKJQ2\u{2}HII"
    );
    assert_eq!(poll_packet(&strings(&["5", "Title"]), &questions), "");
}
