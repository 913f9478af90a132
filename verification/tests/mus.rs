use holograph_server::mus::{mus_command, parse_user_id, split_mus_packet, MusCommand};

#[test]
fn splits_header_and_parts() {
    let p = split_mus_packet(b"HKTM12\x02hello").unwrap();
    assert_eq!(p.header, "HKTM");
    assert_eq!(p.parts, vec!["12".to_string(), "hello".to_string()]);
    assert!(split_mus_packet(b"HKT").is_none());
}

#[test]
fn user_id_defaults_to_zero() {
    assert_eq!(parse_user_id(&["42".to_string()]), 42);
    assert_eq!(parse_user_id(&["x".to_string()]), 0);
    assert_eq!(parse_user_id(&[]), 0);
}

#[test]
fn commands_by_header() {
    let parts = vec!["7".to_string(), "1".to_string(), "hi".to_string()];
    match mus_command("HKAR", &parts) {
        MusCommand::RankAlert { rank, include_higher, message } => {
            assert_eq!((rank, include_higher, message.as_str()), (7, true, "hi"));
        }
        other => panic!("unexpected {other:?}"),
    }
    match mus_command("HKTM", &parts) {
        MusCommand::Alert { user_id, message } => assert_eq!((user_id, message.as_str()), (7, "1")),
        other => panic!("unexpected {other:?}"),
    }
    assert!(matches!(mus_command("UPRH", &parts), MusCommand::RefreshHand { user_id: 7 }));
    assert!(matches!(mus_command("ZZZZ", &parts), MusCommand::Ignored));
}
