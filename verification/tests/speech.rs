use holograph_server::speech::{ban_outcome, parse_speech_command, target_outranks, BanOutcome, SpeechCommand};

#[test]
fn reads_targeted_commands() {
    match parse_speech_command("alert bob hello   there") {
        Some(SpeechCommand::Alert { target, message }) => {
            assert_eq!(target.as_deref(), Some("bob"));
            assert_eq!(message, "hello there");
        }
        other => panic!("unexpected {:?}", other),
    }
    match parse_speech_command("kick") {
        Some(SpeechCommand::Kick { target, message }) => {
            assert_eq!(target, None);
            assert_eq!(message, "");
        }
        other => panic!("unexpected {:?}", other),
    }
}

#[test]
fn reads_raw_alert_text() {
    match parse_speech_command("roomalert Hello  all") {
        Some(SpeechCommand::RoomAlert { message }) => assert_eq!(message, "Hello  all"),
        other => panic!("unexpected {:?}", other),
    }
    match parse_speech_command("ha hi everyone") {
        Some(SpeechCommand::HotelAlert { message }) => assert_eq!(message, "hi everyone"),
        other => panic!("unexpected {:?}", other),
    }
}

#[test]
fn reads_ban_arguments() {
    match parse_speech_command("ban bob 12 spamming a lot") {
        Some(SpeechCommand::Ban { target, hours, reason }) => {
            assert_eq!(target.as_deref(), Some("bob"));
            assert_eq!(hours, 12);
            assert_eq!(reason, "spamming a lot");
        }
        other => panic!("unexpected {:?}", other),
    }
    match parse_speech_command("superban bob x") {
        Some(SpeechCommand::Superban { hours, reason, .. }) => {
            assert_eq!(hours, 0);
            assert_eq!(reason, "");
        }
        other => panic!("unexpected {:?}", other),
    }
}

#[test]
fn reads_numbers_and_badges() {
    match parse_speech_command("warp 3 y") {
        Some(SpeechCommand::Warp { x, y }) => {
            assert_eq!(x, Some(3));
            assert_eq!(y, None);
        }
        other => panic!("unexpected {:?}", other),
    }
    match parse_speech_command("givebadge bob AD'M") {
        Some(SpeechCommand::GiveBadge { target, badge }) => {
            assert_eq!(target.as_deref(), Some("bob"));
            assert_eq!(badge.as_deref(), Some("AD\\'M"));
        }
        other => panic!("unexpected {:?}", other),
    }
    match parse_speech_command("coins bob 50") {
        Some(SpeechCommand::Coins { credits, .. }) => assert_eq!(credits, Some(50)),
        other => panic!("unexpected {:?}", other),
    }
    assert!(matches!(parse_speech_command("refreshhotel"), Some(SpeechCommand::Refresh)));
}

#[test]
fn ignores_unknown_commands() {
    assert!(parse_speech_command("dance now").is_none());
    assert!(parse_speech_command("   ").is_none());
}

#[test]
fn decides_bans() {
    let row = vec!["12".to_string(), "3".to_string()];
    assert_eq!(ban_outcome(&row, 2, 5, 24, "spam"), BanOutcome::Banned { target_id: 12 });
    assert_eq!(ban_outcome(&row, 2, 5, 0, "spam"), BanOutcome::Failed);
    assert_eq!(ban_outcome(&row, 2, 5, 24, ""), BanOutcome::Failed);
    assert_eq!(ban_outcome(&row, 3, 5, 24, "spam"), BanOutcome::UserNotFound);
    let high = vec!["12".to_string(), "7".to_string()];
    assert_eq!(ban_outcome(&high, 2, 5, 24, "spam"), BanOutcome::RankError);
}

#[test]
fn compares_staff_ranks_as_bytes() {
    assert!(target_outranks(261, 4));
    assert!(!target_outranks(3, 4));
    assert!(target_outranks(4, 4));
}
