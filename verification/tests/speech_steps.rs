use holograph_server::speech::parse_speech_command;
use holograph_server::speech_steps::{speech_command_step, SpeechFacts, SpeechOutcome};

fn facts() -> SpeechFacts {
    SpeechFacts {
        allowed: true,
        own_rank: 5,
        in_room: true,
        target_id: 9,
        target_rank: 2,
        target_online: true,
        target_muted: Some(false),
        ban_row: vec!["9".to_string(), "2".to_string()],
        position_known: true,
    }
}

fn step(text: &str, f: &SpeechFacts) -> SpeechOutcome {
    speech_command_step(&parse_speech_command(text).unwrap(), f)
}

#[test]
fn commands_without_the_right_are_chat() {
    let f = SpeechFacts { allowed: false, ..facts() };
    assert_eq!(step("alert bob hi", &f), SpeechOutcome::NotCommand);
    assert_eq!(step("emptyhand", &f), SpeechOutcome::Perform);
    assert_eq!(step("coins bob 5", &f), SpeechOutcome::NoCoinRights);
    assert_eq!(step("coins", &f), SpeechOutcome::Failed);
}

#[test]
fn targets_must_exist_and_be_outranked() {
    let f = facts();
    assert_eq!(step("alert bob hi", &f), SpeechOutcome::Perform);
    assert_eq!(step("alert bob", &f), SpeechOutcome::Failed);
    assert_eq!(step("alert", &f), SpeechOutcome::Failed);
    let missing = SpeechFacts { target_id: 0, ..facts() };
    assert_eq!(step("alert bob hi", &missing), SpeechOutcome::UserNotFound);
    assert_eq!(step("kick bob", &missing), SpeechOutcome::Failed);
    let offline = SpeechFacts { target_online: false, ..facts() };
    assert_eq!(step("alert bob hi", &offline), SpeechOutcome::UserNotFound);
    assert_eq!(step("find bob", &offline), SpeechOutcome::UserNotFound);
    let senior = SpeechFacts { target_rank: 5, ..facts() };
    assert_eq!(step("kick bob bye", &senior), SpeechOutcome::Failed);
    assert_eq!(step("kick bob bye", &f), SpeechOutcome::Perform);
}

#[test]
fn mutes_follow_the_mute_state() {
    let f = facts();
    assert_eq!(step("shutup bob quiet", &f), SpeechOutcome::Perform);
    assert_eq!(step("unmute bob", &f), SpeechOutcome::Failed);
    let muted = SpeechFacts { target_muted: Some(true), ..facts() };
    assert_eq!(step("shutup bob quiet", &muted), SpeechOutcome::Failed);
    assert_eq!(step("unmute bob", &muted), SpeechOutcome::Perform);
}

#[test]
fn bans_need_hours_a_reason_and_rank() {
    let f = facts();
    assert_eq!(step("ban bob 2 spam", &f), SpeechOutcome::Perform);
    assert_eq!(step("ban bob 0 spam", &f), SpeechOutcome::Failed);
    assert_eq!(step("ban bob 2", &f), SpeechOutcome::Failed);
    let senior = SpeechFacts { ban_row: vec!["9".to_string(), "7".to_string()], ..facts() };
    assert_eq!(step("ban bob 2 spam", &senior), SpeechOutcome::RankError);
    assert_eq!(step("superban bob 2 spam", &f), SpeechOutcome::UserNotFound);
}

#[test]
fn room_commands_need_a_room() {
    let away = SpeechFacts { in_room: false, position_known: false, ..facts() };
    assert_eq!(step("roomalert hello", &away), SpeechOutcome::Failed);
    assert_eq!(step("warp 1 2", &away), SpeechOutcome::Failed);
    assert_eq!(step("warp 1", &facts()), SpeechOutcome::Failed);
    assert_eq!(step("position", &away), SpeechOutcome::Silent);
    assert_eq!(step("ha hello all", &away), SpeechOutcome::Perform);
    assert_eq!(step("givebadge bob  ", &facts()), SpeechOutcome::Failed);
    assert_eq!(step("givebadge bob ADM", &facts()), SpeechOutcome::Perform);
}
