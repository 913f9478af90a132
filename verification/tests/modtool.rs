use holograph_server::modtool::{help_message, parse_modtool_ban_target, parse_modtool_message_target, parse_modtool_room_message};

#[test]
fn reads_user_alerts() {
    assert_eq!(
        parse_modtool_message_target("HHxx@Ehi\u{1}yo@CwhyzzBob"),
        Some(("hi yo".to_string(), "why".to_string(), "Bob".to_string()))
    );
    assert_eq!(parse_modtool_message_target("HHxx@@@CwhyzzBob"), None);
    assert_eq!(parse_modtool_message_target("HHxx@Ehi\u{1}yo@Cwhyzz"), None);
    assert_eq!(parse_modtool_message_target("HHxx@Z"), None);
}

#[test]
fn reads_room_messages() {
    assert_eq!(parse_modtool_room_message("IHxx@Ehello@@"), Some(("hello".to_string(), "".to_string())));
    assert_eq!(parse_modtool_room_message("IHxx@@@@"), None);
}

#[test]
fn reads_bans() {
    assert_eq!(
        parse_modtool_ban_target("HJxx@Ehello@Cwhy@CbobPCI"),
        Some(("hello".to_string(), "why".to_string(), "bob".to_string(), 12, true))
    );
    assert_eq!(
        parse_modtool_ban_target("HJxx@Ehello@Cwhy@CbobPCH"),
        Some(("hello".to_string(), "why".to_string(), "bob".to_string(), 12, false))
    );
    assert_eq!(parse_modtool_ban_target("HJxx@Ehello@Cwhy@Cbob"), None);
}

#[test]
fn reads_calls_for_help() {
    assert_eq!(help_message("AV@Chelp!"), Some("hel".to_string()));
    assert_eq!(help_message("AV@@"), None);
    assert_eq!(help_message("AV@Zab"), None);
    assert_eq!(help_message("AV"), None);
}
