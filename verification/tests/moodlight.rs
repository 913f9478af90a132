use holograph_server::moodlight::{moodlight_settings, moodlight_var};

fn strings(cells: &[&str]) -> Vec<String> {
    cells.iter().map(|c| c.to_string()).collect()
}

#[test]
fn lists_dimmer_presets() {
    let row = strings(&["2", "1,#000000,155", "1,#FF0000,100", "2,#00FF00,50"]);
    assert_eq!(
        moodlight_settings(&row),
        Some("KJII#000000\u{2}SfJI#FF0000\u{2}PYKJ#00FF00\u{2}RL".to_string())
    );
    let unread = strings(&["x", "1,#000000,155", "1,#FF0000,100", "2,#00FF00,50"]);
    assert!(moodlight_settings(&unread).unwrap().starts_with("KI"));
}

#[test]
fn refuses_broken_presets() {
    assert_eq!(moodlight_settings(&strings(&["2", "1,#000000", "1,#FF0000,100", "2,#00FF00,50"])), None);
    assert_eq!(moodlight_settings(&strings(&["2", "1,#000000,155"])), None);
}

#[test]
fn switches_and_sets_dimmer() {
    assert_eq!(moodlight_var(false, "2,1,1,#000000,155", 0, 0, "", 0), "1,1,1,#000000,155");
    assert_eq!(moodlight_var(false, "1,3", 0, 0, "", 0), "2,3");
    assert_eq!(moodlight_var(false, "", 0, 0, "", 0), "2");
    assert_eq!(moodlight_var(true, "1,3", 2, 1, "#FF'00", 80), "2,2,1,#FF\\'00,80");
}

use holograph_server::moodlight::moodlight_request;

#[test]
fn reads_dimmer_settings() {
    assert_eq!(moodlight_request("EVJI@G#FF0000Sf"), Some((2, 1, "#FF0000".to_string(), 155)));
    assert_eq!(moodlight_request("EVJ"), None);
    assert_eq!(moodlight_request("EVJI@Z#FF"), None);
    assert_eq!(moodlight_request("EVJI@G#FF0000"), None);
}
