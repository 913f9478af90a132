use holograph_server::room_actions::{
    carry_item, credit_value, credit_value_of, dance_status, decor_packet, decor_request, wall_item_toggleable, wall_toggle_request,
};

#[test]
fn dance_needs_the_club_right_for_numbered_dances() {
    assert_eq!(dance_status("AB", false, false), Some(String::new()));
    assert_eq!(dance_status("ABJ", false, true), Some("2".to_string()));
    assert_eq!(dance_status("ABJ", false, false), None);
    assert_eq!(dance_status("ABSA", false, true), None);
    assert_eq!(dance_status("AB", true, true), None);
}

#[test]
fn carried_items_follow_the_room() {
    assert_eq!(carry_item("ABWater", false, false), Some("Water".to_string()));
    assert_eq!(carry_item("ABBeer", false, false), None);
    assert_eq!(carry_item("ABBeer", false, true), Some("Beer".to_string()));
    assert_eq!(carry_item("AB5", false, false), Some("5".to_string()));
    assert_eq!(carry_item("AB27", false, true), None);
    assert_eq!(carry_item("AB", false, true), None);
    assert_eq!(carry_item("ABa/b", false, true), None);
    assert_eq!(carry_item("ABWater", true, true), None);
}

#[test]
fn wall_toggle_reads_item_and_status() {
    assert_eq!(wall_toggle_request("XX@B12I"), Some((12, 1)));
    assert_eq!(wall_toggle_request("XX@B12"), Some((12, 0)));
    assert_eq!(wall_toggle_request("XX@Bab"), None);
    assert_eq!(wall_toggle_request("XX@"), None);
    assert!(!wall_item_toggleable("poster"));
    assert!(!wall_item_toggleable("roomdimmer"));
    assert!(wall_item_toggleable("lamp"));
}

#[test]
fn decor_requests_name_a_kind_and_an_item() {
    assert_eq!(decor_request("wallpaper/5"), Some(("wallpaper".to_string(), 5)));
    assert_eq!(decor_request("floor/x"), None);
    assert_eq!(decor_request("roof/5"), None);
    assert_eq!(decor_request("landscape"), None);
    assert_eq!(decor_request("floor/0"), None);
    assert_eq!(decor_packet("floor", "110"), "@nfloor/110");
}

#[test]
fn credit_items_are_worth_their_number() {
    assert_eq!(credit_value("CF_50_goldbar"), Some(50));
    assert_eq!(credit_value("cfc_200_moneybag"), Some(200));
    assert_eq!(credit_value("cf_0_coin"), None);
    assert_eq!(credit_value("chair_5"), None);
    assert_eq!(credit_value("cf_x"), None);
    assert_eq!(credit_value_of("CF_5", "cf_5"), Some(5));
    assert_eq!(credit_value_of("CF_5", "CF_5"), None);
}
