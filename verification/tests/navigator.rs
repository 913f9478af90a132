use holograph_server::navigator::{
    navigator_listing, navigator_request, navigator_room_order, NavigatorRoom, NavigatorSubcategory,
};

fn room(id: i64, name: &str, owner: &str, state: i64, show_name: i64, now: i64, max: i64, desc: &str, ccts: &str) -> NavigatorRoom {
    NavigatorRoom {
        id,
        name: name.to_string(),
        owner: owner.to_string(),
        state,
        show_name,
        visitors_now: now,
        visitors_max: max,
        description: desc.to_string(),
        ccts: ccts.to_string(),
    }
}

fn sub(id: i64, name: &str, now: i64, max: i64) -> NavigatorSubcategory {
    NavigatorSubcategory { id, name: name.to_string(), visitors_now: now, visitors_max: max }
}

#[test]
fn reads_category_request() {
    assert_eq!(navigator_request("BVHK"), Some((0, 3)));
    assert_eq!(navigator_request("BVIPA"), Some((1, 4)));
    assert_eq!(navigator_request("BVH"), None);
    assert_eq!(navigator_request("BV"), None);
}

#[test]
fn orders_category_rooms() {
    assert_eq!(navigator_room_order(0, 0, 30), "ORDER BY id ASC");
    assert_eq!(navigator_room_order(0, 1, 30), "AND visitors_now < visitors_max ORDER BY id ASC");
    assert_eq!(
        navigator_room_order(2, 1, 50),
        "AND visitors_now < visitors_max ORDER BY visitors_now DESC LIMIT 30"
    );
    assert_eq!(navigator_room_order(2, 0, 50), "ORDER BY visitors_now DESC LIMIT 50");
}

#[test]
fn lists_public_category() {
    let rooms = vec![room(1, "Hall", "", 0, 1, 2, 10, "Desc", "hh_room")];
    let subs = vec![sub(4, "Sub", 0, 0)];
    let packet = navigator_listing(0, 3, 0, "Lobby", 0, &rooms, false, &subs);
    assert_eq!(
        packet,
        Some(
            "C\\HKHLobby\u{2}HXDgHIIHall\u{2}JRBKDesc\u{2}IHhh_room\u{2}HIPAHSub\u{2}HHK".to_string()
        )
    );
}

#[test]
fn lists_guest_category_hiding_full_and_hidden() {
    let rooms = vec![
        room(6, "Secret", "eve", 0, 0, 0, 25, "x", ""),
        room(7, "Den", "bob", 1, 1, 0, 25, "d", ""),
    ];
    let subs = vec![sub(8, "Full", 10, 10), sub(5, "S2", 1, 10)];
    let packet = navigator_listing(1, 3, 2, "Guest", 1, &rooms, false, &subs);
    assert_eq!(
        packet,
        Some("C\\IKJGuest\u{2}HXDgIJSADen\u{2}bob\u{2}closed\u{2}HQFd\u{2}QAHS2\u{2}IRBK".to_string())
    );
}

#[test]
fn lists_hidden_rooms_to_staff() {
    let rooms = vec![room(6, "Secret", "eve", 2, 0, 0, 1, "x", "")];
    let packet = navigator_listing(0, 3, 2, "Guest", 0, &rooms, true, &vec![]).unwrap();
    assert!(packet.ends_with("Secret\u{2}eve\u{2}password\u{2}HIx\u{2}"));
}

#[test]
fn unnamed_category_gives_nothing() {
    assert_eq!(navigator_listing(0, 3, 0, "", 0, &vec![], false, &vec![]), None);
}

use holograph_server::navigator::{favourites_packet, FavouriteRow};

fn fav(id: i64, cells: &[&str], category: i64, ccts: &str) -> FavouriteRow {
    FavouriteRow { id, row: cells.iter().map(|c| c.to_string()).collect(), category, ccts: ccts.to_string() }
}

#[test]
fn lists_favourite_rooms() {
    let es = vec![
        fav(9, &[], 0, ""),
        fav(7, &["Den", "bob", "1", "1", "0", "25", "d"], 0, ""),
        fav(8, &[], 0, ""),
        fav(1, &["Hall", "", "0", "1", "2", "10", "Desc"], 3, "hh"),
        fav(6, &["Secret", "eve", "0", "0", "0", "5", "x"], 0, ""),
        fav(4, &["Short"], 0, ""),
    ];
    assert_eq!(
        favourites_packet(&es, false, "bob"),
        Some(
            "@}HHJ\u{2}HHHISADen\u{2}bob\u{2}closed\u{2}HQFd\u{2}IIHall\u{2}JRBKDesc\u{2}IHhh\u{2}HIRASecret\u{2}-\u{2}open\u{2}HQAx\u{2}"
                .to_string()
        )
    );
    let staff = favourites_packet(&es, true, "bob").unwrap();
    assert!(staff.contains("RASecret\u{2}eve\u{2}open"));
    assert_eq!(favourites_packet(&vec![], false, "bob"), None);
}

use holograph_server::navigator::room_details_packet;

#[test]
fn shows_room_details() {
    let row: Vec<String> = ["Den", "bob", "nice", "a", "1", "0", "1", "3", "2", "25"].iter().map(|c| c.to_string()).collect();
    assert_eq!(
        room_details_packet(7, &row, false, true),
        Some("@vHISAbob\u{2}model_a\u{2}Den\u{2}nice\u{2}IIJQF".to_string())
    );
    let hidden: Vec<String> = ["Den", "bob", "nice", "a", "1", "0", "0", "3", "2", "25"].iter().map(|c| c.to_string()).collect();
    assert_eq!(
        room_details_packet(7, &hidden, true, false),
        Some("@vHISA-\u{2}model_a\u{2}Den\u{2}nice\u{2}HHJQF".to_string())
    );
    assert_eq!(room_details_packet(7, &hidden, false, false).unwrap()[..10].to_string(), "@vHISAbob\u{2}");
    assert_eq!(room_details_packet(7, &row[..9], false, true), None);
}

use holograph_server::navigator::{own_rooms_packet, placement_categories_packet, search_packet, SearchRow};

fn search_row(id: i64, cells: &[&str]) -> SearchRow {
    SearchRow { id, row: cells.iter().map(|c| c.to_string()).collect() }
}

#[test]
fn answers_room_searches() {
    let rows = vec![search_row(7, &["Den", "bob", "nice", "1", "0", "2", "25"]), search_row(8, &["short"])];
    assert_eq!(search_packet(&rows, false, "eve"), "@w7\tDen\t-\tclosed\tx\t2\t25\tnull\tnice\t\r");
    assert_eq!(search_packet(&rows, false, "bob"), "@w7\tDen\tbob\tclosed\tx\t2\t25\tnull\tnice\t\r");
    assert_eq!(search_packet(&rows, true, "eve"), "@w7\tDen\tbob\tclosed\tx\t2\t25\tnull\tnice\t\r");
    assert_eq!(search_packet(&vec![], false, "eve"), "@z");
}

#[test]
fn lists_own_rooms() {
    let rows = vec![search_row(3, &["Mine", "desc", "2", "1", "0", "10"])];
    assert_eq!(own_rooms_packet(&rows, "bob"), "@P3\tMine\tbob\tpassword\tx\t0\t10\tnull\tdesc\tdesc\t\r");
    assert_eq!(own_rooms_packet(&vec![], "bob"), "@ybob");
}

#[test]
fn lists_categories_for_new_rooms() {
    assert_eq!(placement_categories_packet(&vec![5, 6], &vec!["Lounges".to_string()]), "C]JQALounges\u{2}RA\u{2}");
    assert_eq!(placement_categories_packet(&vec![], &vec![]), "C]H");
}
