use holograph_server::reports::{
    ban_lookup, ban_pending, is_pending_ban, ip_ban_report, room_ban_pending, room_ban_state, user_ban_report,
    user_info_report, BanLookup, DateTimeParts, UserPresence,
};
use holograph_server::state::StringCache;

fn strings(cells: &[&str]) -> Vec<String> {
    cells.iter().map(|c| c.to_string()).collect()
}

#[test]
fn reports_user_bans() {
    let report = user_ban_report(
        7,
        &strings(&["2030-01-01", "spam", ""]),
        &strings(&["bob", "1", "1.2.3.4"]),
        &strings(&["3", "rude", "2024-01-01"]),
        "mod",
    );
    assert_eq!(
        report,
        "banreport_header bob [7]\rcommon_userrank: 1\rcommon_ip: 1.2.3.4\rbanreport_banner: mod\rbanreport_posted: 2024-01-01\rbanreport_expires: 2030-01-01\rbanreport_reason: spam\rbanreport_ipbanflag: false\rbanreport_staffnote: rude"
    );
    let unlogged = user_ban_report(7, &strings(&["2030", "spam", "1.2.3.4"]), &strings(&["bob", "1", "ip"]), &[], "");
    assert!(unlogged.contains("banreport_banner: not available\rbanreport_posted: not available"));
    assert!(unlogged.contains("banreport_ipbanflag: true"));
    assert!(unlogged.ends_with("banreport_staffnote: -"));
    assert_eq!(user_ban_report(7, &strings(&["x"]), &strings(&["bob", "1", "ip"]), &[], ""), "holo.cast.banreport.null");
}

#[test]
fn reports_address_bans() {
    let report = ip_ban_report("1.2.3.4", &strings(&["7", "2030", "spam"]), &[], "", &strings(&["bob", "eve"]));
    assert_eq!(
        report,
        "banreport_header 1.2.3.4\rbanreport_banner: not available\rbanreport_posted: not available\rbanreport_expires: 2030\rbanreport_reason: spam\rbanreport_ipbanflag: true\rbanreport_staffnote: -\r\rbanreport_affectedusernames:\r - bob\r - eve"
    );
    assert_eq!(ip_ban_report("1.2.3.4", &[], &[], "", &[]), "holo.cast.banreport.null");
}

#[test]
fn reports_user_info() {
    let cache = StringCache::default();
    let row = strings(&["bob", "1", "hi", "100", "5", "b@x", "1990", "2000", "1.2.3.4", "2024"]);
    let head = "userinfo_header\rcommon_userid: 7\rcommon_username: bob\rcommon_userrank: 1\rcommon_usermission: hi\rcommon_credits: 100\rcommon_tickets: 5\rcommon_hbirth: 2000\r\rcommon_birth: 1990\rcommon_email: b@x\rcommon_ip: 1.2.3.4\r\r";
    let hotel = UserPresence::Online { room_id: 0, room_name: String::new(), room_owner: String::new() };
    assert_eq!(user_info_report(&cache, 7, &row, &hotel), format!("{}common_location: common_hotelview", head));
    let room = UserPresence::Online { room_id: 4, room_name: "Den".to_string(), room_owner: "eve".to_string() };
    assert_eq!(
        user_info_report(&cache, 7, &row, &room),
        format!("{}common_location: common_room 'Den' [id: 4, common_owner: eve]", head)
    );
    assert_eq!(user_info_report(&cache, 7, &row, &UserPresence::Offline), format!("{}common_lastaccess: 2024", head));
    assert_eq!(user_info_report(&cache, 7, &row[..3], &UserPresence::Offline), "userinfo_accesserror");
}

#[test]
fn labels_come_from_string_table() {
    let mut cache = StringCache::default();
    cache.load_entries(&strings(&["userinfo_accesserror"]), &strings(&["No access"]));
    assert_eq!(user_info_report(&cache, 7, &[], &UserPresence::Offline), "No access");
}

fn at(year: i32, month: u32, day: u32, hour: u32, minute: u32, second: u32) -> DateTimeParts {
    DateTimeParts { year, month, day, hour, minute, second, nanosecond: 0 }
}

#[test]
fn bans_run_until_their_expiry() {
    let now = at(2024, 5, 1, 12, 0, 0);
    assert!(is_pending_ban("2024-05-01 12:00:01", now));
    assert!(!is_pending_ban("2024-05-01 12:00:00", now));
    assert!(!is_pending_ban("2023-12-31 23:59:59", now));
    assert!(!is_pending_ban("not a date", now));
    assert!(!is_pending_ban("05/02/2024 12:00:00", now));
    let later = DateTimeParts { nanosecond: 5, ..now };
    assert!(!ban_pending(Some(now), later));
    assert!(ban_pending(Some(later), now));
}

#[test]
fn ban_lookup_tells_running_from_expired() {
    let now = at(2024, 5, 1, 12, 0, 0);
    assert_eq!(ban_lookup(false, "2030-01-01 00:00:00", now), BanLookup::NotBanned);
    assert_eq!(ban_lookup(true, "2030-01-01 00:00:00", now), BanLookup::Banned);
    assert_eq!(ban_lookup(true, "2020-01-01 00:00:00", now), BanLookup::Expired);
}

#[test]
fn room_bans_read_either_date_form() {
    let now = at(2024, 5, 1, 12, 0, 0);
    assert!(room_ban_pending("2024-05-02 00:00:00", now));
    assert!(room_ban_pending("05/02/2024 00:00:00", now));
    assert!(!room_ban_pending("04/30/2024 00:00:00", now));
    assert!(!room_ban_pending("garbage", now));
    assert_eq!(room_ban_state(false, "05/02/2024 00:00:00", now), None);
    assert_eq!(room_ban_state(true, "05/02/2024 00:00:00", now), Some(true));
}
