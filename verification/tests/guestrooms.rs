use holograph_server::guestrooms::{creation_request, room_category_packet, room_core_request, room_details_request, CreationRequest};

#[test]
fn reads_core_changes() {
    let u = room_core_request("@X12/My Room/0").unwrap();
    assert_eq!((u.room_id, u.name.as_str(), u.show_name.as_str(), u.state), (12, "My Room", "0", 0));
    let u = room_core_request("@X12/Name/closed").unwrap();
    assert_eq!((u.show_name.as_str(), u.state), ("1", 1));
    assert!(room_core_request("@X0/x/1").is_none());
    assert!(room_core_request("@X12/x").is_none());
}

#[test]
fn reads_room_creation() {
    match creation_request("@]first/x/Room/model_a/closed/1") {
        CreationRequest::Create(c) => {
            assert_eq!(c.name, "Room");
            assert_eq!(c.model, "a");
            assert_eq!(c.state, 1);
            assert_eq!(c.show_name, "1");
        }
        _ => panic!("expected a room"),
    }
    assert!(matches!(creation_request("@]first/x/Room/model_a/closed/2"), CreationRequest::BadVisibility));
    assert!(matches!(creation_request("@]first/x/Room"), CreationRequest::Short));
}

#[test]
fn reads_detail_changes() {
    let d = room_details_request("@Y/12/\rdescription=Nice\rallsuperuser=1\rmaxvisitors=30\rpassword=p'w").unwrap();
    assert_eq!(d.room_id, 12);
    assert_eq!(d.description, "Nice");
    assert_eq!(d.super_users, 1);
    assert_eq!(d.max_visitors, 25);
    assert_eq!(d.password, "p\\'w");
    let d = room_details_request("@Y12/\rmaxvisitors=15\rallsuperuser=7").unwrap();
    assert_eq!((d.room_id, d.max_visitors, d.super_users), (12, 15, 0));
    assert!(room_details_request("@Y12/\rcolour=red").is_none());
    assert!(room_details_request("@Y12/\rjunk").is_none());
    assert!(room_details_request("@Yx/\rmaxvisitors=15").is_none());
}

#[test]
fn tells_owner_the_category() {
    assert_eq!(room_category_packet(4, "3"), Some("C^PAK".to_string()));
    assert_eq!(room_category_packet(4, "x"), Some("C^PAH".to_string()));
    assert_eq!(room_category_packet(4, ""), None);
}
