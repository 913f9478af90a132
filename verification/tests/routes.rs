use holograph_server::routes::{route, Route};

#[test]
fn headers_route_to_their_handlers() {
    assert_eq!(route("CD"), Route::KeepAlive);
    assert_eq!(route("@t"), Route::ChatSay);
    assert_eq!(route("@w"), Route::ChatShout);
    assert_eq!(route("AA"), Route::RefreshHand);
    assert_eq!(route("LB"), Route::RefreshHand);
    assert_eq!(route("Ad"), Route::CataloguePurchase);
    assert_eq!(route("@\u{7f}"), Route::EnterRoomWallitems);
    assert_eq!(route("E\\"), Route::EventEdit);
    assert_eq!(route("AG"), Route::TradeStart);
}

#[test]
fn unknown_headers_route_nowhere() {
    assert_eq!(route("zz"), Route::Unknown);
    assert_eq!(route("C"), Route::Unknown);
    assert_eq!(route("CDX"), Route::Unknown);
}
