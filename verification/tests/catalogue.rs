use holograph_server::catalogue::{
    catalogue_item_line, catalogue_page_head, parse_purchase, present_box_sprite, purchase_allowed, purchase_kind, trophy_text,
    PurchaseKind,
};

#[test]
fn reads_purchases() {
    let q = parse_purchase("Ad\rpage\r\rchair\rextra\r1\rbob\rhi").unwrap();
    assert_eq!(q.page, "page");
    assert_eq!(q.item, "chair");
    assert_eq!(q.extra, "extra");
    assert!(q.as_present);
    assert_eq!(q.receiver, "bob");
    assert_eq!(q.note, "hi");
    let q = parse_purchase("Ad\rpage\r\rchair\r\r0").unwrap();
    assert!(!q.as_present);
    assert_eq!(q.receiver, "");
    assert!(parse_purchase("Ad\rpage\r\rchair").is_none());
}

#[test]
fn classifies_purchases() {
    assert_eq!(purchase_kind("deal12", "x"), PurchaseKind::Deal(12));
    assert_eq!(purchase_kind("chair", "wallpaper"), PurchaseKind::Decoration);
    assert_eq!(purchase_kind("x", "landscape_day"), PurchaseKind::Decoration);
    assert_eq!(purchase_kind("prizetrophy_gold", "x"), PurchaseKind::Trophy);
    assert_eq!(purchase_kind("chair", "chair"), PurchaseKind::Plain);
    assert!(purchase_allowed(5, 5));
    assert!(!purchase_allowed(6, 5));
    assert!(!purchase_allowed(0, 5));
    assert_eq!(trophy_text("bob", "01-01-2024", "Winner"), "bob\t01-01-2024\tWinner");
    assert_eq!(present_box_sprite(13), "present_gen2");
}

#[test]
fn caches_catalogue_pages() {
    let row: Vec<String> = ["index", "1", "Display", "layout", "hdr", "side", "desc", "misc1\rmisc2", "more"]
        .iter()
        .map(|c| c.to_string())
        .collect();
    let (index, page) = catalogue_page_head(&row);
    assert_eq!(index, "index");
    assert_eq!(page.display_name, "Display");
    assert_eq!(page.min_rank, 1);
    assert_eq!(page.page_data, "i:index\rn:Display\rl:layout\rg:hdr\re:side\rh:desc\rw:more\rmisc1\rmisc2\r");
    assert_eq!(
        catalogue_item_line("Chair", "Nice", 5, 1, "chair", 1, 2, "0,0,0"),
        "p:Chair\tNice\t5\t\ts\tchair\t0\t1,2\tchair\t0,0,0\r"
    );
    assert_eq!(catalogue_item_line("Poster", "Art", 3, 0, "poster", 0, 0, "7"), "p:Poster\tArt\t3\t\ti\tposter\t\t\tposter\t\r");
}
