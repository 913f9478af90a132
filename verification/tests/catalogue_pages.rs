use holograph_server::catalogue_pages::{
    catalogue_page, deal_id, get_page, get_page_index, deal_line, parse_catalogue_row, CatalogueRow, DealItem, PageLine,
};

fn strings(v: &[&str]) -> Vec<String> {
    v.iter().map(|s| s.to_string()).collect()
}

fn chair() -> CatalogueRow {
    parse_catalogue_row(&strings(&["12", "1", "2", "1", "25", "0", "1", "1", "Chair", "Nice", "chair_x", "#fff", "1.0"]))
        .unwrap()
}

#[test]
fn catalogue_rows_are_read_with_defaults() {
    let c = chair();
    assert_eq!(c.template_id, 12);
    assert_eq!(c.type_id, 1);
    assert_eq!((c.length, c.width, c.cost), (2, 1, 25));
    assert!(!c.is_door && c.is_tradeable && c.is_recycleable);
    assert_eq!(c.cct, "chair_x");
    let odd = parse_catalogue_row(&strings(&["x", "y", "", "", "", "1", "", "", "n", "d", "c", "k", "t"])).unwrap();
    assert_eq!((odd.template_id, odd.type_id, odd.length, odd.width, odd.cost), (0, 1, 1, 1, 0));
    assert!(odd.is_door);
    assert!(parse_catalogue_row(&strings(&["1", "2"])).is_none());
}

#[test]
fn deals_are_told_by_their_code() {
    assert_eq!(deal_id("deal7"), Some(7));
    assert_eq!(deal_id("dealx"), Some(0));
    assert_eq!(deal_id("chair"), None);
    let items = vec![DealItem { cct: "a".to_string(), amount: 2, colour: "c".to_string() }];
    assert_eq!(deal_line("Pack", "Two", 5, 7, &items), "p:Pack\tTwo\t5\t\td\t\t\t\tdeal7\t\t1\ta\t2\tc\t");
}

#[test]
fn catalogue_page_joins_head_and_lines() {
    let head = strings(&["front", "2", "Front", "ctlg_layout", "", "", "", "", ""]);
    let (name, page) = catalogue_page(3, &head, &[PageLine::Item(chair())]);
    assert_eq!(name, "front");
    assert_eq!(page.display_name, "Front");
    assert_eq!(page.min_rank, 2);
    assert_eq!(
        page.page_data,
        "i:front\rn:Front\rl:ctlg_layout\rp:Chair\tNice\t25\t\ts\tchair_x\t0\t2,1\tchair_x\t#fff\r"
    );
    let (name, page) = catalogue_page(0, &head, &[]);
    assert_eq!(name, "");
    assert_eq!(page.page_data, "");
}

#[test]
fn pages_are_shown_by_rank() {
    let page = holograph_server::state::CataloguePage {
        display_name: "Front".to_string(),
        page_data: "DATA".to_string(),
        min_rank: 3,
    };
    assert_eq!(get_page(Some(&page), 3), "DATA");
    assert_eq!(get_page(Some(&page), 2), "holo.cast.catalogue.access_denied");
    assert_eq!(get_page(None, 7), "cast_catalogue.access_denied");
    let entries = vec![
        ("front".to_string(), Some("Front".to_string())),
        ("gone".to_string(), None),
        ("rares".to_string(), Some("Rares".to_string())),
    ];
    assert_eq!(get_page_index(&entries), "front\tFront\rrares\tRares\r");
}
