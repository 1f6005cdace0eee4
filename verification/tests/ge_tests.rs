use rs_helper::cache::CacheKey;
use rs_helper::errors::AppError;
use rs_helper::ge::{
    base_urls, build_item_list, categories, categories_listing, categories_map, category_id_from_name, category_name,
    graph_key, graph_url, info_key, info_url, item_detail_from, item_detail_key, item_detail_url,
    items_request, items_url, parse_graph, parse_item, select_runedate, validate_alpha,
};
use rs_helper::text::parse_i64;
use rs_helper::types::{Game, ItemsQuery, PriceValue, RawItem, TsPrice};

fn raw(kind: &str) -> RawItem {
    RawItem {
        id: Some(4151),
        name: Some("Abyssal whip".to_string()),
        kind: Some(kind.to_string()),
        members_text: Some("true".to_string()),
        members_flag: None,
        icon: Some("small.gif".to_string()),
        icon_large: Some("large.gif".to_string()),
        current_price: Some(PriceValue::Text("2.5m".to_string())),
        current_trend: Some("positive".to_string()),
        today_price: Some(PriceValue::Text("+50k".to_string())),
        description: Some("A weapon from the Abyss.".to_string()),
    }
}

#[test]
fn test_categories_endpoint() {
    let listing = categories_listing();
    assert!(!listing.categories.is_empty());
    assert_eq!(listing.categories[0].id, 0);
    assert_eq!(listing.categories[0].name, "Miscellaneous");
    assert_eq!(listing.cached, Some(false));
    let all = categories();
    assert_eq!(all.len(), 44);
    for (i, c) in all.iter().enumerate() {
        assert_eq!(c.id as usize, i);
    }
    assert_eq!(all[43].name, "Necromancy armour");
}

#[test]
fn test_items_endpoint_validation() {
    let q = ItemsQuery { category: 0, alpha: Some("invalid".to_string()), page: None, game: Game::Rs3 };
    match items_request(&q) {
        Err(e) => {
            let (status, body) = e.response_parts();
            assert_eq!(status, 400);
            assert_eq!(body.code, "bad_request");
            assert!(body.message.contains("alpha"));
        }
        Ok(_) => panic!("an invalid letter was accepted"),
    }
}

#[test]
fn alpha_validation() {
    assert!(validate_alpha("#").is_ok());
    assert!(validate_alpha("a").is_ok());
    assert!(validate_alpha("z").is_ok());
    assert!(validate_alpha("A").is_err());
    assert!(validate_alpha("ab").is_err());
    assert!(validate_alpha("").is_err());
    assert!(validate_alpha("é").is_err());
    assert_eq!(
        validate_alpha("1"),
        Err(AppError::BadRequest("Invalid alpha: must be a single lowercase letter a-z or '#'".to_string()))
    );
}

#[test]
fn items_request_defaults() {
    let q = ItemsQuery { category: 24, alpha: None, page: None, game: Game::Osrs };
    let r = items_request(&q).unwrap();
    assert_eq!(r.alpha, "a");
    assert_eq!(r.page, 1);
    assert_eq!(r.key, CacheKey::items_list(24, "a", 1, "osrs"));
    assert_eq!(item_detail_key(5, Game::Rs3), CacheKey::item_detail(5, "rs3"));
    assert_eq!(graph_key(5, Game::Osrs), CacheKey::graph(5, "osrs"));
    assert_eq!(info_key(Game::Rs3), CacheKey::info("rs3"));
}

#[test]
fn category_lookup() {
    assert_eq!(category_id_from_name("Miscellaneous"), 0);
    assert_eq!(category_id_from_name("MELEE WEAPONS - HIGH LEVEL"), 24);
    assert_eq!(category_id_from_name("food and drink"), 12);
    assert_eq!(category_id_from_name("Unknown"), -1);
    assert_eq!(category_id_from_name(""), -1);
    let (rs3, table) = base_urls(Game::Rs3);
    assert_eq!(rs3, "https://secure.runescape.com/m=itemdb_rs");
    assert_eq!(category_name(&table, 24), Some("Melee weapons - high level"));
    let (osrs, table) = base_urls(Game::Osrs);
    assert_eq!(osrs, "https://secure.runescape.com/m=itemdb_oldschool");
    assert_eq!(category_name(&table, 1), Some("All items (OSRS)"));
    assert_eq!(category_name(&table, 24), None);
}

#[test]
fn item_parsing() {
    let (_, table) = base_urls(Game::Rs3);
    let item = parse_item(&raw("melee weapons - high level"), &table);
    assert_eq!(item.id, 4151);
    assert_eq!(item.name, "Abyssal whip");
    assert_eq!(item.category_id, 24);
    assert_eq!(item.category_name, "Melee weapons - high level");
    assert!(item.members);
    assert_eq!(item.icons.small, "small.gif");
    assert_eq!(item.icons.large, "large.gif");
    assert_eq!(item.price.trend, "positive");
    assert_eq!(item.price.current, Some(2_500_000));
    assert_eq!(item.price.today_change, Some(50_000));
    assert_eq!(item.description.as_deref(), Some("A weapon from the Abyss."));
    assert_eq!(item.cached, None);

    let odd = parse_item(&raw("Whatever"), &table);
    assert_eq!(odd.category_id, -1);
    assert_eq!(odd.category_name, "Whatever");

    let mut bare = raw("Ammo");
    bare.members_text = None;
    bare.members_flag = Some(true);
    bare.current_trend = None;
    bare.name = None;
    bare.id = None;
    let b = parse_item(&bare, &table);
    assert!(b.members);
    assert_eq!(b.price.trend, "neutral");
    assert_eq!(b.name, "");
    assert_eq!(b.id, 0);

    let (_, osrs_table) = base_urls(Game::Osrs);
    let o = parse_item(&raw("Ammo"), &osrs_table);
    assert_eq!(o.category_id, 1);
    assert_eq!(o.category_name, "All items (OSRS)");
}

#[test]
fn item_lists_and_details() {
    let (_, table) = base_urls(Game::Rs3);
    let list = build_item_list(None, &vec![raw("Ammo"), raw("Arrows")], 3, &table);
    assert_eq!(list.total, 0);
    assert_eq!(list.items.len(), 2);
    assert_eq!(list.items[1].category_id, 2);
    assert_eq!(list.page, Some(3));
    assert_eq!(list.cached, Some(false));
    let detail = item_detail_from(&Some(raw("Ammo")), &table).unwrap();
    assert_eq!(detail.cached, Some(false));
    assert_eq!(
        item_detail_from(&None, &table),
        Err(AppError::Upstream("Missing 'item' field in response".to_string()))
    );
}

#[test]
fn graphs_are_sorted_by_time() {
    let daily = vec![
        ("1700000200000".to_string(), Some(30)),
        ("1700000000000".to_string(), Some(10)),
        ("bad".to_string(), Some(99)),
        ("1700000100000".to_string(), None),
        ("1700000100000".to_string(), Some(20)),
        ("+1700000100000".to_string(), Some(21)),
    ];
    let g = parse_graph(7, &daily, &vec![], 1);
    assert_eq!(g.id, 7);
    assert_eq!(
        g.daily,
        vec![
            TsPrice { ts_ms: 1700000000000, price: 10 },
            TsPrice { ts_ms: 1700000100000, price: 20 },
            TsPrice { ts_ms: 1700000100000, price: 21 },
            TsPrice { ts_ms: 1700000200000, price: 30 },
        ]
    );
    assert!(g.average.is_empty());
    let far = parse_graph(7, &vec![(i64::MAX.to_string(), Some(5))], &vec![], 42);
    assert_eq!(far.daily, vec![TsPrice { ts_ms: 42, price: 5 }]);
}

#[test]
fn graph_time_range() {
    let lo: i64 = -8334601228800000;
    let hi: i64 = 8210266876799999;
    let entries = vec![
        (lo.to_string(), Some(1)),
        ((lo - 1).to_string(), Some(2)),
        (hi.to_string(), Some(3)),
        ((hi + 1).to_string(), Some(4)),
    ];
    let g = parse_graph(1, &entries, &vec![], 77);
    assert_eq!(
        g.daily,
        vec![
            TsPrice { ts_ms: lo, price: 1 },
            TsPrice { ts_ms: 77, price: 2 },
            TsPrice { ts_ms: 77, price: 4 },
            TsPrice { ts_ms: hi, price: 3 },
        ]
    );
}

#[test]
fn integer_text() {
    assert_eq!(parse_i64("123"), Some(123));
    assert_eq!(parse_i64("-9223372036854775808"), Some(i64::MIN));
    assert_eq!(parse_i64("9223372036854775807"), Some(i64::MAX));
    assert_eq!(parse_i64("9223372036854775808"), None);
    assert_eq!(parse_i64("+5"), Some(5));
    assert_eq!(parse_i64("-"), None);
    assert_eq!(parse_i64(""), None);
    assert_eq!(parse_i64("1.5"), None);
}

#[test]
fn runedate_fallbacks() {
    assert_eq!(select_runedate(Some(5), Some(6)), 5);
    assert_eq!(select_runedate(None, Some(6)), 6);
    assert_eq!(select_runedate(None, None), 0);
}

#[test]
fn upstream_addresses() {
    assert_eq!(info_url(Game::Rs3), "https://secure.runescape.com/m=itemdb_rs/api/info.json");
    assert_eq!(info_url(Game::Osrs), "https://secure.runescape.com/m=itemdb_oldschool/api/info.json");
    assert_eq!(
        item_detail_url(Game::Rs3, 4151),
        "https://secure.runescape.com/m=itemdb_rs/api/catalogue/detail.json?item=4151"
    );
    assert_eq!(
        graph_url(Game::Osrs, -12),
        "https://secure.runescape.com/m=itemdb_oldschool/api/graph/-12.json"
    );
    assert_eq!(graph_url(Game::Rs3, 0), "https://secure.runescape.com/m=itemdb_rs/api/graph/0.json");
    assert_eq!(
        items_url(Game::Rs3, 24, "b", 3),
        "https://secure.runescape.com/m=itemdb_rs/api/catalogue/items.json?category=24&alpha=b&page=3"
    );
    assert_eq!(
        items_url(Game::Osrs, -1, "%23", 10),
        "https://secure.runescape.com/m=itemdb_oldschool/api/catalogue/items.json?category=-1&alpha=%23&page=10"
    );
    assert_eq!(
        item_detail_url(Game::Rs3, i64::MIN),
        "https://secure.runescape.com/m=itemdb_rs/api/catalogue/detail.json?item=-9223372036854775808"
    );
}

#[test]
fn category_names_read_back_in_any_case() {
    for c in categories() {
        assert_eq!(category_id_from_name(c.name), c.id);
        assert_eq!(category_id_from_name(&c.name.to_ascii_uppercase()), c.id);
        assert_eq!(category_id_from_name(&c.name.to_ascii_lowercase()), c.id);
    }
    assert_eq!(category_id_from_name(""), -1);
    assert_eq!(category_id_from_name("All items (OSRS)"), -1);
    assert_eq!(category_id_from_name("Ammo "), -1);
}

#[test]
fn category_lookup_by_id() {
    let m = categories_map();
    assert_eq!(m.len(), 44);
    for c in categories() {
        assert_eq!(category_name(&m, c.id), Some(c.name));
    }
    assert_eq!(category_name(&m, 44), None);
    assert_eq!(category_name(&m, -1), None);
}
