use rs_helper::types::{format_price_compact, parse_abbrev, parse_price_to_i64, Game, GeGraph, GeItemList, GePrice, PriceValue, TsPrice};

#[test]
fn test_parse_price() {
    assert_eq!(parse_abbrev("1.5m"), Some(1_500_000));
    assert_eq!(parse_abbrev("-2.3k"), Some(-2_300));
    assert_eq!(parse_abbrev("100"), Some(100));
    assert_eq!(parse_abbrev("5.5b"), Some(5_500_000_000));
}

#[test]
fn test_format_price() {
    assert_eq!(format_price_compact(1_500_000), "1.5m");
    assert_eq!(format_price_compact(-2_300), "-2.3k");
    assert_eq!(format_price_compact(100), "100");
    assert_eq!(format_price_compact(5_500_000_000), "5.5b");
}

#[test]
fn test_price_parsing() {
    assert_eq!(parse_price_to_i64(&PriceValue::Text("1.5m".to_string())), Some(1_500_000));
    assert_eq!(parse_price_to_i64(&PriceValue::Text("-2.3k".to_string())), Some(-2_300));
    assert_eq!(parse_price_to_i64(&PriceValue::Number(Some(100))), Some(100));
    assert_eq!(parse_price_to_i64(&PriceValue::Text("5.5b".to_string())), Some(5_500_000_000));
    assert_eq!(parse_price_to_i64(&PriceValue::Text("invalid".to_string())), None);
}

#[test]
fn test_price_formatting() {
    assert_eq!(format_price_compact(1_500_000), "1.5m");
    assert_eq!(format_price_compact(-2_300), "-2.3k");
    assert_eq!(format_price_compact(100), "100");
    assert_eq!(format_price_compact(5_500_000_000), "5.5b");
    assert_eq!(format_price_compact(999), "999");
    assert_eq!(format_price_compact(1_000), "1.0k");
    assert_eq!(format_price_compact(10_500), "10.5k");
    assert_eq!(format_price_compact(100_000), "100k");
}

#[test]
fn test_game_display() {
    assert_eq!(Game::Rs3.to_string(), "rs3");
    assert_eq!(Game::Osrs.to_string(), "osrs");
}

#[test]
fn test_game_default() {
    let game: Game = Default::default();
    assert_eq!(game, Game::Rs3);
}

#[test]
fn parse_abbrev_trims_and_ignores_case() {
    assert_eq!(parse_abbrev("  1.5M \n"), Some(1_500_000));
    assert_eq!(parse_abbrev("+7K"), Some(7_000));
    assert_eq!(parse_abbrev("1,234,567"), Some(1_234_567));
    assert_eq!(parse_abbrev("2,5k"), Some(25_000));
}

#[test]
fn parse_abbrev_rounds_halves_away_from_zero() {
    assert_eq!(parse_abbrev("0.5"), Some(1));
    assert_eq!(parse_abbrev("-0.5"), Some(-1));
    assert_eq!(parse_abbrev("1.4999"), Some(1));
    assert_eq!(parse_abbrev("0.0015k"), Some(2));
    assert_eq!(parse_abbrev(".5k"), Some(500));
    assert_eq!(parse_abbrev("5.k"), Some(5_000));
}

#[test]
fn parse_abbrev_refuses_other_text() {
    assert_eq!(parse_abbrev(""), None);
    assert_eq!(parse_abbrev("   "), None);
    assert_eq!(parse_abbrev("-"), None);
    assert_eq!(parse_abbrev("k"), None);
    assert_eq!(parse_abbrev("."), None);
    assert_eq!(parse_abbrev("1.2.3"), None);
    assert_eq!(parse_abbrev("12kk"), None);
    assert_eq!(parse_abbrev("1 000"), None);
}

#[test]
fn parse_abbrev_clamps_to_i64() {
    assert_eq!(parse_abbrev("99999999999999999999"), Some(i64::MAX));
    assert_eq!(parse_abbrev("-99999999999b"), Some(-i64::MAX));
    assert_eq!(parse_abbrev("9223372036854775807"), Some(i64::MAX));
}

#[test]
fn format_price_compact_edges() {
    assert_eq!(format_price_compact(0), "0");
    assert_eq!(format_price_compact(-999), "-999");
    assert_eq!(format_price_compact(1_050), "1.0k");
    assert_eq!(format_price_compact(1_150), "1.2k");
    assert_eq!(format_price_compact(10_250), "10.2k");
    assert_eq!(format_price_compact(10_350), "10.4k");
    assert_eq!(format_price_compact(100_500), "100k");
    assert_eq!(format_price_compact(101_500), "102k");
    assert_eq!(format_price_compact(-2_250_000), "-2.2m");
    assert_eq!(format_price_compact(99_960), "100.0k");
    assert_eq!(format_price_compact(999_600), "1000k");
    assert_eq!(format_price_compact(2_147_483_647), "2.1b");
    assert_eq!(format_price_compact(i64::MIN), "-9223372037b");
    assert_eq!(format_price_compact(i64::MAX), "9223372037b");
}

#[test]
fn price_value_other_is_no_price() {
    assert_eq!(parse_price_to_i64(&PriceValue::Other), None);
    assert_eq!(parse_price_to_i64(&PriceValue::Number(None)), None);
}

#[test]
fn change_share_needs_a_positive_price() {
    let p = |current: Option<i64>, today_change: Option<i64>| GePrice {
        trend: "neutral".to_string(),
        current,
        today_change,
    };
    assert_eq!(p(Some(200), Some(-5)).change_share(), Some((-5, 200)));
    assert_eq!(p(Some(0), Some(5)).change_share(), None);
    assert_eq!(p(Some(-3), Some(5)).change_share(), None);
    assert_eq!(p(None, Some(5)).change_share(), None);
    assert_eq!(p(Some(10), None).change_share(), None);
}

#[test]
fn compact_text_reads_back() {
    for v in [-999i64, -1, 0, 7, 42, 999] {
        assert_eq!(parse_abbrev(&format_price_compact(v)), Some(v));
    }
    assert_eq!(parse_abbrev(&format_price_compact(1_500_000)), Some(1_500_000));
    assert_eq!(parse_abbrev(&format_price_compact(1_234_567)), Some(1_200_000));
    assert_eq!(parse_abbrev(&format_price_compact(-2_349)), Some(-2_300));
    assert_eq!(parse_abbrev(&format_price_compact(123_456)), Some(123_000));
    assert_eq!(parse_abbrev(&format_price_compact(i64::MIN)), Some(-i64::MAX));
    assert_eq!(parse_abbrev(&format_price_compact(i64::MAX)), Some(i64::MAX));
}

#[test]
fn parse_abbrev_reads_floating_point_notation() {
    assert_eq!(parse_abbrev("1e3"), Some(1_000));
    assert_eq!(parse_abbrev("1.5E3k"), Some(1_500_000));
    assert_eq!(parse_abbrev("2.5e-1"), Some(0));
    assert_eq!(parse_abbrev("5e-1"), Some(1));
    assert_eq!(parse_abbrev("-5e-1"), Some(-1));
    assert_eq!(parse_abbrev("1e+2m"), Some(100_000_000));
    assert_eq!(parse_abbrev("1,e3"), Some(1_000));
    assert_eq!(parse_abbrev("1e400"), Some(i64::MAX));
    assert_eq!(parse_abbrev("1e-400"), Some(0));
    assert_eq!(parse_abbrev("0e99999999999999999999999"), Some(0));
    assert_eq!(parse_abbrev("7e99999999999999999999999"), Some(i64::MAX));
    assert_eq!(parse_abbrev("1e"), None);
    assert_eq!(parse_abbrev("e5"), None);
    assert_eq!(parse_abbrev("1e5.5"), None);
}

#[test]
fn parse_abbrev_reads_inner_signs_and_special_values() {
    assert_eq!(parse_abbrev("--5"), Some(5));
    assert_eq!(parse_abbrev("-+5"), Some(-5));
    assert_eq!(parse_abbrev("+-5k"), Some(-5_000));
    assert_eq!(parse_abbrev("inf"), Some(i64::MAX));
    assert_eq!(parse_abbrev("-Infinity"), Some(-i64::MAX));
    assert_eq!(parse_abbrev("-inf"), Some(-i64::MAX));
    assert_eq!(parse_abbrev("+-INF"), Some(i64::MIN));
    assert_eq!(parse_abbrev("--inf"), Some(i64::MIN));
    assert_eq!(parse_abbrev("NaN"), Some(0));
    assert_eq!(parse_abbrev("-nank"), Some(0));
    assert_eq!(parse_abbrev("infk"), Some(i64::MAX));
    assert_eq!(parse_abbrev("in"), None);
    assert_eq!(parse_abbrev("---5"), None);
}

#[test]
fn decimal_text_reads_back() {
    for n in [0i64, 1, -1, 42, -999_999, 1 << 53, -(1 << 53), i64::MAX, i64::MIN + 1] {
        assert_eq!(parse_abbrev(&n.to_string()), Some(n));
    }
    assert_eq!(parse_abbrev(&i64::MIN.to_string()), Some(-i64::MAX));
}

#[test]
fn abbrev_forms_agree() {
    for s in ["1.5m", "2.3k", "100", "5.5b", "1e3", "inf", "nan"] {
        let x = parse_abbrev(s);
        assert_eq!(parse_abbrev(&format!("+{}", s)), x);
        assert_eq!(parse_abbrev(&format!("  {}\t", s.to_ascii_uppercase())), x);
        assert_eq!(parse_abbrev(&format!(" -{} ", s)), x.map(|v| v.wrapping_neg()));
    }
}

#[test]
fn marking_cached_keeps_the_rest() {
    let g = GeGraph { id: 4, daily: vec![TsPrice { ts_ms: 1, price: 2 }], average: vec![], cached: None };
    let h = g.clone().with_cached(true);
    assert_eq!(h.cached, Some(true));
    assert_eq!(h.daily, g.daily);
    assert_eq!(h.id, 4);
    let l = GeItemList { total: 3, items: vec![], page: Some(2), cached: Some(true) }.with_cached(false);
    assert_eq!(l.cached, Some(false));
    assert_eq!(l.total, 3);
    assert_eq!(l.page, Some(2));
}

#[test]
fn trimming_takes_unicode_white_space() {
    assert_eq!(rs_helper::text::trim_whitespace("\u{85}x y\t\u{3000}"), "x y");
    assert_eq!(rs_helper::text::trim_whitespace(" \u{2028} "), "");
    assert_eq!(rs_helper::text::trim_whitespace("\u{200b}a"), "\u{200b}a");
    assert_eq!(parse_abbrev("\u{a0}\u{2003}1.5k\u{2029}"), Some(1_500));
}
