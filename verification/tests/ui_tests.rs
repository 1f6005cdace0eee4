use rs_helper::metrics::{record_cache_hit, record_cache_miss, record_request, record_response, record_upstream_request, update_cache_size, MetricUpdate, RequestTimer};
use rs_helper::rate_limit::{admission, direct_quota, ip_admission, per_ip_rate, Admission};
use rs_helper::config::Config;
use rs_helper::types::{GeIcons, GeItem, GePrice};
use rs_helper::ui::{
    error_fragment, filter_items, format_change_percent, html_escape, page_of_items, placeholder_item_detail, UiItem,
};

fn item(name: &str, description: Option<&str>, current: Option<i64>, change: Option<i64>) -> GeItem {
    GeItem {
        id: 1,
        name: name.to_string(),
        category_id: 0,
        category_name: "Miscellaneous".to_string(),
        members: false,
        icons: GeIcons { small: "s".to_string(), large: "l".to_string() },
        price: GePrice { trend: "neutral".to_string(), current, today_change: change },
        description: description.map(|d| d.to_string()),
        cached: None,
    }
}

#[test]
fn escaping() {
    assert_eq!(html_escape("<a href=\"x\">Tom & 'Jerry'</a>"), "&lt;a href=&quot;x&quot;&gt;Tom &amp; &#x27;Jerry&#x27;&lt;/a&gt;");
    assert_eq!(html_escape("plain"), "plain");
    assert!(error_fragment("<b>").contains("<span>&lt;b&gt;</span>"));
    assert!(error_fragment("x").starts_with("<div class=\"error\">"));
}

#[test]
fn search_and_paging() {
    let items = vec![
        item("Abyssal whip", None, None, None),
        item("Rune scimitar", Some("A WHIP-like sword"), None, None),
        item("Bones", None, None, None),
    ];
    let found = filter_items(items.clone(), &Some("  Whip ".to_string()));
    assert_eq!(found.len(), 2);
    assert_eq!(found[1].name, "Rune scimitar");
    assert_eq!(filter_items(items.clone(), &Some("   ".to_string())).len(), 3);
    assert_eq!(filter_items(items.clone(), &None).len(), 3);
    assert_eq!(filter_items(items.clone(), &Some("dragon".to_string())).len(), 0);

    let many: Vec<GeItem> = (0..60).map(|i| item(&format!("item {i}"), None, None, None)).collect();
    let (shown, more) = page_of_items(many, 1);
    assert_eq!(shown.len(), 50);
    assert!(more);
    let (shown, more) = page_of_items(items.clone(), 1);
    assert_eq!(shown.len(), 3);
    assert!(!more);
    let (_, more) = page_of_items(items, 2);
    assert!(more);
}

#[test]
fn listing_rows() {
    let row = UiItem::from_item(item("Whip", None, Some(2_500_000), Some(50_000)));
    assert_eq!(row.price_current, "2.5m");
    assert_eq!(row.price_change_percent, "+2.0%");
    let row = UiItem::from_item(item("Whip", None, None, Some(5)));
    assert_eq!(row.price_current, "\u{2014}");
    assert_eq!(row.price_change_percent, "\u{2014}");
    assert_eq!(format_change_percent(Some(1000), Some(-25)), "-2.5%");
    assert_eq!(format_change_percent(Some(1000), Some(0)), "0.0%");
    assert_eq!(format_change_percent(Some(100000), Some(-4)), "-0.0%");
    assert_eq!(format_change_percent(Some(0), Some(5)), "\u{2014}");
    assert_eq!(format_change_percent(Some(16), Some(1)), "+6.2%");
    assert_eq!(format_change_percent(Some(16), Some(-3)), "-18.8%");
    assert_eq!(format_change_percent(Some(400), Some(1)), "+0.2%");
    let d = placeholder_item_detail(9);
    assert_eq!(d.id, 9);
    assert_eq!(d.name, "Item Details");
}

#[test]
fn metrics_events() {
    let e = record_request("/v1/ge/items", "GET");
    assert_eq!(e.name, "rs_helper_requests_total");
    assert_eq!(e.labels, vec![("endpoint".to_string(), "/v1/ge/items".to_string()), ("method".to_string(), "GET".to_string())]);
    assert_eq!(e.update, MetricUpdate::Increment(1));
    assert_eq!(record_cache_hit("graph").name, "rs_helper_cache_hits_total");
    assert_eq!(record_cache_miss("graph").labels, vec![("type".to_string(), "graph".to_string())]);
    assert_eq!(update_cache_size(7).update, MetricUpdate::SetTo(7));
    let r = record_response("/v1/ge/graph", 503);
    assert_eq!(r.name, "rs_helper_responses_total");
    assert_eq!(r.labels, vec![("endpoint".to_string(), "/v1/ge/graph".to_string()), ("status".to_string(), "503".to_string())]);
    assert_eq!(r.update, MetricUpdate::Increment(1));
    assert_eq!(record_response("/", 0).labels[1].1, "0");
    let u = record_upstream_request("runescape_api", false);
    assert_eq!(u.name, "rs_helper_upstream_requests_total");
    assert_eq!(u.labels, vec![("upstream".to_string(), "runescape_api".to_string()), ("success".to_string(), "false".to_string())]);
    assert_eq!(record_upstream_request("x", true).labels[1].1, "true");
    let t = RequestTimer::new("/about").record(200);
    assert_eq!(t.endpoint, "/about");
    assert_eq!(t.status, 200);
    assert_eq!(t.counter.name, "rs_helper_responses_total");
    assert_eq!(t.counter.labels, record_response("/about", 200).labels);
    assert_eq!(t.counter.update, MetricUpdate::Increment(1));
    assert_eq!(t.duration_name, "rs_helper_request_duration_seconds");
}

#[test]
fn test_rate_limiting() {
    let cfg = Config::default().rate_limit;
    assert_eq!(direct_quota(&cfg), (50, 100));
    assert_eq!(per_ip_rate(&cfg), 25);
    assert_eq!(admission(true, true), Admission::Pass);
    assert_eq!(admission(false, false), Admission::Pass);
    match admission(true, false) {
        Admission::Reject(b) => {
            assert_eq!(b.code, "rate_limit_exceeded");
            assert_eq!(b.message, "Too many requests. Please try again later.");
        }
        Admission::Pass => panic!("a refused request passed"),
    }
    match ip_admission(true, false, "10.0.0.1") {
        Admission::Reject(b) => {
            assert_eq!(b.code, "ip_rate_limit_exceeded");
            assert_eq!(b.message, "Too many requests from IP 10.0.0.1. Please slow down.");
        }
        Admission::Pass => panic!("a refused request passed"),
    }
    let mut zero = cfg.clone();
    zero.requests_per_second = 0;
    zero.burst_size = 0;
    assert_eq!(direct_quota(&zero), (50, 100));
    assert_eq!(per_ip_rate(&zero), 25);
}
