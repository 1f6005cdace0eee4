//! Logic of the HTML front end: escaping, search, paging and display rows.
use vstd::prelude::*;

use crate::price::{compact_text, div_round_half_even, format_price_compact, magnitude, round_half_even};
use crate::text::{
    chars_of, concat, decimal, opt_text, push_char, push_chars, push_decimal, std_lowercase,
    trimmed, to_lowercase, trim_whitespace,
};
use crate::types::{Game, GeItem};

verus! {

/// How a character is written in HTML text: the five markup characters as
/// entities, every other character as itself.
pub open spec fn escape_char(c: char) -> Seq<char> {
    if c == '&' {
        seq!['&', 'a', 'm', 'p', ';']
    } else if c == '<' {
        seq!['&', 'l', 't', ';']
    } else if c == '>' {
        seq!['&', 'g', 't', ';']
    } else if c == '"' {
        seq!['&', 'q', 'u', 'o', 't', ';']
    } else if c == '\'' {
        seq!['&', '#', 'x', '2', '7', ';']
    } else {
        seq![c]
    }
}

/// `s` escaped for HTML character by character.
pub open spec fn escaped(s: Seq<char>) -> Seq<char>
    decreases s.len(),
{
    if s.len() == 0 {
        s
    } else {
        escaped(s.drop_last()) + escape_char(s.last())
    }
}

fn escape_into(out: &mut String, c: char)
    ensures
        final(out)@ == old(out)@ + escape_char(c),
{
    let rep: Vec<char> = if c == '&' {
        vec!['&', 'a', 'm', 'p', ';']
    } else if c == '<' {
        vec!['&', 'l', 't', ';']
    } else if c == '>' {
        vec!['&', 'g', 't', ';']
    } else if c == '"' {
        vec!['&', 'q', 'u', 'o', 't', ';']
    } else if c == '\'' {
        vec!['&', '#', 'x', '2', '7', ';']
    } else {
        vec![c]
    };
    push_chars(out, &rep);
}

/// Escapes text for inclusion in HTML: `&`, `<`, `>`, `"` and `'` become
/// `&amp;`, `&lt;`, `&gt;`, `&quot;` and `&#x27;`.
pub fn html_escape(s: &str) -> (r: String)
    ensures
        r@ == escaped(s@),
{
    let cs = chars_of(s);
    let mut out = String::new();
    for i in 0..cs.len()
        invariant
            cs@ == s@,
            out@ == escaped(cs@.take(i as int)),
    {
        assert(cs@.take(i + 1).drop_last() == cs@.take(i as int));
        escape_into(&mut out, cs[i]);
    }
    assert(cs@.take(cs@.len() as int) == cs@);
    out
}

/// Escaped text holds no markup character: no `<`, `>`, `"` or `'`.
pub proof fn lemma_escaped_has_no_markup(s: Seq<char>)
    ensures
        forall|i: int|
            0 <= i < escaped(s).len() ==> {
                let c = #[trigger] escaped(s)[i];
                c != '<' && c != '>' && c != '"' && c != '\''
            },
    decreases s.len(),
{
    if s.len() > 0 {
        lemma_escaped_has_no_markup(s.drop_last());
        let pre = escaped(s.drop_last());
        let tail = escape_char(s.last());
        assert forall|i: int| 0 <= i < escaped(s).len() implies {
            let c = #[trigger] escaped(s)[i];
            c != '<' && c != '>' && c != '"' && c != '\''
        } by {
            if i < pre.len() {
                assert(escaped(s)[i] == pre[i]);
            } else {
                assert(escaped(s)[i] == tail[i - pre.len()]);
            }
        }
    }
}

/// `needle` occurs in `hay`.
pub open spec fn contains_text(hay: Seq<char>, needle: Seq<char>) -> bool {
    exists|i: int| 0 <= i && i + needle.len() <= hay.len() && #[trigger] hay.subrange(i, i + needle.len()) == needle
}

/// Whether `needle` occurs in `hay`.
pub fn text_contains(hay: &Vec<char>, needle: &Vec<char>) -> (r: bool)
    ensures
        r == contains_text(hay@, needle@),
{
    let n = needle.len();
    let h = hay.len();
    if n > h {
        assert(!contains_text(hay@, needle@));
        return false;
    }
    let mut i: usize = 0;
    while i <= h - n
        invariant
            n <= h,
            n == needle@.len(),
            h == hay@.len(),
            forall|q: int| 0 <= q < i ==> #[trigger] hay@.subrange(q, q + n) != needle@,
        decreases h - n + 1 - i,
    {
        let mut j: usize = 0;
        while j < n && hay[i + j] == needle[j]
            invariant
                j <= n,
                i + n <= h,
                n == needle@.len(),
                h == hay@.len(),
                forall|q: int| 0 <= q < j ==> hay@[i + q] == needle@[q],
            decreases n - j,
        {
            j = j + 1;
        }
        if j == n {
            assert(hay@.subrange(i as int, i + n) == needle@);
            return true;
        }
        assert(hay@.subrange(i as int, i + n)[j as int] != needle@[j as int]);
        i = i + 1;
    }
    assert forall|q: int| 0 <= q && q + n <= h implies #[trigger] hay@.subrange(q, q + n) != needle@ by {
        assert(q < i);
    }
    false
}

/// The search term as it is matched: trimmed and lower-cased.
pub open spec fn search_key(term: Seq<char>) -> Seq<char> {
    std_lowercase(trimmed(term))
}

/// Whether an item is shown for a search: with no term, or a blank one,
/// every item is; otherwise those whose lower-cased name or description
/// holds the lower-cased, trimmed term.
pub open spec fn item_matches(item: GeItem, term: Option<String>) -> bool {
    match term {
        None => true,
        Some(t) => {
            let key = search_key(t@);
            key.len() == 0 || contains_text(std_lowercase(item.name@), key) || match item.description {
                Some(d) => contains_text(std_lowercase(d@), key),
                None => false,
            }
        },
    }
}

/// The items of `items` that match the search, in order.
pub open spec fn matching_items(items: Seq<GeItem>, term: Option<String>) -> Seq<GeItem>
    decreases items.len(),
{
    if items.len() == 0 {
        items
    } else {
        let pre = matching_items(items.drop_last(), term);
        if item_matches(items.last(), term) {
            pre.push(items.last())
        } else {
            pre
        }
    }
}

/// Every item a search shows matches the search, no item is shown twice or
/// out of order (the shown items are a sub-sequence), and a missing or blank
/// term shows every item.
pub proof fn lemma_matching_items(items: Seq<GeItem>, term: Option<String>)
    ensures
        forall|i: int| 0 <= i < matching_items(items, term).len() ==> item_matches(
            #[trigger] matching_items(items, term)[i],
            term,
        ),
        matching_items(items, term).len() <= items.len(),
        matching_items(items, term).to_multiset().subset_of(items.to_multiset()),
        (term is None || search_key(term->0@).len() == 0) ==> matching_items(items, term) == items,
    decreases items.len(),
{
    broadcast use vstd::multiset::group_multiset_axioms;

    if items.len() > 0 {
        let pre = items.drop_last();
        lemma_matching_items(pre, term);
        let mp = matching_items(pre, term);
        vstd::seq_lib::to_multiset_build(pre, items.last());
        assert(pre.push(items.last()) == items);
        if item_matches(items.last(), term) {
            vstd::seq_lib::to_multiset_build(mp, items.last());
            assert forall|i: int| 0 <= i < mp.push(items.last()).len() implies item_matches(
                #[trigger] mp.push(items.last())[i],
                term,
            ) by {
                if i < mp.len() {
                    assert(mp.push(items.last())[i] == mp[i]);
                }
            }
        }
    }
}

/// Search ignores case: an item is shown for a term exactly when the term,
/// trimmed and lower-cased, is blank or occurs in the lower-cased name or
/// the lower-cased description; without a term every item is shown.
pub proof fn lemma_search_ignores_case(item: GeItem, t: String)
    ensures
        item_matches(item, None),
        item_matches(item, Some(t)) <==> ({
            let k = std_lowercase(trimmed(t@));
            let n = std_lowercase(item.name@);
            ||| k.len() == 0
            ||| exists|i: int| 0 <= i && i + k.len() <= n.len() && #[trigger] n.subrange(i, i + k.len()) == k
            ||| (item.description is Some && exists|i: int|
                0 <= i && i + k.len() <= std_lowercase(item.description->0@).len()
                    && #[trigger] std_lowercase(item.description->0@).subrange(i, i + k.len()) == k)
        }),
{
}

/// The search keeps every matching item and only those, in their order: the
/// shown list is the input filtered by the search, so an item that does not
/// match never hides the matching items after it.
pub proof fn lemma_filter_keeps_matches(items: Seq<GeItem>, term: Option<String>)
    ensures
        matching_items(items, term) == items.filter(|x: GeItem| item_matches(x, term)),
        forall|i: int|
            0 <= i < items.len() && item_matches(items[i], term) ==> matching_items(
                items,
                term,
            ).contains(#[trigger] items[i]),
    decreases items.len(),
{
    reveal(Seq::filter);
    if items.len() > 0 {
        lemma_filter_keeps_matches(items.drop_last(), term);
    }
    let p = |x: GeItem| item_matches(x, term);
    assert(matching_items(items, term) == items.filter(p));
    assert forall|i: int| 0 <= i < items.len() && item_matches(items[i], term) implies matching_items(
        items,
        term,
    ).contains(#[trigger] items[i]) by {
        items.lemma_filter_contains(p, i);
    }
}

fn lowered_chars(s: &str) -> (v: Vec<char>)
    ensures
        v@ == std_lowercase(s@),
{
    let l = to_lowercase(s);
    chars_of(l.as_str())
}

/// Whether one item matches the search term.
pub fn matches_search(item: &GeItem, term: &Option<String>) -> (r: bool)
    ensures
        r == item_matches(*item, *term),
{
    match term {
        None => true,
        Some(t) => {
            let bare = trim_whitespace(t.as_str());
            let key = lowered_chars(bare.as_str());
            if key.len() == 0 {
                return true;
            }
            let name = lowered_chars(item.name.as_str());
            if text_contains(&name, &key) {
                return true;
            }
            match &item.description {
                Some(d) => {
                    let desc = lowered_chars(d.as_str());
                    text_contains(&desc, &key)
                },
                None => false,
            }
        },
    }
}

/// Keeps the items that match the search term, in order.
pub fn filter_items(items: Vec<GeItem>, term: &Option<String>) -> (r: Vec<GeItem>)
    ensures
        r@ == matching_items(items@, *term),
{
    let mut out: Vec<GeItem> = Vec::new();
    let ghost all = items@;
    for item in it: items.into_iter()
        invariant
            it.seq() == all,
            out@ == matching_items(all.take(it.index() as int), *term),
    {
        let ghost k = it.index();
        assert(all.take(k + 1).drop_last() == all.take(k as int));
        if matches_search(&item, term) {
            out.push(item);
        }
    }
    assert(all.take(all.len() as int) == all);
    out
}

/// Rows shown per page of the listing.
pub open spec fn items_per_page() -> nat {
    50
}

/// The rows shown from a filtered list and whether paging links are shown:
/// at most fifty rows, and more pages are offered when rows were cut or
/// this is not the first page.
pub fn page_of_items(items: Vec<GeItem>, page: u32) -> (r: (Vec<GeItem>, bool))
    ensures
        r.1 == (items@.len() > items_per_page() || page > 1),
        r.0@ == if items@.len() > items_per_page() {
            items@.take(items_per_page() as int)
        } else {
            items@
        },
{
    let total_items = items.len();
    let has_more = total_items > 50 || page > 1;
    let mut items = items;
    if items.len() > 50 {
        items.truncate(50);
    }
    (items, has_more)
}

/// A listing row as the front end shows it.
#[derive(Debug, Clone)]
pub struct UiItem {
    pub id: i64,
    pub name: String,
    pub category_name: String,
    pub members: bool,
    pub price_current: String,
    pub price_trend: String,
    pub price_change_percent: String,
    pub icon_small: String,
}

/// The details dialog of an item.
#[derive(Debug, Clone)]
pub struct UiItemDetail {
    pub id: i64,
    pub name: String,
    pub description: String,
    pub price_current: String,
    pub price_change: String,
    pub members: bool,
    pub icon_large: String,
}

/// The placeholder text for a missing value: an em dash.
pub open spec fn missing_text() -> Seq<char> {
    seq!['\u{2014}']
}

/// Today's change as a percentage of the current price with one decimal
/// (a tie going to the even digit), `+` before a rise and `-` before a fall;
/// a dash when either price is missing or the current price is not positive.
pub open spec fn change_percent_text(current: Option<i64>, change: Option<i64>) -> Seq<char> {
    match (current, change) {
        (Some(c), Some(t)) => if c > 0 {
            let r: nat = round_half_even(1000 * magnitude(t as int), c as nat);
            let sign = if t > 0 {
                seq!['+']
            } else if t < 0 {
                seq!['-']
            } else {
                Seq::<char>::empty()
            };
            sign + decimal(r / 10) + seq!['.'] + decimal(r % 10) + seq!['%']
        } else {
            missing_text()
        },
        _ => missing_text(),
    }
}

/// Writes today's change as a percentage of the current price.
pub fn format_change_percent(current: Option<i64>, change: Option<i64>) -> (s: String)
    ensures
        s@ == change_percent_text(current, change),
{
    let mut s = String::new();
    match (current, change) {
        (Some(c), Some(t)) => {
            if c > 0 {
                let a: u128 = if t < 0 {
                    ((-(t + 1)) as u128) + 1
                } else {
                    t as u128
                };
                assert(a as nat == magnitude(t as int));
                let cu = c as u128;
                let r: u128 = div_round_half_even(1000 * a, cu);
                if t > 0 {
                    push_char(&mut s, '+');
                } else if t < 0 {
                    push_char(&mut s, '-');
                }
                push_decimal(&mut s, r / 10);
                push_char(&mut s, '.');
                push_decimal(&mut s, r % 10);
                push_char(&mut s, '%');
                return s;
            }
        },
        _ => {},
    }
    push_char(&mut s, '\u{2014}');
    s
}

/// The current price of a row: compact, or a dash when unknown.
pub open spec fn current_price_text(current: Option<i64>) -> Seq<char> {
    match current {
        Some(v) => compact_text(v as int),
        None => missing_text(),
    }
}

impl UiItem {
    /// The listing row of an item.
    pub fn from_item(item: GeItem) -> (u: UiItem)
        ensures
            u.id == item.id,
            u.name@ == item.name@,
            u.category_name@ == item.category_name@,
            u.members == item.members,
            u.price_current@ == current_price_text(item.price.current),
            u.price_trend@ == item.price.trend@,
            u.price_change_percent@ == change_percent_text(item.price.current, item.price.today_change),
            u.icon_small@ == item.icons.small@,
    {
        let price_change_percent = format_change_percent(item.price.current, item.price.today_change);
        let price_current = match item.price.current {
            Some(v) => format_price_compact(v),
            None => {
                let mut s = String::new();
                push_char(&mut s, '\u{2014}');
                s
            },
        };
        UiItem {
            id: item.id,
            name: item.name,
            category_name: item.category_name,
            members: item.members,
            price_current,
            price_trend: item.price.trend,
            price_change_percent,
            icon_small: item.icons.small,
        }
    }
}

/// Query of the listing fragment of the front end.
#[derive(Debug, Clone)]
pub struct UiItemsQuery {
    pub category: i32,
    pub alpha: Option<String>,
    /// Search term.
    pub q: Option<String>,
    pub game: Game,
    pub page: Option<u32>,
}

/// The details dialog shown before an item's details are loaded.
pub fn placeholder_item_detail(id: i64) -> (d: UiItemDetail)
    ensures
        d.id == id,
        d.name@ == "Item Details"@,
        d.description@ == "Loading..."@,
        d.price_current@ == "-"@,
        d.price_change@ == "-"@,
        !d.members,
        d.icon_large@ == ""@,
{
    UiItemDetail {
        id,
        name: "Item Details".to_string(),
        description: "Loading...".to_string(),
        price_current: "-".to_string(),
        price_change: "-".to_string(),
        members: false,
        icon_large: "".to_string(),
    }
}

/// The HTML fragment that reports a failed listing, the message escaped.
pub open spec fn error_fragment_text(message: Seq<char>) -> Seq<char> {
    error_fragment_head()@ + escaped(message) + error_fragment_tail()@
}

/// The markup before the message of an error fragment.
pub open spec fn error_fragment_head() -> &'static str {
    "<div class=\"error\">\n                    <svg style=\"width: 24px; height: 24px;\" fill=\"none\" stroke=\"currentColor\" viewBox=\"0 0 24 24\">\n                        <path stroke-linecap=\"round\" stroke-linejoin=\"round\" stroke-width=\"2\" \n                              d=\"M12 8v4m0 4h.01M21 12a9 9 0 11-18 0 9 9 0 0118 0z\"/>\n                    </svg>\n                    <span>"
}

/// The markup after the message of an error fragment.
pub open spec fn error_fragment_tail() -> &'static str {
    "</span>\n                </div>"
}

/// The HTML fragment that reports a failed listing.
pub fn error_fragment(message: &str) -> (s: String)
    ensures
        s@ == error_fragment_text(message@),
{
    let escaped_message = html_escape(message);
    let head = concat(
        "<div class=\"error\">\n                    <svg style=\"width: 24px; height: 24px;\" fill=\"none\" stroke=\"currentColor\" viewBox=\"0 0 24 24\">\n                        <path stroke-linecap=\"round\" stroke-linejoin=\"round\" stroke-width=\"2\" \n                              d=\"M12 8v4m0 4h.01M21 12a9 9 0 11-18 0 9 9 0 0118 0z\"/>\n                    </svg>\n                    <span>",
        escaped_message.as_str(),
    );
    concat(head.as_str(), "</span>\n                </div>")
}

} // verus!
