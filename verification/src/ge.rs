//! The Grand Exchange logic of the gateway: categories, request checks,
//! reading upstream items and price graphs, and the retry policy for
//! upstream calls.
use std::collections::HashMap;
use vstd::prelude::*;

use crate::cache::{CacheKey, KeyView};
use crate::errors::AppError;
use crate::text::{
    chars_of, clone_opt_string, concat, decimal, i64_of_text, opt_text, parse_i64, push_decimal,
    push_signed_decimal, signed_decimal, str_equal, string_or, text_or,
};
use crate::types::{
    Game, GeCategories, GeCategory, GeIcons, GeItem, GeItemList, GePrice, ItemsQuery, PriceValue,
    RawItem, GeGraph, TsPrice, game_name, parse_price_to_i64, price_of,
};

verus! {

/// The RuneScape 3 item categories, in id order.
pub open spec fn rs3_categories() -> Seq<GeCategory> {
    seq![
        GeCategory { id: 0, name: "Miscellaneous" },
        GeCategory { id: 1, name: "Ammo" },
        GeCategory { id: 2, name: "Arrows" },
        GeCategory { id: 3, name: "Bolts" },
        GeCategory { id: 4, name: "Construction materials" },
        GeCategory { id: 5, name: "Construction products" },
        GeCategory { id: 6, name: "Cooking ingredients" },
        GeCategory { id: 7, name: "Costumes" },
        GeCategory { id: 8, name: "Crafting materials" },
        GeCategory { id: 9, name: "Familiars" },
        GeCategory { id: 10, name: "Farming produce" },
        GeCategory { id: 11, name: "Fletching materials" },
        GeCategory { id: 12, name: "Food and Drink" },
        GeCategory { id: 13, name: "Herblore materials" },
        GeCategory { id: 14, name: "Hunting equipment" },
        GeCategory { id: 15, name: "Hunting Produce" },
        GeCategory { id: 16, name: "Jewellery" },
        GeCategory { id: 17, name: "Mage armour" },
        GeCategory { id: 18, name: "Mage weapons" },
        GeCategory { id: 19, name: "Melee armour - low level" },
        GeCategory { id: 20, name: "Melee armour - mid level" },
        GeCategory { id: 21, name: "Melee armour - high level" },
        GeCategory { id: 22, name: "Melee weapons - low level" },
        GeCategory { id: 23, name: "Melee weapons - mid level" },
        GeCategory { id: 24, name: "Melee weapons - high level" },
        GeCategory { id: 25, name: "Mining and Smithing" },
        GeCategory { id: 26, name: "Potions" },
        GeCategory { id: 27, name: "Prayer armour" },
        GeCategory { id: 28, name: "Prayer materials" },
        GeCategory { id: 29, name: "Range armour" },
        GeCategory { id: 30, name: "Range weapons" },
        GeCategory { id: 31, name: "Runecrafting" },
        GeCategory { id: 32, name: "Runes, Spells and Teleports" },
        GeCategory { id: 33, name: "Seeds" },
        GeCategory { id: 34, name: "Summoning scrolls" },
        GeCategory { id: 35, name: "Tools and containers" },
        GeCategory { id: 36, name: "Woodcutting product" },
        GeCategory { id: 37, name: "Pocket items" },
        GeCategory { id: 38, name: "Stone spirits" },
        GeCategory { id: 39, name: "Salvage" },
        GeCategory { id: 40, name: "Firemaking products" },
        GeCategory { id: 41, name: "Archaeology materials" },
        GeCategory { id: 42, name: "Wood spirits" },
        GeCategory { id: 43, name: "Necromancy armour" },
    ]
}

/// The Old School RuneScape item categories.
pub open spec fn osrs_categories() -> Seq<GeCategory> {
    seq![GeCategory { id: 1, name: "All items (OSRS)" }]
}

/// The RuneScape 3 item categories, in id order.
pub fn categories() -> (v: Vec<GeCategory>)
    ensures
        v@ == rs3_categories(),
{
    vec![
        GeCategory { id: 0, name: "Miscellaneous" },
        GeCategory { id: 1, name: "Ammo" },
        GeCategory { id: 2, name: "Arrows" },
        GeCategory { id: 3, name: "Bolts" },
        GeCategory { id: 4, name: "Construction materials" },
        GeCategory { id: 5, name: "Construction products" },
        GeCategory { id: 6, name: "Cooking ingredients" },
        GeCategory { id: 7, name: "Costumes" },
        GeCategory { id: 8, name: "Crafting materials" },
        GeCategory { id: 9, name: "Familiars" },
        GeCategory { id: 10, name: "Farming produce" },
        GeCategory { id: 11, name: "Fletching materials" },
        GeCategory { id: 12, name: "Food and Drink" },
        GeCategory { id: 13, name: "Herblore materials" },
        GeCategory { id: 14, name: "Hunting equipment" },
        GeCategory { id: 15, name: "Hunting Produce" },
        GeCategory { id: 16, name: "Jewellery" },
        GeCategory { id: 17, name: "Mage armour" },
        GeCategory { id: 18, name: "Mage weapons" },
        GeCategory { id: 19, name: "Melee armour - low level" },
        GeCategory { id: 20, name: "Melee armour - mid level" },
        GeCategory { id: 21, name: "Melee armour - high level" },
        GeCategory { id: 22, name: "Melee weapons - low level" },
        GeCategory { id: 23, name: "Melee weapons - mid level" },
        GeCategory { id: 24, name: "Melee weapons - high level" },
        GeCategory { id: 25, name: "Mining and Smithing" },
        GeCategory { id: 26, name: "Potions" },
        GeCategory { id: 27, name: "Prayer armour" },
        GeCategory { id: 28, name: "Prayer materials" },
        GeCategory { id: 29, name: "Range armour" },
        GeCategory { id: 30, name: "Range weapons" },
        GeCategory { id: 31, name: "Runecrafting" },
        GeCategory { id: 32, name: "Runes, Spells and Teleports" },
        GeCategory { id: 33, name: "Seeds" },
        GeCategory { id: 34, name: "Summoning scrolls" },
        GeCategory { id: 35, name: "Tools and containers" },
        GeCategory { id: 36, name: "Woodcutting product" },
        GeCategory { id: 37, name: "Pocket items" },
        GeCategory { id: 38, name: "Stone spirits" },
        GeCategory { id: 39, name: "Salvage" },
        GeCategory { id: 40, name: "Firemaking products" },
        GeCategory { id: 41, name: "Archaeology materials" },
        GeCategory { id: 42, name: "Wood spirits" },
        GeCategory { id: 43, name: "Necromancy armour" },
    ]
}

/// The category listing served by the categories endpoint.
pub fn categories_listing() -> (r: GeCategories)
    ensures
        r.categories@ == rs3_categories(),
        r.cached == Some(false),
{
    GeCategories { categories: categories(), cached: Some(false) }
}

/// The id-to-name lookup a category table gives: a later entry with the
/// same id replaces an earlier one.
pub open spec fn table_map(t: Seq<GeCategory>) -> Map<i32, &'static str>
    decreases t.len(),
{
    if t.len() == 0 {
        Map::empty()
    } else {
        table_map(t.drop_last()).insert(t.last().id, t.last().name)
    }
}

/// The id-to-name lookup of a category table.
fn table_lookup(t: &Vec<GeCategory>) -> (m: HashMap<i32, &'static str>)
    ensures
        m@ == table_map(t@),
{
    broadcast use vstd::std_specs::hash::group_hash_axioms;

    let mut m: HashMap<i32, &'static str> = HashMap::new();
    assert(t@.take(0) =~= Seq::<GeCategory>::empty());
    for i in 0..t.len()
        invariant
            m@ == table_map(t@.take(i as int)),
    {
        assert(t@.take(i + 1).drop_last() == t@.take(i as int));
        m.insert(t[i].id, t[i].name);
    }
    assert(t@.take(t@.len() as int) == t@);
    m
}

/// The RuneScape 3 category table as an id-to-name lookup.
pub fn categories_map() -> (m: HashMap<i32, &'static str>)
    ensures
        m@ == table_map(rs3_categories()),
{
    table_lookup(&categories())
}

/// The upstream base URL of a game.
pub open spec fn base_url_of(game: Game) -> Seq<char> {
    match game {
        Game::Rs3 => "https://secure.runescape.com/m=itemdb_rs"@,
        Game::Osrs => "https://secure.runescape.com/m=itemdb_oldschool"@,
    }
}

/// The category table used to name a game's item categories.
pub open spec fn category_table_of(game: Game) -> Seq<GeCategory> {
    match game {
        Game::Rs3 => rs3_categories(),
        Game::Osrs => osrs_categories(),
    }
}

/// The upstream base URL of a game and the table naming its categories.
pub fn base_urls(game: Game) -> (r: (&'static str, HashMap<i32, &'static str>))
    ensures
        r.0@ == base_url_of(game),
        r.1@ == table_map(category_table_of(game)),
{
    match game {
        Game::Rs3 => ("https://secure.runescape.com/m=itemdb_rs", categories_map()),
        Game::Osrs => {
            let t = vec![GeCategory { id: 1, name: "All items (OSRS)" }];
            assert(t@ == osrs_categories());
            ("https://secure.runescape.com/m=itemdb_oldschool", table_lookup(&t))
        },
    }
}

/// The code of `c` with ASCII upper-case letters folded to lower case.
pub open spec fn ascii_fold(c: char) -> u32 {
    if 'A' <= c && c <= 'Z' {
        (c as u32 + 32) as u32
    } else {
        c as u32
    }
}

/// `a` and `b` are equal when ASCII letters are compared without case.
pub open spec fn eq_ignore_ascii_case(a: Seq<char>, b: Seq<char>) -> bool {
    a.len() == b.len() && forall|i: int| 0 <= i < a.len() ==> ascii_fold(#[trigger] a[i]) == ascii_fold(b[i])
}

fn fold_char(c: char) -> (r: u32)
    ensures
        r == ascii_fold(c),
{
    if 'A' <= c && c <= 'Z' {
        c as u32 + 32
    } else {
        c as u32
    }
}

/// Whether `a` and `b` are equal up to the case of ASCII letters, the
/// comparison std's `str::eq_ignore_ascii_case` makes.
pub fn str_eq_ignore_ascii_case(a: &str, b: &str) -> (r: bool)
    ensures
        r == eq_ignore_ascii_case(a@, b@),
{
    let x = chars_of(a);
    let y = chars_of(b);
    if x.len() != y.len() {
        return false;
    }
    let mut i: usize = 0;
    while i < x.len()
        invariant
            x@ == a@,
            y@ == b@,
            x@.len() == y@.len(),
            i <= x@.len(),
            forall|q: int| 0 <= q < i ==> ascii_fold(#[trigger] x@[q]) == ascii_fold(y@[q]),
        decreases x@.len() - i,
    {
        if fold_char(x[i]) != fold_char(y[i]) {
            return false;
        }
        i = i + 1;
    }
    true
}

/// The id of the first category in `table` whose name matches `name`
/// without regard to ASCII case, or -1 when none does.
pub open spec fn id_by_name(table: Seq<GeCategory>, name: Seq<char>) -> i32
    decreases table.len(),
{
    if table.len() == 0 {
        -1i32
    } else if eq_ignore_ascii_case(table[0].name@, name) {
        table[0].id
    } else {
        id_by_name(table.drop_first(), name)
    }
}

/// The RuneScape 3 category id named by `name` (ASCII case ignored), or -1.
pub fn category_id_from_name(name: &str) -> (id: i32)
    ensures
        id == id_by_name(rs3_categories(), name@),
{
    let table = categories();
    let mut i: usize = 0;
    assert(table@.skip(0) == table@);
    while i < table.len()
        invariant
            table@ == rs3_categories(),
            i <= table@.len(),
            id_by_name(table@, name@) == id_by_name(table@.skip(i as int), name@),
        decreases table@.len() - i,
    {
        assert(table@.skip(i as int)[0] == table@[i as int]);
        assert(table@.skip(i as int).drop_first() == table@.skip(i + 1));
        if str_eq_ignore_ascii_case(table[i].name, name) {
            return table[i].id;
        }
        i = i + 1;
    }
    -1
}

/// Some category of `t` is named `s`, ASCII case ignored.
pub open spec fn names_any(t: Seq<GeCategory>, s: Seq<char>) -> bool
    decreases t.len(),
{
    t.len() > 0 && (eq_ignore_ascii_case(t[0].name@, s) || names_any(t.drop_first(), s))
}

/// No two categories of `t` have the same name, ASCII case ignored.
pub open spec fn names_unique(t: Seq<GeCategory>) -> bool
    decreases t.len(),
{
    t.len() == 0 || (!names_any(t.drop_first(), t[0].name@) && names_unique(t.drop_first()))
}

proof fn lemma_names_any(t: Seq<GeCategory>, i: int, s: Seq<char>)
    requires
        0 <= i < t.len(),
        eq_ignore_ascii_case(t[i].name@, s),
    ensures
        names_any(t, s),
    decreases t.len(),
{
    if i > 0 {
        assert(t.drop_first()[i - 1] == t[i]);
        lemma_names_any(t.drop_first(), i - 1, s);
    }
}

/// In a table whose names are unique, a name read without regard to ASCII
/// case gives its category's id, and a name of no category gives -1.
proof fn lemma_id_by_unique_name(t: Seq<GeCategory>, i: int, s: Seq<char>)
    requires
        names_unique(t),
        0 <= i < t.len(),
        eq_ignore_ascii_case(t[i].name@, s),
    ensures
        id_by_name(t, s) == t[i].id,
    decreases t.len(),
{
    if i > 0 {
        if eq_ignore_ascii_case(t[0].name@, s) {
            assert(eq_ignore_ascii_case(t[i].name@, t[0].name@)) by {
                assert forall|k: int| 0 <= k < t[i].name@.len() implies ascii_fold(
                    #[trigger] t[i].name@[k],
                ) == ascii_fold(t[0].name@[k]) by {
                    assert(ascii_fold(t[i].name@[k]) == ascii_fold(s[k]));
                    assert(ascii_fold(t[0].name@[k]) == ascii_fold(s[k]));
                }
            }
            assert(t.drop_first()[i - 1] == t[i]);
            lemma_names_any(t.drop_first(), i - 1, t[0].name@);
        }
        assert(t.drop_first()[i - 1] == t[i]);
        lemma_id_by_unique_name(t.drop_first(), i - 1, s);
    }
}

proof fn lemma_id_by_unknown_name(t: Seq<GeCategory>, s: Seq<char>)
    requires
        forall|j: int| 0 <= j < t.len() ==> !eq_ignore_ascii_case(#[trigger] t[j].name@, s),
    ensures
        id_by_name(t, s) == -1,
    decreases t.len(),
{
    if t.len() > 0 {
        assert(!eq_ignore_ascii_case(t[0].name@, s));
        assert forall|j: int| 0 <= j < t.drop_first().len() implies !eq_ignore_ascii_case(
            #[trigger] t.drop_first()[j].name@,
            s,
        ) by {
            assert(t.drop_first()[j] == t[j + 1]);
        }
        lemma_id_by_unknown_name(t.drop_first(), s);
    }
}

/// The RuneScape 3 category names are unique, ASCII case ignored.
#[verifier::rlimit(100)]
#[verifier::spinoff_prover]
proof fn lemma_rs3_names_unique()
    ensures
        names_unique(rs3_categories()),
{
    reveal_strlit("Miscellaneous");
    reveal_strlit("Ammo");
    reveal_strlit("Arrows");
    reveal_strlit("Bolts");
    reveal_strlit("Construction materials");
    reveal_strlit("Construction products");
    reveal_strlit("Cooking ingredients");
    reveal_strlit("Costumes");
    reveal_strlit("Crafting materials");
    reveal_strlit("Familiars");
    reveal_strlit("Farming produce");
    reveal_strlit("Fletching materials");
    reveal_strlit("Food and Drink");
    reveal_strlit("Herblore materials");
    reveal_strlit("Hunting equipment");
    reveal_strlit("Hunting Produce");
    reveal_strlit("Jewellery");
    reveal_strlit("Mage armour");
    reveal_strlit("Mage weapons");
    reveal_strlit("Melee armour - low level");
    reveal_strlit("Melee armour - mid level");
    reveal_strlit("Melee armour - high level");
    reveal_strlit("Melee weapons - low level");
    reveal_strlit("Melee weapons - mid level");
    reveal_strlit("Melee weapons - high level");
    reveal_strlit("Mining and Smithing");
    reveal_strlit("Potions");
    reveal_strlit("Prayer armour");
    reveal_strlit("Prayer materials");
    reveal_strlit("Range armour");
    reveal_strlit("Range weapons");
    reveal_strlit("Runecrafting");
    reveal_strlit("Runes, Spells and Teleports");
    reveal_strlit("Seeds");
    reveal_strlit("Summoning scrolls");
    reveal_strlit("Tools and containers");
    reveal_strlit("Woodcutting product");
    reveal_strlit("Pocket items");
    reveal_strlit("Stone spirits");
    reveal_strlit("Salvage");
    reveal_strlit("Firemaking products");
    reveal_strlit("Archaeology materials");
    reveal_strlit("Wood spirits");
    reveal_strlit("Necromancy armour");
    assert(ascii_fold("Miscellaneous"@[0]) != ascii_fold("Prayer armour"@[0]));
    assert(ascii_fold("Miscellaneous"@[0]) != ascii_fold("Range weapons"@[0]));
    assert(ascii_fold("Miscellaneous"@[0]) != ascii_fold("Stone spirits"@[0]));
    assert(ascii_fold("Bolts"@[0]) != ascii_fold("Seeds"@[0]));
    assert(ascii_fold("Construction products"@[0]) != ascii_fold("Archaeology materials"@[0]));
    assert(ascii_fold("Cooking ingredients"@[0]) != ascii_fold("Fletching materials"@[0]));
    assert(ascii_fold("Cooking ingredients"@[0]) != ascii_fold("Mining and Smithing"@[0]));
    assert(ascii_fold("Cooking ingredients"@[0]) != ascii_fold("Woodcutting product"@[0]));
    assert(ascii_fold("Cooking ingredients"@[0]) != ascii_fold("Firemaking products"@[0]));
    assert(ascii_fold("Crafting materials"@[0]) != ascii_fold("Herblore materials"@[0]));
    assert(ascii_fold("Familiars"@[0]) != ascii_fold("Jewellery"@[0]));
    assert(ascii_fold("Farming produce"@[0]) != ascii_fold("Hunting Produce"@[0]));
    assert(ascii_fold("Fletching materials"@[0]) != ascii_fold("Mining and Smithing"@[0]));
    assert(ascii_fold("Fletching materials"@[0]) != ascii_fold("Woodcutting product"@[0]));
    assert(ascii_fold("Fletching materials"@[1]) != ascii_fold("Firemaking products"@[1]));
    assert(ascii_fold("Hunting equipment"@[0]) != ascii_fold("Summoning scrolls"@[0]));
    assert(ascii_fold("Hunting equipment"@[0]) != ascii_fold("Necromancy armour"@[0]));
    assert(ascii_fold("Mage weapons"@[0]) != ascii_fold("Range armour"@[0]));
    assert(ascii_fold("Mage weapons"@[0]) != ascii_fold("Runecrafting"@[0]));
    assert(ascii_fold("Mage weapons"@[0]) != ascii_fold("Pocket items"@[0]));
    assert(ascii_fold("Mage weapons"@[0]) != ascii_fold("Wood spirits"@[0]));
    assert(ascii_fold("Melee armour - low level"@[15]) != ascii_fold("Melee armour - mid level"@[15]));
    assert(ascii_fold("Melee armour - high level"@[6]) != ascii_fold("Melee weapons - low level"@[6]));
    assert(ascii_fold("Melee armour - high level"@[6]) != ascii_fold("Melee weapons - mid level"@[6]));
    assert(ascii_fold("Melee weapons - low level"@[16]) != ascii_fold("Melee weapons - mid level"@[16]));
    assert(ascii_fold("Mining and Smithing"@[0]) != ascii_fold("Woodcutting product"@[0]));
    assert(ascii_fold("Mining and Smithing"@[0]) != ascii_fold("Firemaking products"@[0]));
    assert(ascii_fold("Potions"@[0]) != ascii_fold("Salvage"@[0]));
    assert(ascii_fold("Prayer armour"@[0]) != ascii_fold("Range weapons"@[0]));
    assert(ascii_fold("Prayer armour"@[0]) != ascii_fold("Stone spirits"@[0]));
    assert(ascii_fold("Range armour"@[1]) != ascii_fold("Runecrafting"@[1]));
    assert(ascii_fold("Range armour"@[0]) != ascii_fold("Pocket items"@[0]));
    assert(ascii_fold("Range armour"@[0]) != ascii_fold("Wood spirits"@[0]));
    assert(ascii_fold("Range weapons"@[0]) != ascii_fold("Stone spirits"@[0]));
    assert(ascii_fold("Runecrafting"@[0]) != ascii_fold("Pocket items"@[0]));
    assert(ascii_fold("Runecrafting"@[0]) != ascii_fold("Wood spirits"@[0]));
    assert(ascii_fold("Summoning scrolls"@[0]) != ascii_fold("Necromancy armour"@[0]));
    assert(ascii_fold("Woodcutting product"@[0]) != ascii_fold("Firemaking products"@[0]));
    assert(ascii_fold("Pocket items"@[0]) != ascii_fold("Wood spirits"@[0]));
    reveal_with_fuel(names_any, 45);
    reveal_with_fuel(names_unique, 45);
}

/// Every RuneScape 3 category name, in any ASCII case, is read as that
/// category's id, and a name of no category as -1.
pub proof fn lemma_category_ids(i: int, s: Seq<char>)
    requires
        0 <= i < rs3_categories().len(),
    ensures
        eq_ignore_ascii_case(rs3_categories()[i].name@, s) ==> id_by_name(rs3_categories(), s)
            == rs3_categories()[i].id,
        (forall|j: int|
            0 <= j < rs3_categories().len() ==> !eq_ignore_ascii_case(
                #[trigger] rs3_categories()[j].name@,
                s,
            )) ==> id_by_name(rs3_categories(), s) == -1,
{
    if eq_ignore_ascii_case(rs3_categories()[i].name@, s) {
        lemma_rs3_names_unique();
        lemma_id_by_unique_name(rs3_categories(), i, s);
    }
    if forall|j: int|
        0 <= j < rs3_categories().len() ==> !eq_ignore_ascii_case(
            #[trigger] rs3_categories()[j].name@,
            s,
        ) {
        lemma_id_by_unknown_name(rs3_categories(), s);
    }
}

/// Looks up the name of category `id` in `table`.
pub fn category_name(table: &HashMap<i32, &'static str>, id: i32) -> (r: Option<&'static str>)
    ensures
        r == (if table@.contains_key(id) {
            Some(table@[id])
        } else {
            None
        }),
{
    broadcast use vstd::std_specs::hash::group_hash_axioms;

    match table.get(&id) {
        Some(n) => Some(*n),
        None => None,
    }
}

/// `alpha` selects a listing: the single lower-case letter an item name
/// starts with, or `#` for names starting with anything else.
pub open spec fn valid_alpha(alpha: Seq<char>) -> bool {
    alpha == "#"@ || (alpha.len() == 1 && 'a' <= alpha[0] && alpha[0] <= 'z')
}

/// The message of the error that refuses an invalid `alpha`.
pub open spec fn alpha_error_text() -> Seq<char> {
    "Invalid alpha: must be a single lowercase letter a-z or '#'"@
}

/// Accepts `#` and the single letters `a` to `z`; anything else is a bad
/// request.
pub fn validate_alpha(alpha: &str) -> (r: Result<(), AppError>)
    ensures
        valid_alpha(alpha@) ==> r is Ok,
        !valid_alpha(alpha@) ==> (r matches Err(AppError::BadRequest(m)) && m@ == alpha_error_text()),
{
    if str_equal(alpha, "#") {
        return Ok(());
    }
    let cs = chars_of(alpha);
    if cs.len() == 1 && 'a' <= cs[0] && cs[0] <= 'z' {
        return Ok(());
    }
    Err(AppError::BadRequest("Invalid alpha: must be a single lowercase letter a-z or '#'".to_string()))
}

/// A checked request for one page of an item listing.
#[derive(Debug, Clone)]
pub struct ItemsRequest {
    pub category: i32,
    pub alpha: String,
    pub page: u32,
    pub game: Game,
    pub key: CacheKey,
}

/// Fills in the listing defaults (letter `a`, page 1), checks the letter and
/// names the cache entry of the page.
pub fn items_request(q: &ItemsQuery) -> (r: Result<ItemsRequest, AppError>)
    ensures
        ({
            let alpha = text_or(q.alpha, "a"@);
            let page = match q.page { Some(p) => p, None => 1u32 };
            &&& valid_alpha(alpha) ==> (r matches Ok(req) && req.category == q.category
                && req.alpha@ == alpha && req.page == page && req.game == q.game
                && req.key@ == list_view(q.category, alpha, page, q.game))
            &&& !valid_alpha(alpha) ==> (r matches Err(AppError::BadRequest(m)) && m@
                == alpha_error_text())
        }),
{
    let alpha = string_or(&q.alpha, "a");
    let page = match q.page {
        Some(p) => p,
        None => 1,
    };
    match validate_alpha(alpha.as_str()) {
        Err(e) => Err(e),
        Ok(()) => {
            let game = q.game.to_string();
            let key = CacheKey::items_list(q.category, alpha.as_str(), page, game.as_str());
            Ok(ItemsRequest { category: q.category, alpha, page, game: q.game, key })
        },
    }
}

/// The cache key of an item's details.
pub fn item_detail_key(id: i64, game: Game) -> (k: CacheKey)
    ensures
        k@ == detail_view(id, game),
{
    let g = game.to_string();
    CacheKey::item_detail(id, g.as_str())
}

/// The cache key of an item's price graph.
pub fn graph_key(id: i64, game: Game) -> (k: CacheKey)
    ensures
        k@ == graph_view(id, game),
{
    let g = game.to_string();
    CacheKey::graph(id, g.as_str())
}

/// The cache key of a game's exchange information.
pub fn info_key(game: Game) -> (k: CacheKey)
    ensures
        k@ == info_view(game),
{
    let g = game.to_string();
    CacheKey::info(g.as_str())
}

/// The key of an item's details in a game, as `item_detail_key` builds it.
pub open spec fn detail_view(id: i64, g: Game) -> KeyView {
    KeyView::ItemDetail { id, game: game_name(g) }
}

/// The key of an item's price graph in a game, as `graph_key` builds it.
pub open spec fn graph_view(id: i64, g: Game) -> KeyView {
    KeyView::Graph { id, game: game_name(g) }
}

/// The key of a game's exchange information, as `info_key` builds it.
pub open spec fn info_view(g: Game) -> KeyView {
    KeyView::Info { game: game_name(g) }
}

/// The key of a listing page, as `items_request` builds it.
pub open spec fn list_view(category: i32, alpha: Seq<char>, page: u32, g: Game) -> KeyView {
    KeyView::ItemsList { category, alpha, page, game: game_name(g) }
}

/// The two games have different names.
pub proof fn lemma_game_names_differ()
    ensures
        game_name(Game::Rs3) != game_name(Game::Osrs),
{
    reveal_strlit("rs3");
    reveal_strlit("osrs");
    assert(game_name(Game::Rs3).len() != game_name(Game::Osrs).len());
}

/// Requests share a cache entry only when they are the same request: the
/// keys of two requests to one endpoint are equal exactly when their
/// parameters and games are, and keys of different endpoints never are.
pub proof fn lemma_keys_separate_requests(
    id1: i64,
    id2: i64,
    g1: Game,
    g2: Game,
    c1: i32,
    c2: i32,
    a1: Seq<char>,
    a2: Seq<char>,
    p1: u32,
    p2: u32,
)
    ensures
        (detail_view(id1, g1) == detail_view(id2, g2)) <==> (id1 == id2 && g1 == g2),
        (graph_view(id1, g1) == graph_view(id2, g2)) <==> (id1 == id2 && g1 == g2),
        (info_view(g1) == info_view(g2)) <==> (g1 == g2),
        (list_view(c1, a1, p1, g1) == list_view(c2, a2, p2, g2)) <==> (c1 == c2 && a1 == a2 && p1
            == p2 && g1 == g2),
        detail_view(id1, g1) != graph_view(id2, g2),
        detail_view(id1, g1) != info_view(g2),
        graph_view(id1, g1) != info_view(g2),
        list_view(c1, a1, p1, g1) != detail_view(id2, g2),
        list_view(c1, a1, p1, g1) != graph_view(id2, g2),
        list_view(c1, a1, p1, g1) != info_view(g2),
{
    lemma_game_names_differ();
}

/// The upstream address of a game's exchange information.
pub fn info_url(game: Game) -> (u: String)
    ensures
        u@ == base_url_of(game) + "/api/info.json"@,
{
    let (base, _) = base_urls(game);
    concat(base, "/api/info.json")
}

/// The upstream address of an item's details.
pub fn item_detail_url(game: Game, id: i64) -> (u: String)
    ensures
        u@ == base_url_of(game) + "/api/catalogue/detail.json?item="@ + signed_decimal(id as int),
{
    let (base, _) = base_urls(game);
    let mut u = concat(base, "/api/catalogue/detail.json?item=");
    push_signed_decimal(&mut u, id);
    u
}

/// The upstream address of an item's price graph.
pub fn graph_url(game: Game, id: i64) -> (u: String)
    ensures
        u@ == base_url_of(game) + "/api/graph/"@ + signed_decimal(id as int) + ".json"@,
{
    let (base, _) = base_urls(game);
    let mut u = concat(base, "/api/graph/");
    push_signed_decimal(&mut u, id);
    u.append(".json");
    u
}

/// The upstream address of one page of a category's items under a letter.
pub fn items_url(game: Game, category: i32, alpha: &str, page: u32) -> (u: String)
    ensures
        u@ == base_url_of(game) + "/api/catalogue/items.json?category="@ + signed_decimal(
            category as int,
        ) + "&alpha="@ + alpha@ + "&page="@ + decimal(page as nat),
{
    let (base, _) = base_urls(game);
    let mut u = concat(base, "/api/catalogue/items.json?category=");
    push_signed_decimal(&mut u, category as i64);
    u.append("&alpha=");
    u.append(alpha);
    u.append("&page=");
    push_decimal(&mut u, page as u128);
    u
}

/// The rune date reported by the exchange information: `runedate`, else
/// `lastConfigUpdateRuneday`, else 0.
pub fn select_runedate(runedate: Option<i64>, last_config_update: Option<i64>) -> (d: i64)
    ensures
        d == (match runedate {
            Some(x) => x,
            None => match last_config_update {
                Some(y) => y,
                None => 0,
            },
        }),
{
    match runedate {
        Some(x) => x,
        None => match last_config_update {
            Some(y) => y,
            None => 0,
        },
    }
}

/// A price field of an upstream item, read as `parse_price_to_i64` reads it.
pub open spec fn price_field(o: Option<PriceValue>) -> Option<i64> {
    match o {
        Some(v) => price_of(v),
        None => None,
    }
}

/// Membership of an upstream item: a `members` string counts when it is
/// exactly `true`; otherwise a boolean `members` counts; otherwise not a
/// members item.
pub open spec fn members_of(raw: RawItem) -> bool {
    match raw.members_text {
        Some(t) => t@ == "true"@,
        None => match raw.members_flag {
            Some(b) => b,
            None => false,
        },
    }
}

/// The category name shown for an upstream item: the table's name for its
/// category, else the upstream category text.
pub open spec fn category_name_of(raw: RawItem, table: Map<i32, &'static str>) -> Seq<char> {
    let kind = text_or(raw.kind, ""@);
    let cid = id_by_name(rs3_categories(), kind);
    if cid >= 0 && table.contains_key(cid) {
        table[cid]@
    } else {
        kind
    }
}

/// `item` is what the upstream record `raw` describes, its category named
/// from `table`.
pub open spec fn is_item_of(item: GeItem, raw: RawItem, table: Map<i32, &'static str>) -> bool {
    &&& item.id == (match raw.id { Some(i) => i, None => 0 })
    &&& item.name@ == text_or(raw.name, ""@)
    &&& item.category_id == id_by_name(rs3_categories(), text_or(raw.kind, ""@))
    &&& item.category_name@ == category_name_of(raw, table)
    &&& item.members == members_of(raw)
    &&& item.icons.small@ == text_or(raw.icon, ""@)
    &&& item.icons.large@ == text_or(raw.icon_large, ""@)
    &&& item.price.trend@ == text_or(raw.current_trend, "neutral"@)
    &&& item.price.current == price_field(raw.current_price)
    &&& item.price.today_change == price_field(raw.today_price)
    &&& opt_text(item.description) == opt_text(raw.description)
    &&& item.cached == None::<bool>
}

/// Membership as read from an upstream record: a `members` string makes a
/// members item exactly when it is `true`, so `false` (or any other text)
/// gives a free-to-play item; a boolean `members` is taken as it is; a record
/// without either is free to play.
pub proof fn lemma_item_membership(item: GeItem, raw: RawItem, table: Map<i32, &'static str>)
    requires
        is_item_of(item, raw, table),
    ensures
        (raw.members_text is Some) ==> (item.members <==> raw.members_text->0@ == "true"@),
        (raw.members_text is Some && raw.members_text->0@ == "false"@) ==> !item.members,
        (raw.members_text is None && raw.members_flag is Some) ==> item.members
            == raw.members_flag->0,
        (raw.members_text is None && raw.members_flag is None) ==> !item.members,
{
    reveal_strlit("true");
    reveal_strlit("false");
    assert("true"@.len() != "false"@.len());
}

/// The letters a listing accepts: exactly the texts of one character that
/// is a lower-case ASCII letter `a` to `z` or `#`.
pub proof fn lemma_alpha_letters(alpha: Seq<char>, c: char)
    ensures
        valid_alpha(alpha) <==> (alpha.len() == 1 && (('a' <= alpha[0] && alpha[0] <= 'z')
            || alpha[0] == '#')),
        ('a' <= c && c <= 'z') ==> valid_alpha(seq![c]),
        valid_alpha(seq!['#']),
{
    reveal_strlit("#");
    assert("#"@ =~= seq!['#']);
    if alpha.len() == 1 && alpha[0] == '#' {
        assert(alpha =~= seq!['#']);
    }
}

fn read_price(o: &Option<PriceValue>) -> (r: Option<i64>)
    ensures
        r == price_field(*o),
{
    match o {
        Some(v) => parse_price_to_i64(v),
        None => None,
    }
}

/// Reads one upstream item record; categories are numbered by their
/// RuneScape 3 name and named from `table`.
pub fn parse_item(raw: &RawItem, table: &HashMap<i32, &'static str>) -> (item: GeItem)
    ensures
        is_item_of(item, *raw, table@),
{
    let id = match raw.id {
        Some(i) => i,
        None => 0,
    };
    let name = string_or(&raw.name, "");
    let kind = string_or(&raw.kind, "");
    let category_id = category_id_from_name(kind.as_str());
    let members = match &raw.members_text {
        Some(t) => str_equal(t.as_str(), "true"),
        None => match raw.members_flag {
            Some(b) => b,
            None => false,
        },
    };
    let icons = GeIcons { small: string_or(&raw.icon, ""), large: string_or(&raw.icon_large, "") };
    let price = GePrice {
        trend: string_or(&raw.current_trend, "neutral"),
        current: read_price(&raw.current_price),
        today_change: read_price(&raw.today_price),
    };
    let category_name = if category_id >= 0 {
        match category_name(table, category_id) {
            Some(n) => n.to_string(),
            None => kind,
        }
    } else {
        kind
    };
    GeItem {
        id,
        name,
        category_id,
        category_name,
        members,
        icons,
        price,
        description: clone_opt_string(&raw.description),
        cached: None,
    }
}

/// Reads a page of an upstream item listing: the total (0 when missing) and
/// every item record, in order.
pub fn build_item_list(
    total: Option<i64>,
    raws: &Vec<RawItem>,
    page: u32,
    table: &HashMap<i32, &'static str>,
) -> (r: GeItemList)
    ensures
        r.total == (match total { Some(t) => t, None => 0 }),
        r.items@.len() == raws@.len(),
        forall|i: int| 0 <= i < raws@.len() ==> is_item_of(#[trigger] r.items@[i], raws@[i], table@),
        r.page == Some(page),
        r.cached == Some(false),
{
    let mut items: Vec<GeItem> = Vec::new();
    for i in 0..raws.len()
        invariant
            items@.len() == i,
            forall|j: int| 0 <= j < i ==> is_item_of(#[trigger] items@[j], raws@[j], table@),
    {
        items.push(parse_item(&raws[i], table));
    }
    GeItemList {
        total: match total {
            Some(t) => t,
            None => 0,
        },
        items,
        page: Some(page),
        cached: Some(false),
    }
}

/// The details of one item, from the `item` record of the upstream answer;
/// an answer without one is an upstream error.
pub fn item_detail_from(
    raw: &Option<RawItem>,
    table: &HashMap<i32, &'static str>,
) -> (r: Result<GeItem, AppError>)
    ensures
        match *raw {
            Some(x) => r matches Ok(item) && is_item_of(
                GeItem { cached: None, ..item },
                x,
                table@,
            ) && item.cached == Some(false),
            None => r matches Err(AppError::Upstream(m)) && m@ == "Missing 'item' field in response"@,
        },
{
    match raw {
        Some(x) => {
            let mut item = parse_item(x, table);
            item.cached = Some(false);
            Ok(item)
        },
        None => Err(AppError::Upstream("Missing 'item' field in response".to_string())),
    }
}

/// The milliseconds since the epoch that chrono can represent as a UTC
/// date-time: from the start of January 1 of the year -262143 to the end of
/// December 31 of the year 262142.
pub open spec fn millis_in_chrono_range(ms: i64) -> bool {
    -8_334_601_228_800_000 <= ms && ms <= 8_210_266_876_799_999
}

/// chrono's `DateTime::<Utc>::from_timestamp_millis(ms).is_some()`: whether
/// `ms` milliseconds since the epoch is a date-time chrono can represent.
/// chrono accepts exactly the dates from year -262143 to year 262142; the
/// bounds are written out in `millis_in_chrono_range`.
#[verifier::external_body]
fn millis_in_range(ms: i64) -> (ok: bool)
    ensures
        ok == millis_in_chrono_range(ms),
{
    chrono::DateTime::<chrono::Utc>::from_timestamp_millis(ms).is_some()
}

/// The point an upstream graph entry (timestamp text, price) stands for, if
/// the timestamp is an integer and the price is present. A timestamp outside
/// the representable range is replaced by `now_ms`.
pub open spec fn point_of(entry: (String, Option<i64>), now_ms: i64) -> Option<TsPrice> {
    match (i64_of_text(entry.0@), entry.1) {
        (Some(ms), Some(p)) => Some(
            TsPrice { ts_ms: if millis_in_chrono_range(ms) { ms } else { now_ms }, price: p },
        ),
        _ => None,
    }
}

/// The points of the usable graph entries, in entry order.
pub open spec fn graph_points(entries: Seq<(String, Option<i64>)>, now_ms: i64) -> Seq<TsPrice>
    decreases entries.len(),
{
    if entries.len() == 0 {
        Seq::<TsPrice>::empty()
    } else {
        let pre = graph_points(entries.drop_last(), now_ms);
        match point_of(entries.last(), now_ms) {
            Some(x) => pre.push(x),
            None => pre,
        }
    }
}

/// `s` with `x` inserted after every element that is not later than `x`,
/// counted from the end.
pub open spec fn insert_by_time(s: Seq<TsPrice>, x: TsPrice) -> Seq<TsPrice>
    decreases s.len(),
{
    if s.len() == 0 {
        seq![x]
    } else if s.last().ts_ms <= x.ts_ms {
        s.push(x)
    } else {
        insert_by_time(s.drop_last(), x).push(s.last())
    }
}

/// `s` sorted by time, points with equal times kept in their order (the
/// stable sort).
pub open spec fn sort_by_time(s: Seq<TsPrice>) -> Seq<TsPrice>
    decreases s.len(),
{
    if s.len() == 0 {
        s
    } else {
        insert_by_time(sort_by_time(s.drop_last()), s.last())
    }
}

/// Times never decrease along `s`.
pub open spec fn time_ordered(s: Seq<TsPrice>) -> bool {
    forall|i: int, j: int| 0 <= i <= j < s.len() ==> s[i].ts_ms <= s[j].ts_ms
}

proof fn lemma_insert_by_time_at(s: Seq<TsPrice>, x: TsPrice, j: int)
    requires
        0 <= j <= s.len(),
        forall|q: int| j <= q < s.len() ==> s[q].ts_ms > x.ts_ms,
        j == 0 || s[j - 1].ts_ms <= x.ts_ms,
    ensures
        insert_by_time(s, x) == s.insert(j, x),
    decreases s.len(),
{
    if s.len() == j {
        if s.len() == 0 {
            assert(s.insert(0, x) == seq![x]);
        } else {
            assert(s.insert(j, x) == s.push(x));
        }
    } else {
        lemma_insert_by_time_at(s.drop_last(), x, j);
        assert(s.insert(j, x) == s.drop_last().insert(j, x).push(s.last()));
    }
}

/// Inserts `x` into `v` as `insert_by_time` describes.
fn insert_in_time_order(v: &mut Vec<TsPrice>, x: TsPrice)
    ensures
        final(v)@ == insert_by_time(old(v)@, x),
{
    let mut j = v.len();
    while j > 0 && v[j - 1].ts_ms > x.ts_ms
        invariant
            j <= v@.len(),
            forall|q: int| j <= q < v@.len() ==> v@[q].ts_ms > x.ts_ms,
        decreases j,
    {
        j = j - 1;
    }
    proof {
        lemma_insert_by_time_at(v@, x, j as int);
    }
    v.insert(j, x);
}

/// The points of graph entries (timestamp text in milliseconds, price),
/// sorted by time as a stable sort orders them.
pub fn graph_series(entries: &Vec<(String, Option<i64>)>, now_ms: i64) -> (v: Vec<TsPrice>)
    ensures
        v@ == sort_by_time(graph_points(entries@, now_ms)),
{
    let mut out: Vec<TsPrice> = Vec::new();
    for i in 0..entries.len()
        invariant
            out@ == sort_by_time(graph_points(entries@.take(i as int), now_ms)),
    {
        let entry = &entries[i];
        assert(entries@.take(i + 1).drop_last() == entries@.take(i as int));
        assert(entries@.take(i + 1).last() == entries@[i as int]);
        let ghost pre = graph_points(entries@.take(i as int), now_ms);
        match (parse_i64(entry.0.as_str()), entry.1) {
            (Some(ms), Some(p)) => {
                let ts = if millis_in_range(ms) {
                    ms
                } else {
                    now_ms
                };
                let x = TsPrice { ts_ms: ts, price: p };
                assert(point_of(entries@[i as int], now_ms) == Some(x));
                assert(pre.push(x).drop_last() == pre);
                insert_in_time_order(&mut out, x);
            },
            _ => {
                assert(point_of(entries@[i as int], now_ms) is None);
            },
        }
    }
    assert(entries@.take(entries@.len() as int) == entries@);
    out
}

/// Reads an upstream price graph: the `daily` and `average` entries (empty
/// when the upstream object is missing), each sorted by time.
pub fn parse_graph(
    id: i64,
    daily: &Vec<(String, Option<i64>)>,
    average: &Vec<(String, Option<i64>)>,
    now_ms: i64,
) -> (g: GeGraph)
    ensures
        g.id == id,
        g.daily@ == sort_by_time(graph_points(daily@, now_ms)),
        g.average@ == sort_by_time(graph_points(average@, now_ms)),
        g.cached == None::<bool>,
{
    GeGraph {
        id,
        daily: graph_series(daily, now_ms),
        average: graph_series(average, now_ms),
        cached: None,
    }
}

/// Where `insert_by_time` puts `x`: after the last element not later than
/// `x`, counted from the end.
pub open spec fn insert_pos(s: Seq<TsPrice>, x: TsPrice) -> int
    decreases s.len(),
{
    if s.len() == 0 {
        0
    } else if s.last().ts_ms <= x.ts_ms {
        s.len() as int
    } else {
        insert_pos(s.drop_last(), x)
    }
}

proof fn lemma_insert_pos(s: Seq<TsPrice>, x: TsPrice)
    ensures
        0 <= insert_pos(s, x) <= s.len(),
        forall|q: int| insert_pos(s, x) <= q < s.len() ==> s[q].ts_ms > x.ts_ms,
        insert_pos(s, x) == 0 || s[insert_pos(s, x) - 1].ts_ms <= x.ts_ms,
        insert_by_time(s, x) == s.insert(insert_pos(s, x), x),
    decreases s.len(),
{
    if s.len() > 0 && s.last().ts_ms > x.ts_ms {
        lemma_insert_pos(s.drop_last(), x);
        let p = insert_pos(s, x);
        assert forall|q: int| p <= q < s.len() implies s[q].ts_ms > x.ts_ms by {
            if q < s.len() - 1 {
                assert(s.drop_last()[q] == s[q]);
            }
        }
        if p > 0 {
            assert(s.drop_last()[p - 1] == s[p - 1]);
        }
    }
    lemma_insert_by_time_at(s, x, insert_pos(s, x));
}

/// Inserting a point keeps every other point and adds exactly the new one.
pub proof fn lemma_insert_by_time_multiset(s: Seq<TsPrice>, x: TsPrice)
    ensures
        insert_by_time(s, x).to_multiset() == s.to_multiset().insert(x),
{
    lemma_insert_pos(s, x);
    vstd::seq_lib::to_multiset_insert(s, insert_pos(s, x), x);
}

proof fn lemma_insert_by_time_ordered(s: Seq<TsPrice>, x: TsPrice)
    requires
        time_ordered(s),
    ensures
        time_ordered(insert_by_time(s, x)),
{
    lemma_insert_pos(s, x);
    let p = insert_pos(s, x);
    let r = s.insert(p, x);
    s.insert_ensures(p, x);
    assert forall|i: int, j: int| 0 <= i <= j < r.len() implies r[i].ts_ms <= r[j].ts_ms by {
        let vi = if i < p { s[i].ts_ms } else if i == p { x.ts_ms } else { s[i - 1].ts_ms };
        let vj = if j < p { s[j].ts_ms } else if j == p { x.ts_ms } else { s[j - 1].ts_ms };
        assert(r[i].ts_ms == vi);
        assert(r[j].ts_ms == vj);
        if i < p && j == p {
            assert(s[i].ts_ms <= s[p - 1].ts_ms);
        } else if i < p && j > p {
            assert(s[i].ts_ms <= s[j - 1].ts_ms);
        } else if i == p && j > p {
            assert(s[j - 1].ts_ms > x.ts_ms);
        }
    }
}

/// Graph series come out in time order.
pub proof fn lemma_sort_by_time_ordered(s: Seq<TsPrice>)
    ensures
        time_ordered(sort_by_time(s)),
    decreases s.len(),
{
    if s.len() > 0 {
        lemma_sort_by_time_ordered(s.drop_last());
        lemma_insert_by_time_ordered(sort_by_time(s.drop_last()), s.last());
    }
}

/// Sorting a graph series neither drops nor invents points.
pub proof fn lemma_sort_by_time_permutes(s: Seq<TsPrice>)
    ensures
        sort_by_time(s).to_multiset() == s.to_multiset(),
    decreases s.len(),
{
    if s.len() > 0 {
        lemma_sort_by_time_permutes(s.drop_last());
        lemma_insert_by_time_multiset(sort_by_time(s.drop_last()), s.last());
        vstd::seq_lib::to_multiset_build(s.drop_last(), s.last());
        assert(s.drop_last().push(s.last()) == s);
    }
}

} // verus!
