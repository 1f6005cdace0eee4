//! Data shapes of the gateway: games, categories, items, graphs, queries.
use vstd::prelude::*;

pub use crate::price::{format_price_compact, parse_abbrev};

verus! {

/// Which edition of the game a request is about.
#[derive(Debug, Clone, Copy, PartialEq, Eq, Hash, Structural)]
pub enum Game {
    Rs3,
    Osrs,
}

/// The lower-case name of a game, as used in URLs and cache keys.
pub open spec fn game_name(g: Game) -> Seq<char> {
    match g {
        Game::Rs3 => "rs3"@,
        Game::Osrs => "osrs"@,
    }
}

impl Game {
    /// The lower-case name of the game: `rs3` or `osrs`.
    pub fn to_string(&self) -> (s: String)
        ensures
            s@ == game_name(*self),
    {
        match self {
            Game::Rs3 => "rs3".to_string(),
            Game::Osrs => "osrs".to_string(),
        }
    }
}

impl Default for Game {
    /// RuneScape 3 unless a request says otherwise.
    fn default() -> (g: Self)
        ensures
            g == Game::Rs3,
    {
        Game::Rs3
    }
}

/// The JSON body of an error answer.
#[derive(Debug, Clone, PartialEq, Eq)]
pub struct ErrorBody {
    pub code: String,
    pub message: String,
}

/// A raw price field as the upstream API hands it over.
#[derive(Debug, Clone, PartialEq, Eq)]
pub enum PriceValue {
    /// A JSON number; holds its value when it is an integer that fits `i64`.
    Number(Option<i64>),
    /// A JSON string such as `1.5m`.
    Text(String),
    /// Any other JSON value.
    Other,
}

/// What `parse_price_to_i64` gives for a raw price field.
pub open spec fn price_of(v: PriceValue) -> Option<i64> {
    match v {
        PriceValue::Number(n) => n,
        PriceValue::Text(t) => crate::price::amount_of(
            crate::text::std_lowercase(crate::text::trimmed(t@)),
        ),
        PriceValue::Other => None,
    }
}

/// Reads a price field: integral numbers as they are, strings as compact
/// amounts (`1.5m`), anything else as no price.
pub fn parse_price_to_i64(s: &PriceValue) -> (r: Option<i64>)
    ensures
        r == price_of(*s),
{
    match s {
        PriceValue::Number(n) => *n,
        PriceValue::Text(t) => parse_abbrev(t.as_str()),
        PriceValue::Other => None,
    }
}

/// An integral JSON number is read as exactly its value, whatever its sign
/// (today's change can be zero or negative); a number that is no `i64` and
/// any value other than a number or a string give no price.
pub proof fn lemma_integer_prices(n: i64)
    ensures
        price_of(PriceValue::Number(Some(n))) == Some(n),
        price_of(PriceValue::Number(None)) == None::<i64>,
        price_of(PriceValue::Other) == None::<i64>,
{
}

/// One Grand Exchange item category.
#[derive(Debug, Clone, Copy)]
pub struct GeCategory {
    pub id: i32,
    pub name: &'static str,
}

/// The category listing served to clients.
#[derive(Debug, Clone)]
pub struct GeCategories {
    pub categories: Vec<GeCategory>,
    pub cached: Option<bool>,
}

/// Icon URLs of an item.
#[derive(Debug, Clone, PartialEq, Eq)]
pub struct GeIcons {
    pub small: String,
    pub large: String,
}

/// Price information of an item.
#[derive(Debug, Clone, PartialEq, Eq)]
pub struct GePrice {
    /// `neutral`, `positive` or `negative`.
    pub trend: String,
    /// Current price in coins.
    pub current: Option<i64>,
    /// Today's change in coins (can be negative).
    pub today_change: Option<i64>,
}

impl GePrice {
    /// Today's change and the current price it is a share of, when that share
    /// is defined: both are known and the price is positive. The change
    /// percentage reported for an item is `100 * change / price` of this pair,
    /// and there is none when this is `None`.
    pub fn change_share(&self) -> (r: Option<(i64, i64)>)
        ensures
            r == (match (self.current, self.today_change) {
                (Some(c), Some(t)) => if c > 0 { Some((t, c)) } else { None },
                _ => None,
            }),
    {
        match (self.current, self.today_change) {
            (Some(c), Some(t)) => if c > 0 { Some((t, c)) } else { None },
            _ => None,
        }
    }
}

/// One Grand Exchange item.
#[derive(Debug, Clone, PartialEq, Eq)]
pub struct GeItem {
    pub id: i64,
    pub name: String,
    pub category_id: i32,
    pub category_name: String,
    pub members: bool,
    pub icons: GeIcons,
    pub price: GePrice,
    pub description: Option<String>,
    pub cached: Option<bool>,
}

/// One page of an item listing.
#[derive(Debug, Clone, PartialEq, Eq)]
pub struct GeItemList {
    pub total: i64,
    pub items: Vec<GeItem>,
    pub page: Option<u32>,
    pub cached: Option<bool>,
}

/// A price at a point in time, the time in milliseconds since the Unix epoch.
#[derive(Debug, Clone, Copy, PartialEq, Eq, Structural)]
pub struct TsPrice {
    pub ts_ms: i64,
    pub price: i64,
}

/// The daily and average price history of an item, oldest first.
#[derive(Debug, Clone, PartialEq, Eq)]
pub struct GeGraph {
    pub id: i64,
    pub daily: Vec<TsPrice>,
    pub average: Vec<TsPrice>,
    pub cached: Option<bool>,
}

/// The fields of an upstream item record, as far as they hold values of the
/// expected JSON type (`None` where a field is missing or of another type).
#[derive(Debug, Clone, PartialEq, Eq)]
pub struct RawItem {
    pub id: Option<i64>,
    pub name: Option<String>,
    /// The upstream `type` field: the category's name.
    pub kind: Option<String>,
    /// `members` when it is a string.
    pub members_text: Option<String>,
    /// `members` when it is a boolean.
    pub members_flag: Option<bool>,
    pub icon: Option<String>,
    pub icon_large: Option<String>,
    /// `current.price`.
    pub current_price: Option<PriceValue>,
    /// `current.trend` when it is a string.
    pub current_trend: Option<String>,
    /// `today.price`.
    pub today_price: Option<PriceValue>,
    pub description: Option<String>,
}

impl GeItem {
    /// The item marked as served from the cache (`true`) or fresh from the
    /// upstream API (`false`); every other field is kept.
    pub fn with_cached(self, cached: bool) -> (r: Self)
        ensures
            r == (GeItem { cached: Some(cached), ..self }),
    {
        GeItem { cached: Some(cached), ..self }
    }
}

impl GeItemList {
    /// The listing marked as served from the cache (`true`) or fresh from
    /// the upstream API (`false`); every other field is kept.
    pub fn with_cached(self, cached: bool) -> (r: Self)
        ensures
            r == (GeItemList { cached: Some(cached), ..self }),
    {
        GeItemList { cached: Some(cached), ..self }
    }
}

impl GeGraph {
    /// The graph marked as served from the cache (`true`) or fresh from the
    /// upstream API (`false`); every other field is kept.
    pub fn with_cached(self, cached: bool) -> (r: Self)
        ensures
            r == (GeGraph { cached: Some(cached), ..self }),
    {
        GeGraph { cached: Some(cached), ..self }
    }
}

/// Query of the item listing endpoint.
#[derive(Debug, Clone)]
pub struct ItemsQuery {
    pub category: i32,
    pub alpha: Option<String>,
    pub page: Option<u32>,
    pub game: Game,
}

/// Query of the item detail endpoint.
#[derive(Debug, Clone, Copy)]
pub struct ItemDetailQuery {
    pub game: Game,
}

/// Query of the price graph endpoint.
#[derive(Debug, Clone, Copy)]
pub struct GraphQuery {
    pub game: Game,
}

/// Query of the exchange information endpoint.
#[derive(Debug, Clone, Copy)]
pub struct InfoQuery {
    pub game: Game,
}

} // verus!
