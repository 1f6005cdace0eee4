//! Cache keys and the lifetime of cached responses.
use vstd::prelude::*;

use crate::config::CacheConfig;

verus! {

/// Identifies one cached upstream response.
#[derive(Debug, Clone, Hash, Eq, PartialEq)]
pub enum CacheKey {
    ItemsList { category: i32, alpha: String, page: u32, game: String },
    ItemDetail { id: i64, game: String },
    Graph { id: i64, game: String },
    Info { game: String },
}

/// The abstract content of a cache key.
pub enum KeyView {
    ItemsList { category: i32, alpha: Seq<char>, page: u32, game: Seq<char> },
    ItemDetail { id: i64, game: Seq<char> },
    Graph { id: i64, game: Seq<char> },
    Info { game: Seq<char> },
}

impl View for CacheKey {
    type V = KeyView;

    open spec fn view(&self) -> KeyView {
        match self {
            CacheKey::ItemsList { category, alpha, page, game } => KeyView::ItemsList {
                category: *category,
                alpha: alpha@,
                page: *page,
                game: game@,
            },
            CacheKey::ItemDetail { id, game } => KeyView::ItemDetail { id: *id, game: game@ },
            CacheKey::Graph { id, game } => KeyView::Graph { id: *id, game: game@ },
            CacheKey::Info { game } => KeyView::Info { game: game@ },
        }
    }
}

impl CacheKey {
    /// Key of one page of an item listing.
    pub fn items_list(category: i32, alpha: &str, page: u32, game: &str) -> (k: Self)
        ensures
            k@ == (KeyView::ItemsList { category, alpha: alpha@, page, game: game@ }),
    {
        CacheKey::ItemsList {
            category,
            alpha: alpha.to_string(),
            page,
            game: game.to_string(),
        }
    }

    /// Key of one item's details.
    pub fn item_detail(id: i64, game: &str) -> (k: Self)
        ensures
            k@ == (KeyView::ItemDetail { id, game: game@ }),
    {
        CacheKey::ItemDetail { id, game: game.to_string() }
    }

    /// Key of one item's price graph.
    pub fn graph(id: i64, game: &str) -> (k: Self)
        ensures
            k@ == (KeyView::Graph { id, game: game@ }),
    {
        CacheKey::Graph { id, game: game.to_string() }
    }

    /// Key of a game's exchange information.
    pub fn info(game: &str) -> (k: Self)
        ensures
            k@ == (KeyView::Info { game: game@ }),
    {
        CacheKey::Info { game: game.to_string() }
    }

    /// How many seconds the response under this key stays cached: item
    /// lists change often and use the shorter item-list lifetime; details,
    /// graphs and exchange information use the general lifetime.
    pub fn ttl_seconds(&self, cache: &CacheConfig) -> (s: u64)
        ensures
            s == (match self@ {
                KeyView::ItemsList { .. } => cache.items_ttl_seconds,
                _ => cache.ttl_seconds,
            }),
    {
        match self {
            CacheKey::ItemsList { .. } => cache.items_ttl_seconds,
            _ => cache.ttl_seconds,
        }
    }
}

/// Cache occupancy as reported by the admin endpoint.
#[derive(Debug, Clone, Copy, PartialEq, Eq, Structural)]
pub struct CacheStats {
    pub enabled: bool,
    pub entry_count: u64,
    pub weighted_size: u64,
}

} // verus!
