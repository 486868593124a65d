//! API response shapes for the catalog endpoints.
use vstd::prelude::*;
use crate::og::{OgStats, rounded_percent, stats_total};

verus! {

/// A season of a show with its imported-episode count.
#[derive(Debug, Clone)]
pub struct SeasonSummary {
    pub season_number: i32,
    pub name: Option<String>,
    pub episode_count: i64,
}

/// A card of the home page's browse grid: a show with its stat-card verdict.
#[derive(Debug, Clone)]
pub struct PopularShowItem {
    pub slug: String,
    pub tmdb_id: i64,
    pub name: String,
    pub first_air_year: Option<i32>,
    pub poster_path: Option<String>,
    pub episode_count: u32,
    pub filler_pct: u32,
    pub skip_count: u32,
    /// Some episode of the show has a confident label.
    pub rated: bool,
}

/// The browse grid.
#[derive(Debug, Clone)]
pub struct PopularShowsResponse {
    pub shows: Vec<PopularShowItem>,
}

/// A popular show's card: its episode count, filler percentage and skip count
/// from its tally; rated when some episode has a confident label.
pub fn popular_item(
    slug: String,
    tmdb_id: i64,
    name: String,
    first_air_year: Option<i32>,
    poster_path: Option<String>,
    stats: &OgStats,
) -> (r: PopularShowItem)
    requires
        stats_total(*stats) <= u32::MAX,
    ensures
        r.slug == slug && r.tmdb_id == tmdb_id && r.name == name,
        r.first_air_year == first_air_year && r.poster_path == poster_path,
        r.episode_count == stats_total(*stats),
        r.filler_pct == rounded_percent(stats.filler as int, stats_total(*stats)),
        r.skip_count == stats.filler,
        r.rated == (stats_total(*stats) > 0 && stats.undecided < stats_total(*stats)),
{
    let total = stats.total();
    PopularShowItem {
        slug,
        tmdb_id,
        name,
        first_air_year,
        poster_path,
        episode_count: total,
        filler_pct: stats.filler_pct(),
        skip_count: stats.filler,
        rated: total > 0 && stats.undecided < total,
    }
}

} // verus!
