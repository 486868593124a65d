//! TMDB import-on-demand: the decisions around fetching a show — reading TMDB
//! dates, resolving a show path parameter, and choosing which seasons a refresh
//! re-fetches.
use vstd::prelude::*;
use chrono::Datelike;
use std::collections::HashMap;
use crate::error::{AppError, is_bad_request};
use crate::text::{chars_of, debug_quoted, debug_str, parse_decimal, parse_i32, parse_i64, within};

verus! {

/// A character of the ASCII range.
pub open spec fn is_ascii(c: char) -> bool {
    (c as u32) < 128
}

/// The year a TMDB date string starts with: its first four characters, when
/// they are ASCII, read as an `i32` (`date.get(0..4)` then `parse::<i32>()`).
pub open spec fn leading_year(date: Seq<char>) -> Option<int> {
    if date.len() >= 4 && (forall|i: int| 0 <= i < 4 ==> is_ascii(#[trigger] date[i])) {
        parse_decimal(date.take(4), true)
    } else {
        None
    }
}

/// Parse the year from a TMDB date string like "2011-04-17".
pub fn parse_year(date: &str) -> (r: Option<i32>)
    ensures
        (match r {
            Some(y) => Some(y as int),
            None => None,
        }) == leading_year(date@),
{
    let v = chars_of(date);
    if v.len() < 4 {
        return None;
    }
    let mut i: usize = 0;
    while i < 4
        invariant
            v@ == date@,
            v@.len() >= 4,
            i <= 4,
            forall|k: int| 0 <= k < i ==> is_ascii(#[trigger] v@[k]),
        decreases 4 - i,
    {
        if (v[i] as u32) >= 128 {
            return None;
        }
        i = i + 1;
    }
    let mut head = String::new();
    crate::text::push_range(&mut head, v.as_slice(), 0, 4);
    assert(head@ =~= v@.take(4));
    assert(v@.take(4) == date@.take(4));
    let y = parse_i32(head.as_str());
    proof {
        let p = parse_decimal(v@.take(4), true);
        // Four characters are too few to leave the i32 range.
        if p is Some {
            let neg = v@.take(4)[0] == '-';
            let plus = v@.take(4)[0] == '+';
            let d = if neg || plus {
                v@.take(4).drop_first()
            } else {
                v@.take(4)
            };
            lemma_decimal_bound(d);
            assert(pow10(d.len()) <= 10000) by {
                reveal_with_fuel(pow10, 5);
            }
        }
    }
    y
}

/// Ten to the power `n`.
pub open spec fn pow10(n: nat) -> int
    decreases n,
{
    if n == 0 {
        1
    } else {
        10 * pow10((n - 1) as nat)
    }
}

proof fn lemma_decimal_bound(d: Seq<char>)
    requires
        crate::text::all_digits(d),
    ensures
        0 <= crate::text::decimal_value(d) < pow10(d.len()),
    decreases d.len(),
{
    if d.len() > 0 {
        let p = d.drop_last();
        assert(crate::text::all_digits(p)) by {
            assert forall|k: int| 0 <= k < p.len() implies crate::text::is_ascii_digit(
                #[trigger] p[k],
            ) by {
                assert(p[k] == d[k]);
            }
        }
        lemma_decimal_bound(p);
        assert(crate::text::is_ascii_digit(d[d.len() - 1]));
    }
}

/// A calendar date read from TMDB.
#[derive(Debug, Clone, Copy, PartialEq, Eq, Structural)]
pub struct CalendarDate {
    pub year: i32,
    pub month: u32,
    pub day: u32,
}

/// The date chrono reads from a string in the `%Y-%m-%d` format, as (year,
/// month, day), when it reads one.
pub uninterp spec fn ymd_of(s: Seq<char>) -> Option<(int, int, int)>;

/// The (year, month, day) of an optional date.
pub open spec fn date_view(d: Option<CalendarDate>) -> Option<(int, int, int)> {
    match d {
        Some(c) => Some((c.year as int, c.month as int, c.day as int)),
        None => None,
    }
}

/// Reads a `%Y-%m-%d` date with chrono (`NaiveDate::parse_from_str`). Claimed:
/// the result is `ymd_of` of the text; chrono's format grammar is left unsaid.
#[verifier::external_body]
fn parse_ymd(s: &str) -> (r: Option<CalendarDate>)
    ensures
        date_view(r) == ymd_of(s@),
{
    match chrono::NaiveDate::parse_from_str(s, "%Y-%m-%d") {
        Ok(d) => Some(CalendarDate { year: d.year(), month: d.month(), day: d.day() }),
        Err(_) => None,
    }
}

/// Parse a TMDB date string. Empty strings (TMDB uses "") become none.
pub fn parse_date(date: &str) -> (r: Option<CalendarDate>)
    ensures
        date_view(r) == (if date@.len() == 0 {
            None
        } else {
            ymd_of(date@)
        }),
{
    if date.is_empty() {
        return None;
    }
    parse_ymd(date)
}

/// A show path parameter: `tmdb:<n>` (import on demand), or a key that names
/// an imported show by slug or, for older links, by UUID.
#[derive(Debug, Clone)]
pub enum ShowRef {
    Tmdb(i64),
    Key(String),
}

/// The message of a malformed `tmdb:` reference.
pub open spec fn bad_tmdb_message(rest: Seq<char>) -> Seq<char> {
    "invalid tmdb id: "@ + debug_str(rest)
}

/// How a show path parameter is read: after a `tmdb:` prefix an `i64`, else
/// the whole parameter as a key.
pub open spec fn show_ref_of(param: Seq<char>, r: Result<ShowRef, AppError>) -> bool {
    if param.len() >= 5 && param.take(5) == "tmdb:"@ {
        let rest = param.skip(5);
        match within(parse_decimal(rest, true), i64::MIN as int, i64::MAX as int) {
            Some(n) => r matches Ok(ShowRef::Tmdb(m)) && m == n,
            None => r matches Err(e) && is_bad_request(e, bad_tmdb_message(rest)),
        }
    } else {
        r matches Ok(ShowRef::Key(k)) && k@ == param
    }
}

/// Read a show path parameter.
pub fn parse_show_ref(param: &str) -> (r: Result<ShowRef, AppError>)
    ensures
        show_ref_of(param@, r),
{
    proof {
        reveal_strlit("tmdb:");
    }
    let v = chars_of(param);
    let prefixed = v.len() >= 5 && v[0] == 't' && v[1] == 'm' && v[2] == 'd' && v[3] == 'b' && v[4]
        == ':';
    assert(prefixed <==> (param@.len() >= 5 && param@.take(5) == "tmdb:"@)) by {
        if param@.len() >= 5 && param@.take(5) == "tmdb:"@ {
            assert(param@[0] == param@.take(5)[0]);
            assert(param@[1] == param@.take(5)[1]);
            assert(param@[2] == param@.take(5)[2]);
            assert(param@[3] == param@.take(5)[3]);
            assert(param@[4] == param@.take(5)[4]);
        }
        if prefixed {
            assert(param@.take(5) =~= "tmdb:"@);
        }
    }
    if !prefixed {
        return Ok(ShowRef::Key(param.to_string()));
    }
    let mut rest = String::new();
    crate::text::push_range(&mut rest, v.as_slice(), 5, v.len());
    assert(rest@ =~= param@.skip(5));
    match parse_i64(rest.as_str()) {
        Some(n) => Ok(ShowRef::Tmdb(n)),
        None => {
            let mut m = String::new();
            m.append("invalid tmdb id: ");
            let q = debug_quoted(rest.as_str());
            m.append(q.as_str());
            Err(AppError::BadRequest(m))
        },
    }
}

/// The error for a show parameter that names no show.
pub fn show_not_found(param: &str) -> (r: AppError)
    ensures
        r matches AppError::NotFound(m) && m@ == "show "@ + debug_str(param@) + " not found"@,
{
    let mut m = String::new();
    m.append("show ");
    let q = debug_quoted(param);
    m.append(q.as_str());
    m.append(" not found");
    AppError::NotFound(m)
}

/// The imported episode count of a season: its count in the map, else 0.
pub open spec fn have_count(have: Map<i32, i64>, season: i32) -> int {
    if have.contains_key(season) {
        have[season] as int
    } else {
        0
    }
}

/// A season is re-fetched when TMDB reports more episodes than are imported.
pub open spec fn needs_fetch(have: Map<i32, i64>, season: (i32, i32)) -> bool {
    have_count(have, season.0) < season.1 as int
}

fn count_for(have: &HashMap<i32, i64>, season: i32) -> (r: i64)
    ensures
        r as int == have_count(have@, season),
{
    broadcast use vstd::std_specs::hash::group_hash_axioms;

    match have.get(&season) {
        Some(n) => *n,
        None => 0,
    }
}

/// Which of TMDB's seasons (season number, episode count) a refresh re-fetches,
/// by position: those new to us or with more episodes than we hold.
pub fn seasons_to_fetch(have: &HashMap<i32, i64>, seasons: &[(i32, i32)]) -> (r: Vec<usize>)
    ensures
        forall|k: int| 0 <= k < r@.len() ==> #[trigger] r@[k] < seasons@.len() && needs_fetch(
            have@,
            seasons@[r@[k] as int],
        ),
        forall|k: int, l: int| 0 <= k < l < r@.len() ==> #[trigger] r@[k] < #[trigger] r@[l],
        forall|j: int|
            0 <= j < seasons@.len() && #[trigger] needs_fetch(have@, seasons@[j]) ==> r@.contains(
                j as usize,
            ),
{
    let mut out: Vec<usize> = Vec::new();
    let mut i: usize = 0;
    while i < seasons.len()
        invariant
            i <= seasons@.len(),
            forall|k: int| 0 <= k < out@.len() ==> #[trigger] out@[k] < i && needs_fetch(
                have@,
                seasons@[out@[k] as int],
            ),
            forall|k: int, l: int| 0 <= k < l < out@.len() ==> #[trigger] out@[k] < #[trigger] out@[l],
            forall|j: int| 0 <= j < i && #[trigger] needs_fetch(have@, seasons@[j]) ==> out@.contains(
                j as usize,
            ),
        decreases seasons@.len() - i,
    {
        let (number, count) = seasons[i];
        let held = count_for(have, number);
        if held < count as i64 {
            let ghost before = out@;
            out.push(i);
            assert forall|j: int| 0 <= j < i + 1 && #[trigger] needs_fetch(have@, seasons@[j]) implies out@.contains(
                j as usize,
            ) by {
                if j < i {
                    let w = choose|w: int| 0 <= w < before.len() && before[w] == j as usize;
                    assert(out@[w] == j as usize);
                } else {
                    assert(out@[before.len() as int] == i);
                }
            }
        }
        i = i + 1;
    }
    out
}

} // verus!
