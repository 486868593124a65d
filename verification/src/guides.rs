//! User-authored skip guides: dispositions, input validation and the
//! authorization rules around editing, publishing and viewing a guide.
use vstd::prelude::*;
use crate::error::{AppError, is_bad_request};
use crate::text::{char_count, str_eq, trim, trim_str};

verus! {

/// Longest allowed guide title, in characters.
pub const MAX_TITLE: usize = 80;
/// Longest allowed guide description, in characters.
pub const MAX_DESCRIPTION: usize = 500;
/// A user may publish at most this many guides per show.
pub const MAX_PUBLISHED_PER_SHOW: i64 = 5;
/// Hard cap on entries per guide (bounds the request body).
pub const MAX_ENTRIES: usize = 5000;

/// What a guide says to do with one episode.
#[derive(Debug, Clone, Copy, PartialEq, Eq, Structural)]
pub enum Disposition {
    Watch,
    Optional,
    Skip,
}

impl Disposition {
    /// The database label of a disposition.
    pub open spec fn db_label(self) -> Seq<char> {
        match self {
            Disposition::Watch => "WATCH"@,
            Disposition::Optional => "OPTIONAL"@,
            Disposition::Skip => "SKIP"@,
        }
    }

    /// The disposition a database label names, if any.
    pub open spec fn from_label(s: Seq<char>) -> Option<Disposition> {
        if s == "WATCH"@ {
            Some(Disposition::Watch)
        } else if s == "OPTIONAL"@ {
            Some(Disposition::Optional)
        } else if s == "SKIP"@ {
            Some(Disposition::Skip)
        } else {
            None
        }
    }

    pub fn as_db(&self) -> (r: &'static str)
        ensures
            r@ == self.db_label(),
    {
        match self {
            Disposition::Watch => "WATCH",
            Disposition::Optional => "OPTIONAL",
            Disposition::Skip => "SKIP",
        }
    }

    pub fn from_db(s: &str) -> (r: Option<Disposition>)
        ensures
            r == Disposition::from_label(s@),
    {
        if str_eq(s, "WATCH") {
            Some(Disposition::Watch)
        } else if str_eq(s, "OPTIONAL") {
            Some(Disposition::Optional)
        } else if str_eq(s, "SKIP") {
            Some(Disposition::Skip)
        } else {
            None
        }
    }
}

/// Parsing a disposition's database label gives the disposition back.
pub proof fn lemma_disposition_db_round_trip(d: Disposition)
    ensures
        Disposition::from_label(d.db_label()) == Some(d),
{
    reveal_strlit("WATCH");
    reveal_strlit("OPTIONAL");
    reveal_strlit("SKIP");
    assert("WATCH"@.len() != "OPTIONAL"@.len());
    assert("SKIP"@.len() != "OPTIONAL"@.len());
    assert("SKIP"@[0] != "WATCH"@[0]);
}

/// One episode's verdict in a submitted guide.
#[derive(Debug, Clone, Copy)]
pub struct GuideEntryInput {
    /// The episode's id (the 128 bits of its UUID).
    pub episode_id: u128,
    pub disposition: Disposition,
}

/// A guide as submitted for creation or update.
#[derive(Debug, Clone)]
pub struct GuideInput {
    pub title: String,
    pub description: Option<String>,
    pub entries: Vec<GuideEntryInput>,
    pub published: bool,
}

/// The outcome of validating a guide input: the trimmed title and the trimmed
/// description (none when blank), or the first problem found.
pub enum CleanOutcome {
    Clean(Seq<char>, Option<Seq<char>>),
    Problem(Seq<char>),
}

/// What validating `input` gives, checks in order: title present, title
/// length, description length, at least one entry, at most `MAX_ENTRIES`.
pub open spec fn clean_outcome(title: Seq<char>, description: Option<Seq<char>>, entries: nat) -> CleanOutcome {
    let t = trim(title);
    if t.len() == 0 {
        CleanOutcome::Problem("a title is required"@)
    } else if t.len() > MAX_TITLE {
        CleanOutcome::Problem("title must be at most 80 characters"@)
    } else {
        let d = match description {
            Some(d) => if trim(d).len() > 0 {
                Some(trim(d))
            } else {
                None
            },
            None => None,
        };
        if d matches Some(dd) && dd.len() > MAX_DESCRIPTION {
            CleanOutcome::Problem("description must be at most 500 characters"@)
        } else if entries == 0 {
            CleanOutcome::Problem("add at least one episode"@)
        } else if entries > MAX_ENTRIES {
            CleanOutcome::Problem("too many episodes"@)
        } else {
            CleanOutcome::Clean(t, d)
        }
    }
}

pub open spec fn opt_text(o: Option<String>) -> Option<Seq<char>> {
    match o {
        Some(s) => Some(s@),
        None => None,
    }
}

impl GuideInput {
    /// Validate and normalize the input. Returns the trimmed title and the cleaned
    /// description (None when blank), or a `BadRequest` describing the problem.
    pub fn clean(&self) -> (r: Result<(String, Option<String>), AppError>)
        ensures
            match clean_outcome(self.title@, opt_text(self.description), self.entries@.len()) {
                CleanOutcome::Clean(t, d) => r matches Ok((rt, rd)) && rt@ == t && opt_text(rd) == d,
                CleanOutcome::Problem(m) => r matches Err(e) && is_bad_request(e, m),
            },
    {
        let title = trim_str(self.title.as_str());
        if char_count(title.as_str()) == 0 {
            return Err(AppError::BadRequest("a title is required".to_string()));
        }
        if char_count(title.as_str()) > MAX_TITLE {
            return Err(AppError::BadRequest("title must be at most 80 characters".to_string()));
        }
        let description = match &self.description {
            Some(d) => {
                let t = trim_str(d.as_str());
                if char_count(t.as_str()) > 0 {
                    if char_count(t.as_str()) > MAX_DESCRIPTION {
                        return Err(
                            AppError::BadRequest(
                                "description must be at most 500 characters".to_string(),
                            ),
                        );
                    }
                    Some(t)
                } else {
                    None
                }
            },
            None => None,
        };
        if self.entries.len() == 0 {
            return Err(AppError::BadRequest("add at least one episode".to_string()));
        }
        if self.entries.len() > MAX_ENTRIES {
            return Err(AppError::BadRequest("too many episodes".to_string()));
        }
        Ok((title, description))
    }
}

/// Validation accepts exactly the guides it should: an accepted guide has a
/// title of 1 to `MAX_TITLE` characters once trimmed, a description of at most
/// `MAX_DESCRIPTION` characters once trimmed, and between 1 and `MAX_ENTRIES`
/// entries; it keeps the trimmed title and the trimmed description, which is
/// dropped when blank. A guide with no entries whose title and description pass
/// is refused with "add at least one episode", and one with too many with "too
/// many episodes".
pub proof fn lemma_clean_accepts_only_valid_guides(
    title: Seq<char>,
    description: Option<Seq<char>>,
    entries: nat,
)
    ensures
        clean_outcome(title, description, entries) matches CleanOutcome::Clean(t, d) ==> {
            &&& t == trim(title)
            &&& 1 <= t.len() <= MAX_TITLE
            &&& 1 <= entries <= MAX_ENTRIES
            &&& d == match description {
                Some(x) => if trim(x).len() > 0 {
                    Some(trim(x))
                } else {
                    None
                },
                None => None,
            }
            &&& d matches Some(x) ==> x.len() <= MAX_DESCRIPTION
        },
        ({
            let desc_ok = match description {
                Some(x) => trim(x).len() <= MAX_DESCRIPTION,
                None => true,
            };
            1 <= trim(title).len() <= MAX_TITLE && desc_ok ==> {
                &&& entries == 0 ==> clean_outcome(title, description, entries)
                    == CleanOutcome::Problem("add at least one episode"@)
                &&& entries > MAX_ENTRIES ==> clean_outcome(title, description, entries)
                    == CleanOutcome::Problem("too many episodes"@)
                &&& 1 <= entries <= MAX_ENTRIES ==> clean_outcome(title, description, entries) is Clean
            }
        }),
{
}

/// The episode ids of a guide input, in order.
pub open spec fn entry_ids(entries: Seq<GuideEntryInput>) -> Seq<u128> {
    entries.map_values(|e: GuideEntryInput| e.episode_id)
}

/// The episode ids of a guide, refusing a guide that lists an episode twice.
pub fn distinct_episode_ids(input: &GuideInput) -> (r: Result<Vec<u128>, AppError>)
    ensures
        entry_ids(input.entries@).no_duplicates() ==> (r matches Ok(ids) && ids@ == entry_ids(
            input.entries@,
        )),
        !entry_ids(input.entries@).no_duplicates() ==> (r matches Err(e) && is_bad_request(
            e,
            "an episode is listed more than once"@,
        )),
{
    let ghost all = entry_ids(input.entries@);
    let mut ids: Vec<u128> = Vec::new();
    let mut i: usize = 0;
    while i < input.entries.len()
        invariant
            all == entry_ids(input.entries@),
            i <= input.entries@.len(),
            ids@ == all.take(i as int),
            ids@.no_duplicates(),
        decreases input.entries@.len() - i,
    {
        let id = input.entries[i].episode_id;
        let mut j: usize = 0;
        while j < ids.len()
            invariant
                all == entry_ids(input.entries@),
                i < input.entries@.len(),
                ids@ == all.take(i as int),
                id == all[i as int],
                j <= ids@.len(),
                forall|k: int| 0 <= k < j ==> ids@[k] != id,
            decreases ids@.len() - j,
        {
            if ids[j] == id {
                proof {
                    assert(all[j as int] == all[i as int]);
                    assert(!all.no_duplicates());
                }
                return Err(AppError::BadRequest("an episode is listed more than once".to_string()));
            }
            j = j + 1;
        }
        ids.push(id);
        i = i + 1;
        assert(ids@ =~= all.take(i as int));
    }
    assert(all.take(all.len() as int) == all);
    Ok(ids)
}

/// Every listed episode was found in the show: `matched` (the count of listed
/// episodes that belong to the show) must equal the number listed.
pub fn check_entries_belong(matched: i64, listed: usize) -> (r: Result<(), AppError>)
    ensures
        (matched == listed as int) ==> r is Ok,
        (matched != listed as int) ==> (r matches Err(e) && is_bad_request(
            e,
            "a listed episode doesn't belong to this show"@,
        )),
{
    if matched < 0 || matched as u64 != listed as u64 {
        return Err(AppError::BadRequest("a listed episode doesn't belong to this show".to_string()));
    }
    Ok(())
}

/// A save may go ahead: drafts always, a published guide while the author has
/// fewer than `MAX_PUBLISHED_PER_SHOW` other guides published for the show.
pub open spec fn publish_allowed(published: bool, already_published: int) -> bool {
    !(published && already_published >= MAX_PUBLISHED_PER_SHOW)
}

/// Publishing is capped per author and show: a guide being published when the
/// author already has `MAX_PUBLISHED_PER_SHOW` others published is refused.
pub fn check_publish_cap(published: bool, already_published: i64) -> (r: Result<(), AppError>)
    ensures
        !publish_allowed(published, already_published as int) ==> (r matches Err(e)
            && is_bad_request(e, "you can publish at most 5 guides per show"@)),
        publish_allowed(published, already_published as int) ==> r is Ok,
{
    if published && already_published >= MAX_PUBLISHED_PER_SHOW {
        return Err(AppError::BadRequest("you can publish at most 5 guides per show".to_string()));
    }
    Ok(())
}

/// The published guides of one author for one show after saving `guide` (a
/// new guide, or an edit of one of theirs) as published or as a draft: `None`
/// when the cap refuses the save, which then writes nothing. The cap is checked
/// against the author's other published guides, as `check_publish_cap` is.
pub open spec fn published_after_save(published: Set<u128>, guide: u128, publish: bool) -> Option<
    Set<u128>,
> {
    if !publish_allowed(publish, published.remove(guide).len() as int) {
        None
    } else if publish {
        Some(published.insert(guide))
    } else {
        Some(published.remove(guide))
    }
}

/// The publish cap holds across saves: starting from at most
/// `MAX_PUBLISHED_PER_SHOW` published guides, any save leaves at most that many;
/// a draft is never refused; publishing one more beyond the cap is refused and
/// changes nothing; and re-saving an already published guide is never refused.
pub proof fn lemma_publish_cap_holds(published: Set<u128>, guide: u128, publish: bool)
    requires
        published.finite(),
        published.len() <= MAX_PUBLISHED_PER_SHOW,
    ensures
        published_after_save(published, guide, publish) matches Some(after) ==> after.finite()
            && after.len() <= MAX_PUBLISHED_PER_SHOW,
        !publish ==> published_after_save(published, guide, publish) is Some,
        publish && !published.contains(guide) && published.len() == MAX_PUBLISHED_PER_SHOW
            ==> published_after_save(published, guide, publish) is None,
        published.contains(guide) ==> published_after_save(published, guide, publish) is Some,
{
    if published.contains(guide) {
        assert(published.remove(guide).len() == published.len() - 1);
        assert(published.remove(guide).insert(guide) =~= published);
    } else {
        assert(published.remove(guide) =~= published);
    }
}

/// Lightweight ownership/visibility metadata for authorization checks.
#[derive(Debug, Clone, Copy)]
pub struct GuideMeta {
    pub author_id: Option<u128>,
    pub show_id: u128,
    pub is_published: bool,
}

/// Only a guide's author may edit or delete it: a missing guide is not found,
/// anyone else is forbidden.
pub fn authorize_author(meta: Option<GuideMeta>, user_id: u128) -> (r: Result<GuideMeta, AppError>)
    ensures
        meta.is_none() ==> (r matches Err(e) && crate::error::is_not_found(e, "guide not found"@)),
        meta matches Some(m) ==> if m.author_id == Some(user_id) {
            r == Ok::<GuideMeta, AppError>(m)
        } else {
            r matches Err(AppError::Forbidden)
        },
{
    match meta {
        None => Err(AppError::NotFound("guide not found".to_string())),
        Some(m) => {
            if m.author_id == Some(user_id) {
                Ok(m)
            } else {
                Err(AppError::Forbidden)
            }
        },
    }
}

/// A guide is visible to `viewer` when published, or a draft of their own.
pub open spec fn visible_to(is_published: bool, author_id: Option<u128>, viewer: Option<u128>) -> bool {
    is_published || (viewer is Some && author_id == viewer)
}

/// Whether a guide may be seen (and liked) by `viewer`; a hidden draft reads as
/// not found, so it cannot be probed.
pub fn check_visible(meta: Option<GuideMeta>, viewer: Option<u128>) -> (r: Result<(), AppError>)
    ensures
        (meta matches Some(m) && visible_to(m.is_published, m.author_id, viewer)) ==> r is Ok,
        !(meta matches Some(m) && visible_to(m.is_published, m.author_id, viewer)) ==> (r matches Err(
            e,
        ) && crate::error::is_not_found(e, "guide not found"@)),
{
    match meta {
        Some(m) => {
            let own = match viewer {
                Some(v) => m.author_id == Some(v),
                None => false,
            };
            if m.is_published || own {
                return Ok(());
            }
        },
        None => {},
    }
    Err(AppError::NotFound("guide not found".to_string()))
}

/// One entry of a guide as displayed.
#[derive(Debug, Clone)]
pub struct GuideEntryView {
    pub episode_id: String,
    pub season_number: i32,
    pub episode_number: i32,
    pub name: Option<String>,
    pub disposition: Disposition,
    /// Whether the viewer has marked the episode watched.
    pub watched: bool,
}

/// A full guide with its ordered entries.
#[derive(Debug, Clone)]
pub struct GuideDetail {
    pub id: String,
    pub show_id: String,
    pub show_slug: String,
    pub show_name: String,
    pub poster_path: Option<String>,
    pub title: String,
    pub description: Option<String>,
    pub author_name: Option<String>,
    pub like_count: i64,
    pub is_published: bool,
    pub my_like: bool,
    pub mine: bool,
    pub entries: Vec<GuideEntryView>,
}

/// A published guide in a show's list, with the viewer's like and ownership.
#[derive(Debug, Clone)]
pub struct GuideSummary {
    pub id: String,
    pub title: String,
    pub description: Option<String>,
    pub author_name: Option<String>,
    pub like_count: i64,
    pub watch_count: i64,
    pub optional_count: i64,
    pub skip_count: i64,
    pub is_published: bool,
    /// Whether the viewer has liked this guide (false when signed out).
    pub my_like: bool,
    /// Whether the viewer is the author (false when signed out).
    pub mine: bool,
}

/// One of the viewer's own guides, for their account page.
#[derive(Debug, Clone)]
pub struct MyGuide {
    pub id: String,
    pub title: String,
    pub is_published: bool,
    pub like_count: i64,
    pub show_slug: String,
    pub show_name: String,
}

/// A guide entry as the database returns it, its disposition still a label.
#[derive(Debug, Clone)]
pub struct GuideEntryRow {
    pub episode_id: String,
    pub season_number: i32,
    pub episode_number: i32,
    pub name: Option<String>,
    pub disposition: String,
    pub watched: bool,
}

/// The displayed entries of a guide: the rows whose disposition label is
/// known, in order, with the label read.
pub open spec fn entries_of_rows(rows: Seq<GuideEntryRow>) -> Seq<GuideEntryView>
    decreases rows.len(),
{
    if rows.len() == 0 {
        Seq::empty()
    } else {
        let prev = entries_of_rows(rows.drop_last());
        let r = rows.last();
        match Disposition::from_label(r.disposition@) {
            Some(d) => prev.push(
                GuideEntryView {
                    episode_id: r.episode_id,
                    season_number: r.season_number,
                    episode_number: r.episode_number,
                    name: r.name,
                    disposition: d,
                    watched: r.watched,
                },
            ),
            None => prev,
        }
    }
}

/// The entries of a guide from its rows; a row with an unknown disposition is
/// left out.
pub fn guide_entries(rows: &[GuideEntryRow]) -> (r: Vec<GuideEntryView>)
    ensures
        r@ == entries_of_rows(rows@),
{
    let mut out: Vec<GuideEntryView> = Vec::new();
    let mut i: usize = 0;
    while i < rows.len()
        invariant
            i <= rows@.len(),
            out@ == entries_of_rows(rows@.take(i as int)),
        decreases rows@.len() - i,
    {
        assert(rows@.take(i + 1).drop_last() == rows@.take(i as int));
        let row = &rows[i];
        match Disposition::from_db(row.disposition.as_str()) {
            Some(d) => {
                let name = match &row.name {
                    Some(n) => Some(n.clone()),
                    None => None,
                };
                out.push(
                    GuideEntryView {
                        episode_id: row.episode_id.clone(),
                        season_number: row.season_number,
                        episode_number: row.episode_number,
                        name,
                        disposition: d,
                        watched: row.watched,
                    },
                );
            },
            None => {},
        }
        i = i + 1;
    }
    assert(rows@.take(rows@.len() as int) == rows@);
    out
}

} // verus!
