//! Filler scoring and skip-guide derivation: the voting math. These constants
//! define the public voting behaviour.
use vstd::prelude::*;
use crate::text::str_eq;
use crate::order::{is_stable_order, precedes, sort_indices, stable_order};

verus! {

/// Minimum total votes before a confident label is shown at all.
pub const MIN_VOTES: i64 = 5;

/// If the plurality lead over the runner-up is within this percentage of the
/// total, the episode is contested rather than labelled.
pub const CONTESTED_MARGIN_PERCENT: i64 = 10;

/// A user's vote.
#[derive(Debug, Clone, Copy, PartialEq, Eq, Structural)]
pub enum VoteValue {
    Filler,
    WorthWatching,
    Canon,
}

impl VoteValue {
    /// The database (and wire) label of a vote value.
    pub open spec fn db_label(self) -> Seq<char> {
        match self {
            VoteValue::Filler => "FILLER"@,
            VoteValue::WorthWatching => "WORTH_WATCHING"@,
            VoteValue::Canon => "CANON"@,
        }
    }

    /// The vote value a database label names, if any.
    pub open spec fn from_label(s: Seq<char>) -> Option<VoteValue> {
        if s == "FILLER"@ {
            Some(VoteValue::Filler)
        } else if s == "WORTH_WATCHING"@ {
            Some(VoteValue::WorthWatching)
        } else if s == "CANON"@ {
            Some(VoteValue::Canon)
        } else {
            None
        }
    }

    /// The Postgres `vote_value` label for this vote.
    pub fn as_db(&self) -> (r: &'static str)
        ensures
            r@ == self.db_label(),
    {
        match self {
            VoteValue::Filler => "FILLER",
            VoteValue::WorthWatching => "WORTH_WATCHING",
            VoteValue::Canon => "CANON",
        }
    }

    /// Parse a Postgres `vote_value` label back into a `VoteValue`.
    pub fn from_db(s: &str) -> (r: Option<VoteValue>)
        ensures
            r == VoteValue::from_label(s@),
    {
        if str_eq(s, "FILLER") {
            Some(VoteValue::Filler)
        } else if str_eq(s, "WORTH_WATCHING") {
            Some(VoteValue::WorthWatching)
        } else if str_eq(s, "CANON") {
            Some(VoteValue::Canon)
        } else {
            None
        }
    }
}

/// Parsing a vote value's database label gives the value back.
pub proof fn lemma_vote_value_db_round_trip(v: VoteValue)
    ensures
        VoteValue::from_label(v.db_label()) == Some(v),
{
    reveal_strlit("FILLER");
    reveal_strlit("WORTH_WATCHING");
    reveal_strlit("CANON");
    assert("WORTH_WATCHING"@.len() != "FILLER"@.len());
    assert("CANON"@.len() != "FILLER"@.len());
    assert("CANON"@.len() != "WORTH_WATCHING"@.len());
}

/// A label that parses to a vote value is exactly that value's label.
pub proof fn lemma_vote_value_label_unique(s: Seq<char>, v: VoteValue)
    requires
        VoteValue::from_label(s) == Some(v),
    ensures
        s == v.db_label(),
{
}

/// An optional reason tag a voter can attach to their vote. Tags are scoped to
/// one vote value each.
#[derive(Debug, Clone, Copy, PartialEq, Eq, Structural)]
pub enum VoteReason {
    Recap,
    SideStory,
    FunButSkippable,
    SelfContainedGem,
    CharacterMoment,
    Worldbuilding,
    MajorPlot,
    CharacterDevelopment,
    ArcSetup,
}

impl VoteReason {
    /// The database / wire string of a reason (kebab-case).
    pub open spec fn wire(self) -> Seq<char> {
        match self {
            VoteReason::Recap => "recap"@,
            VoteReason::SideStory => "side-story"@,
            VoteReason::FunButSkippable => "fun-but-skippable"@,
            VoteReason::SelfContainedGem => "self-contained-gem"@,
            VoteReason::CharacterMoment => "character-moment"@,
            VoteReason::Worldbuilding => "worldbuilding"@,
            VoteReason::MajorPlot => "major-plot"@,
            VoteReason::CharacterDevelopment => "character-development"@,
            VoteReason::ArcSetup => "arc-setup"@,
        }
    }

    /// The reason a wire string names, if any.
    pub open spec fn from_wire(s: Seq<char>) -> Option<VoteReason> {
        if s == "recap"@ {
            Some(VoteReason::Recap)
        } else if s == "side-story"@ {
            Some(VoteReason::SideStory)
        } else if s == "fun-but-skippable"@ {
            Some(VoteReason::FunButSkippable)
        } else if s == "self-contained-gem"@ {
            Some(VoteReason::SelfContainedGem)
        } else if s == "character-moment"@ {
            Some(VoteReason::CharacterMoment)
        } else if s == "worldbuilding"@ {
            Some(VoteReason::Worldbuilding)
        } else if s == "major-plot"@ {
            Some(VoteReason::MajorPlot)
        } else if s == "character-development"@ {
            Some(VoteReason::CharacterDevelopment)
        } else if s == "arc-setup"@ {
            Some(VoteReason::ArcSetup)
        } else {
            None
        }
    }

    /// The vote value a reason belongs to.
    pub open spec fn owner(self) -> VoteValue {
        match self {
            VoteReason::Recap | VoteReason::SideStory | VoteReason::FunButSkippable => VoteValue::Filler,
            VoteReason::SelfContainedGem | VoteReason::CharacterMoment
            | VoteReason::Worldbuilding => VoteValue::WorthWatching,
            VoteReason::MajorPlot | VoteReason::CharacterDevelopment
            | VoteReason::ArcSetup => VoteValue::Canon,
        }
    }

    /// The three reasons valid for a vote value, in display order.
    pub open spec fn reasons_for(value: VoteValue) -> Seq<VoteReason> {
        match value {
            VoteValue::Filler => seq![
                VoteReason::Recap,
                VoteReason::SideStory,
                VoteReason::FunButSkippable,
            ],
            VoteValue::WorthWatching => seq![
                VoteReason::SelfContainedGem,
                VoteReason::CharacterMoment,
                VoteReason::Worldbuilding,
            ],
            VoteValue::Canon => seq![
                VoteReason::MajorPlot,
                VoteReason::CharacterDevelopment,
                VoteReason::ArcSetup,
            ],
        }
    }

    /// The human-readable label of a reason.
    pub open spec fn label_text(self) -> Seq<char> {
        match self {
            VoteReason::Recap => "Recap episode"@,
            VoteReason::SideStory => "Side story, no plot"@,
            VoteReason::FunButSkippable => "Fun but skippable"@,
            VoteReason::SelfContainedGem => "Self-contained gem"@,
            VoteReason::CharacterMoment => "Great character moment"@,
            VoteReason::Worldbuilding => "Worldbuilding"@,
            VoteReason::MajorPlot => "Major plot"@,
            VoteReason::CharacterDevelopment => "Character development"@,
            VoteReason::ArcSetup => "Sets up a later arc"@,
        }
    }

    /// The DB/wire string for this reason.
    pub fn as_str(&self) -> (r: &'static str)
        ensures
            r@ == self.wire(),
    {
        match self {
            VoteReason::Recap => "recap",
            VoteReason::SideStory => "side-story",
            VoteReason::FunButSkippable => "fun-but-skippable",
            VoteReason::SelfContainedGem => "self-contained-gem",
            VoteReason::CharacterMoment => "character-moment",
            VoteReason::Worldbuilding => "worldbuilding",
            VoteReason::MajorPlot => "major-plot",
            VoteReason::CharacterDevelopment => "character-development",
            VoteReason::ArcSetup => "arc-setup",
        }
    }

    /// Parse a DB/wire reason string.
    pub fn from_str(s: &str) -> (r: Option<VoteReason>)
        ensures
            r == VoteReason::from_wire(s@),
    {
        if str_eq(s, "recap") {
            Some(VoteReason::Recap)
        } else if str_eq(s, "side-story") {
            Some(VoteReason::SideStory)
        } else if str_eq(s, "fun-but-skippable") {
            Some(VoteReason::FunButSkippable)
        } else if str_eq(s, "self-contained-gem") {
            Some(VoteReason::SelfContainedGem)
        } else if str_eq(s, "character-moment") {
            Some(VoteReason::CharacterMoment)
        } else if str_eq(s, "worldbuilding") {
            Some(VoteReason::Worldbuilding)
        } else if str_eq(s, "major-plot") {
            Some(VoteReason::MajorPlot)
        } else if str_eq(s, "character-development") {
            Some(VoteReason::CharacterDevelopment)
        } else if str_eq(s, "arc-setup") {
            Some(VoteReason::ArcSetup)
        } else {
            None
        }
    }

    /// All three reasons valid for a given vote value, in display order.
    pub fn valid_for(value: VoteValue) -> (r: Vec<VoteReason>)
        ensures
            r@ == VoteReason::reasons_for(value),
    {
        match value {
            VoteValue::Filler => vec![
                VoteReason::Recap,
                VoteReason::SideStory,
                VoteReason::FunButSkippable,
            ],
            VoteValue::WorthWatching => vec![
                VoteReason::SelfContainedGem,
                VoteReason::CharacterMoment,
                VoteReason::Worldbuilding,
            ],
            VoteValue::Canon => vec![
                VoteReason::MajorPlot,
                VoteReason::CharacterDevelopment,
                VoteReason::ArcSetup,
            ],
        }
    }

    /// Return `true` if this reason tag is valid for `value`.
    pub fn is_valid_for(&self, value: VoteValue) -> (r: bool)
        ensures
            r == VoteReason::reasons_for(value).contains(*self),
    {
        let valid = VoteReason::valid_for(value);
        let mut i: usize = 0;
        while i < valid.len()
            invariant
                valid@ == VoteReason::reasons_for(value),
                i <= valid@.len(),
                forall|k: int| 0 <= k < i ==> valid@[k] != *self,
            decreases valid@.len() - i,
        {
            if valid[i] == *self {
                return true;
            }
            i = i + 1;
        }
        false
    }

    /// Human-readable label.
    pub fn label(&self) -> (r: &'static str)
        ensures
            r@ == self.label_text(),
    {
        match self {
            VoteReason::Recap => "Recap episode",
            VoteReason::SideStory => "Side story, no plot",
            VoteReason::FunButSkippable => "Fun but skippable",
            VoteReason::SelfContainedGem => "Self-contained gem",
            VoteReason::CharacterMoment => "Great character moment",
            VoteReason::Worldbuilding => "Worldbuilding",
            VoteReason::MajorPlot => "Major plot",
            VoteReason::CharacterDevelopment => "Character development",
            VoteReason::ArcSetup => "Sets up a later arc",
        }
    }
}

/// A reason is valid for exactly one vote value: the one it belongs to.
pub proof fn lemma_reason_valid_for_exactly_its_owner(r: VoteReason, v: VoteValue)
    ensures
        VoteReason::reasons_for(v).contains(r) <==> r.owner() == v,
{
    let s = VoteReason::reasons_for(v);
    if r.owner() == v {
        let k: int = match r {
            VoteReason::Recap | VoteReason::SelfContainedGem | VoteReason::MajorPlot => 0,
            VoteReason::SideStory | VoteReason::CharacterMoment
            | VoteReason::CharacterDevelopment => 1,
            _ => 2,
        };
        assert(s[k] == r);
    } else {
        assert forall|k: int| 0 <= k < s.len() implies s[k] != r by {}
    }
}

/// Every vote value has exactly three valid reasons, all distinct.
pub proof fn lemma_three_distinct_reasons_per_value(v: VoteValue)
    ensures
        VoteReason::reasons_for(v).len() == 3,
        VoteReason::reasons_for(v).no_duplicates(),
{
}

/// Parsing a reason's wire string gives the reason back.
pub proof fn lemma_vote_reason_wire_round_trip(r: VoteReason)
    ensures
        VoteReason::from_wire(r.wire()) == Some(r),
{
    reveal_strlit("recap");
    reveal_strlit("side-story");
    reveal_strlit("fun-but-skippable");
    reveal_strlit("self-contained-gem");
    reveal_strlit("character-moment");
    reveal_strlit("worldbuilding");
    reveal_strlit("major-plot");
    reveal_strlit("character-development");
    reveal_strlit("arc-setup");
    let all = seq![
        "recap"@,
        "side-story"@,
        "fun-but-skippable"@,
        "self-contained-gem"@,
        "character-moment"@,
        "worldbuilding"@,
        "major-plot"@,
        "character-development"@,
        "arc-setup"@,
    ];
    assert forall|i: int, j: int| 0 <= i < j < 9 implies all[i] != all[j] by {
        if all[i].len() == all[j].len() {
            assert(all[i][0] != all[j][0]);
        }
    }
    assert(all[0] != all[1] && all[0] != all[2]);
}

/// Every reason has a non-empty label.
pub proof fn lemma_reason_labels_non_empty(r: VoteReason)
    ensures
        r.label_text().len() > 0,
{
    reveal_strlit("Recap episode");
    reveal_strlit("Side story, no plot");
    reveal_strlit("Fun but skippable");
    reveal_strlit("Self-contained gem");
    reveal_strlit("Great character moment");
    reveal_strlit("Worldbuilding");
    reveal_strlit("Major plot");
    reveal_strlit("Character development");
    reveal_strlit("Sets up a later arc");
}

/// The displayed status of an episode.
#[derive(Debug, Clone, Copy, PartialEq, Eq, Structural)]
pub enum EpisodeStatus {
    Canon,
    WorthWatching,
    Filler,
    Contested,
    NotEnoughVotes,
}

pub open spec fn max3(a: int, b: int, c: int) -> int {
    if a >= b && a >= c {
        a
    } else if b >= c {
        b
    } else {
        c
    }
}

pub open spec fn min3(a: int, b: int, c: int) -> int {
    if a <= b && a <= c {
        a
    } else if b <= c {
        b
    } else {
        c
    }
}

/// The status the votes `(filler, worth_watching, canon)` earn: too few votes
/// below `MIN_VOTES`; otherwise the plurality value, unless its lead over the
/// runner-up is at most `CONTESTED_MARGIN_PERCENT` percent of the total.
pub open spec fn status_of(f: int, w: int, c: int) -> EpisodeStatus {
    let total = f + w + c;
    if total < MIN_VOTES {
        EpisodeStatus::NotEnoughVotes
    } else {
        let top = max3(f, w, c);
        let second = total - top - min3(f, w, c);
        if (top - second) * 100 <= CONTESTED_MARGIN_PERCENT * total {
            EpisodeStatus::Contested
        } else if f == top {
            EpisodeStatus::Filler
        } else if w == top {
            EpisodeStatus::WorthWatching
        } else {
            EpisodeStatus::Canon
        }
    }
}

/// Derive the displayed status by plurality, applying the confidence floor
/// (`MIN_VOTES`) and the contested margin.
pub fn status(filler: i64, worth_watching: i64, canon: i64) -> (r: EpisodeStatus)
    requires
        i64::MIN <= filler + worth_watching <= i64::MAX,
        i64::MIN <= filler + worth_watching + canon <= i64::MAX,
    ensures
        r == status_of(filler as int, worth_watching as int, canon as int),
{
    let total: i64 = filler + worth_watching + canon;
    if total < MIN_VOTES {
        return EpisodeStatus::NotEnoughVotes;
    }
    let (f, w, c) = (filler as i128, worth_watching as i128, canon as i128);
    let top: i128 = if f >= w && f >= c {
        f
    } else if w >= c {
        w
    } else {
        c
    };
    let low: i128 = if f <= w && f <= c {
        f
    } else if w <= c {
        w
    } else {
        c
    };
    let t = total as i128;
    let second: i128 = t - top - low;
    if (top - second) * 100 <= (CONTESTED_MARGIN_PERCENT as i128) * t {
        EpisodeStatus::Contested
    } else if f == top {
        EpisodeStatus::Filler
    } else if w == top {
        EpisodeStatus::WorthWatching
    } else {
        EpisodeStatus::Canon
    }
}

/// A labelled (not contested, not too-few-votes) status names the strict
/// plurality winner, which leads the runner-up by more than the margin.
pub proof fn lemma_label_is_strict_plurality(f: int, w: int, c: int)
    ensures
        status_of(f, w, c) == EpisodeStatus::Filler ==> f > w && f > c,
        status_of(f, w, c) == EpisodeStatus::WorthWatching ==> w > f && w > c,
        status_of(f, w, c) == EpisodeStatus::Canon ==> c > f && c > w,
        status_of(f, w, c) == EpisodeStatus::NotEnoughVotes <==> f + w + c < MIN_VOTES,
{
}

/// A tie for the most votes is never labelled once there are enough votes.
pub proof fn lemma_tie_for_top_is_contested(f: int, w: int, c: int)
    requires
        f + w + c >= MIN_VOTES,
        max3(f, w, c) == f && (w == f || c == f) || max3(f, w, c) == w && c == w,
    ensures
        status_of(f, w, c) == EpisodeStatus::Contested,
{
}

/// The `vote_value` label of the plurality winner a status names, if it names one.
pub open spec fn plurality_label(s: EpisodeStatus) -> Option<Seq<char>> {
    match s {
        EpisodeStatus::Filler => Some(VoteValue::Filler.db_label()),
        EpisodeStatus::WorthWatching => Some(VoteValue::WorthWatching.db_label()),
        EpisodeStatus::Canon => Some(VoteValue::Canon.db_label()),
        _ => None,
    }
}

/// Map a status to the `vote_value` DB string of the plurality winner, or
/// `None` when the episode is contested or has too few votes.
pub fn plurality_value(status: EpisodeStatus) -> (r: Option<&'static str>)
    ensures
        r.is_some() == plurality_label(status).is_some(),
        r matches Some(s) ==> Some(s@) == plurality_label(status),
{
    match status {
        EpisodeStatus::Filler => Some(VoteValue::Filler.as_db()),
        EpisodeStatus::WorthWatching => Some(VoteValue::WorthWatching.as_db()),
        EpisodeStatus::Canon => Some(VoteValue::Canon.as_db()),
        EpisodeStatus::Contested | EpisodeStatus::NotEnoughVotes => None,
    }
}

/// The rating, in thousandths of a point, at or above which `Binge` mode rescues
/// a WorthWatching episode into the watch list (7.0 points).
pub const BINGE_RESCUE_RATING_MILLI: i64 = 7000;

/// The four skip-guide modes governing how episodes are partitioned.
#[derive(Debug, Clone, Copy, PartialEq, Eq, Structural)]
pub enum GuideMode {
    /// Skip only confirmed Filler; everything else is watched. `optional` is empty.
    Completionist,
    /// Canon → watch, WorthWatching → optional, Filler → skipped, unsure → watch.
    Standard,
    /// Watch = Canon + unsure only; WorthWatching and Filler are skipped.
    CanonOnly,
    /// Like CanonOnly, but WorthWatching episodes rated at least 7.0 are watched.
    Binge,
}

/// An episode plus its raw vote counts, the input to the skip guide.
#[derive(Debug, Clone)]
pub struct ScoredEpisode {
    pub episode_id: String,
    pub season_number: i32,
    pub episode_number: i32,
    pub name: Option<String>,
    pub filler_votes: i64,
    pub worth_watching_votes: i64,
    pub canon_votes: i64,
    /// TMDB's audience rating (0–10) in thousandths of a point (7.0 is 7000);
    /// used by `Binge` mode.
    pub tmdb_rating_milli: Option<i64>,
    /// Episode runtime in minutes; used for the time-saved figure.
    pub runtime_minutes: Option<i32>,
}

/// The mathematical content of a `ScoredEpisode`.
pub struct EpisodeView {
    pub episode_id: Seq<char>,
    pub season_number: i32,
    pub episode_number: i32,
    pub name: Option<Seq<char>>,
    pub filler_votes: i64,
    pub worth_watching_votes: i64,
    pub canon_votes: i64,
    pub tmdb_rating_milli: Option<i64>,
    pub runtime_minutes: Option<i32>,
}

pub open spec fn opt_text(o: Option<String>) -> Option<Seq<char>> {
    match o {
        Some(s) => Some(s@),
        None => None,
    }
}

impl View for ScoredEpisode {
    type V = EpisodeView;

    open spec fn view(&self) -> EpisodeView {
        EpisodeView {
            episode_id: self.episode_id@,
            season_number: self.season_number,
            episode_number: self.episode_number,
            name: opt_text(self.name),
            filler_votes: self.filler_votes,
            worth_watching_votes: self.worth_watching_votes,
            canon_votes: self.canon_votes,
            tmdb_rating_milli: self.tmdb_rating_milli,
            runtime_minutes: self.runtime_minutes,
        }
    }
}

/// One episode's line in a skip guide.
#[derive(Debug, Clone)]
pub struct SkipGuideEntry {
    pub episode_id: String,
    pub season_number: i32,
    pub episode_number: i32,
    pub name: Option<String>,
    pub status: EpisodeStatus,
}

pub struct EntryView {
    pub episode_id: Seq<char>,
    pub season_number: i32,
    pub episode_number: i32,
    pub name: Option<Seq<char>>,
    pub status: EpisodeStatus,
}

impl View for SkipGuideEntry {
    type V = EntryView;

    open spec fn view(&self) -> EntryView {
        EntryView {
            episode_id: self.episode_id@,
            season_number: self.season_number,
            episode_number: self.episode_number,
            name: opt_text(self.name),
            status: self.status,
        }
    }
}

/// The voting thresholds a guide was built with.
#[derive(Debug, Clone)]
pub struct Thresholds {
    pub min_votes: i64,
    pub contested_margin_percent: i64,
}

/// A show's skip guide.
#[derive(Debug, Clone)]
pub struct SkipGuide {
    pub watch: Vec<SkipGuideEntry>,
    pub optional: Vec<SkipGuideEntry>,
    pub skipped: Vec<SkipGuideEntry>,
    pub thresholds: Thresholds,
    pub mode: GuideMode,
    pub valid_modes: Vec<&'static str>,
    pub minutes_skipped: Option<i64>,
}

/// The views of a list of entries.
pub open spec fn entry_views(v: Seq<SkipGuideEntry>) -> Seq<EntryView> {
    v.map_values(|e: SkipGuideEntry| e@)
}

/// The vote counts of an episode can be added without overflow.
pub open spec fn votes_addable(e: EpisodeView) -> bool {
    &&& i64::MIN <= e.filler_votes + e.worth_watching_votes <= i64::MAX
    &&& i64::MIN <= e.filler_votes + e.worth_watching_votes + e.canon_votes <= i64::MAX
}

pub open spec fn episode_status(e: EpisodeView) -> EpisodeStatus {
    status_of(e.filler_votes as int, e.worth_watching_votes as int, e.canon_votes as int)
}

/// Where a skip guide puts an episode.
#[derive(Debug, Clone, Copy, PartialEq, Eq, Structural)]
pub enum Bucket {
    Watch,
    Optional,
    Skipped,
}

/// A WorthWatching episode rated highly enough for `Binge` mode to keep it.
pub open spec fn binge_rescued(e: EpisodeView) -> bool {
    e.tmdb_rating_milli matches Some(r) && r >= BINGE_RESCUE_RATING_MILLI
}

/// The bucket `mode` assigns an episode, from its status.
pub open spec fn bucket_of(e: EpisodeView, mode: GuideMode) -> Bucket {
    let st = episode_status(e);
    match mode {
        GuideMode::Completionist => if st == EpisodeStatus::Filler {
            Bucket::Skipped
        } else {
            Bucket::Watch
        },
        GuideMode::Standard => match st {
            EpisodeStatus::Filler => Bucket::Skipped,
            EpisodeStatus::WorthWatching => Bucket::Optional,
            _ => Bucket::Watch,
        },
        GuideMode::CanonOnly => match st {
            EpisodeStatus::Filler | EpisodeStatus::WorthWatching => Bucket::Skipped,
            _ => Bucket::Watch,
        },
        GuideMode::Binge => match st {
            EpisodeStatus::Filler => Bucket::Skipped,
            EpisodeStatus::WorthWatching => if binge_rescued(e) {
                Bucket::Watch
            } else {
                Bucket::Skipped
            },
            _ => Bucket::Watch,
        },
    }
}

/// Specials (season 0) appear only when asked for.
pub open spec fn listed(e: EpisodeView, include_specials: bool) -> bool {
    e.season_number != 0 || include_specials
}

/// The sort keys of a list of episodes.
pub open spec fn episode_keys(eps: Seq<EpisodeView>) -> Seq<(i32, i32)> {
    eps.map_values(|e: EpisodeView| (e.season_number, e.episode_number))
}

/// The indices, taken in the order `o`, of the listed episodes in bucket `b`.
pub open spec fn members(
    eps: Seq<EpisodeView>,
    o: Seq<usize>,
    b: Bucket,
    mode: GuideMode,
    include_specials: bool,
) -> Seq<usize>
    decreases o.len(),
{
    if o.len() == 0 {
        Seq::empty()
    } else {
        let rest = members(eps, o.drop_last(), b, mode, include_specials);
        let e = eps[o.last() as int];
        if listed(e, include_specials) && bucket_of(e, mode) == b {
            rest.push(o.last())
        } else {
            rest
        }
    }
}

/// The indices of the episodes a guide puts in bucket `b`, in (season, episode) order.
pub open spec fn bucket_members(
    eps: Seq<EpisodeView>,
    b: Bucket,
    mode: GuideMode,
    include_specials: bool,
) -> Seq<usize> {
    members(eps, stable_order(episode_keys(eps)), b, mode, include_specials)
}

pub open spec fn entry_of(e: EpisodeView) -> EntryView {
    EntryView {
        episode_id: e.episode_id,
        season_number: e.season_number,
        episode_number: e.episode_number,
        name: e.name,
        status: episode_status(e),
    }
}

/// The entries of bucket `b`.
pub open spec fn bucket_entries(
    eps: Seq<EpisodeView>,
    b: Bucket,
    mode: GuideMode,
    include_specials: bool,
) -> Seq<EntryView> {
    bucket_members(eps, b, mode, include_specials).map_values(|i: usize| entry_of(eps[i as int]))
}

/// The known runtimes of a list of episodes, in order.
pub open spec fn known_runtimes(all: Seq<EpisodeView>) -> Seq<int>
    decreases all.len(),
{
    if all.len() == 0 {
        Seq::empty()
    } else {
        let r = known_runtimes(all.drop_last());
        match all.last().runtime_minutes {
            Some(m) => r.push(m as int),
            None => r,
        }
    }
}

pub open spec fn sum(s: Seq<int>) -> int
    decreases s.len(),
{
    if s.len() == 0 {
        0
    } else {
        sum(s.drop_last()) + s.last()
    }
}

/// `num / den` rounded to the nearest integer, halves away from zero (`den > 0`).
pub open spec fn round_div(num: int, den: int) -> int {
    if num >= 0 {
        (2 * num + den) / (2 * den)
    } else {
        -((2 * (-num) + den) / (2 * den))
    }
}

/// Minutes charged for skipping `skipped`: each episode's own runtime, else `avg`.
pub open spec fn charged_minutes(skipped: Seq<EpisodeView>, avg: int) -> int
    decreases skipped.len(),
{
    if skipped.len() == 0 {
        0
    } else {
        charged_minutes(skipped.drop_last(), avg) + match skipped.last().runtime_minutes {
            Some(m) => m as int,
            None => avg,
        }
    }
}

/// Time saved by skipping `skipped`: zero for none; unknown when no episode of
/// the show has a known runtime; otherwise each skipped episode's runtime,
/// falling back to the rounded show average.
pub open spec fn minutes_of(skipped: Seq<EpisodeView>, all: Seq<EpisodeView>) -> Option<int> {
    if skipped.len() == 0 {
        Some(0)
    } else {
        let k = known_runtimes(all);
        if k.len() == 0 {
            None
        } else {
            Some(charged_minutes(skipped, round_div(sum(k), k.len() as int)))
        }
    }
}

/// Every running total of `s`, from the empty prefix to the whole, is an `i64`.
pub open spec fn running_sums_fit(s: Seq<int>) -> bool {
    forall|j: int| 0 <= j <= s.len() ==> i64::MIN <= #[trigger] sum(s.take(j)) <= i64::MAX
}

/// Every running total of the minutes charged for `skipped` is an `i64`.
pub open spec fn running_charges_fit(skipped: Seq<EpisodeView>, avg: int) -> bool {
    forall|j: int|
        0 <= j <= skipped.len() ==> i64::MIN <= #[trigger] charged_minutes(skipped.take(j), avg)
            <= i64::MAX
}

/// The `i64` totals behind `minutes_of` never overflow: the sum of the known
/// runtimes and the minutes charged, at every step, wherever they are taken.
pub open spec fn minutes_fit(skipped: Seq<EpisodeView>, all: Seq<EpisodeView>) -> bool {
    let k = known_runtimes(all);
    skipped.len() > 0 && k.len() > 0 ==> {
        &&& running_sums_fit(k)
        &&& running_charges_fit(skipped, round_div(sum(k), k.len() as int))
    }
}

pub open spec fn views_of_refs(v: Seq<&ScoredEpisode>) -> Seq<EpisodeView> {
    v.map_values(|e: &ScoredEpisode| e@)
}

pub open spec fn views_of(v: Seq<ScoredEpisode>) -> Seq<EpisodeView> {
    v.map_values(|e: ScoredEpisode| e@)
}

proof fn lemma_round_div_bound(num: int, den: int, bound: int)
    requires
        den > 0,
        bound >= 0,
        -(bound * den) <= num <= bound * den,
    ensures
        -bound <= round_div(num, den) <= bound,
{
    if num >= 0 {
        assert((2 * num + den) / (2 * den) <= bound) by (nonlinear_arith)
            requires
                den > 0,
                bound >= 0,
                0 <= num <= bound * den,
        {
            assert(2 * num + den < (bound + 1) * (2 * den));
        }
        assert((2 * num + den) / (2 * den) >= 0) by (nonlinear_arith)
            requires
                den > 0,
                0 <= num,
        ;
    } else {
        assert((2 * (-num) + den) / (2 * den) <= bound) by (nonlinear_arith)
            requires
                den > 0,
                bound >= 0,
                0 <= -num <= bound * den,
        {
            assert(2 * (-num) + den < (bound + 1) * (2 * den));
        }
        assert((2 * (-num) + den) / (2 * den) >= 0) by (nonlinear_arith)
            requires
                den > 0,
                0 <= -num,
        ;
    }
}

/// Compute the total time (minutes) saved by skipping `skipped`: each skipped
/// episode's own runtime, else the show average over `all_episodes` (rounded to
/// the nearest minute); `None` when no episode has a known runtime.
pub fn minutes_skipped(skipped: &[&ScoredEpisode], all_episodes: &[ScoredEpisode]) -> (r: Option<i64>)
    requires
        minutes_fit(views_of_refs(skipped@), views_of(all_episodes@)),
    ensures
        match minutes_of(views_of_refs(skipped@), views_of(all_episodes@)) {
            Some(m) => r == Some(m as i64),
            None => r.is_none(),
        },
{
    let ghost sk = views_of_refs(skipped@);
    let ghost all = views_of(all_episodes@);
    if skipped.len() == 0 {
        return Some(0);
    }
    let mut known_sum: i128 = 0;
    let mut known_count: usize = 0;
    let mut i: usize = 0;
    while i < all_episodes.len()
        invariant
            all == views_of(all_episodes@),
            i <= all_episodes@.len(),
            known_count as int == known_runtimes(all.take(i as int)).len(),
            known_sum as int == sum(known_runtimes(all.take(i as int))),
            known_count <= i,
            -(known_count as int) * 0x8000_0000 <= known_sum <= (known_count as int) * 0x8000_0000,
        decreases all_episodes@.len() - i,
    {
        assert(all.take(i + 1).drop_last() == all.take(i as int));
        assert(all.take(i + 1).last() == all_episodes@[i as int]@);
        let ghost before = known_runtimes(all.take(i as int));
        match all_episodes[i].runtime_minutes {
            Some(m) => {
                known_sum = known_sum + m as i128;
                known_count = known_count + 1;
                assert(before.push(m as int).drop_last() == before);
            },
            None => {},
        }
        i = i + 1;
    }
    assert(all.take(all_episodes@.len() as int) == all);
    if known_count == 0 {
        return None;
    }
    let n = known_count as i128;
    let avg: i128 = if known_sum >= 0 {
        (2 * known_sum + n) / (2 * n)
    } else {
        -((2 * (-known_sum) + n) / (2 * n))
    };
    proof {
        lemma_round_div_bound(known_sum as int, n as int, 0x8000_0000);
    }
    let mut total: i128 = 0;
    let mut j: usize = 0;
    while j < skipped.len()
        invariant
            sk == views_of_refs(skipped@),
            j <= skipped@.len(),
            -0x8000_0000 <= avg <= 0x8000_0000,
            total as int == charged_minutes(sk.take(j as int), avg as int),
            -(j as int) * 0x8000_0000 <= total <= (j as int) * 0x8000_0000,
        decreases skipped@.len() - j,
    {
        assert(sk.take(j + 1).drop_last() == sk.take(j as int));
        assert(sk.take(j + 1).last() == skipped@[j as int]@);
        let t: i128 = match skipped[j].runtime_minutes {
            Some(m) => m as i128,
            None => avg,
        };
        total = total + t;
        j = j + 1;
    }
    assert(sk.take(skipped@.len() as int) == sk);
    assert(i64::MIN <= charged_minutes(sk.take(skipped@.len() as int), avg as int) <= i64::MAX);
    Some(total as i64)
}

proof fn lemma_members_push_map(eps: Seq<EpisodeView>, m: Seq<usize>, idx: usize)
    ensures
        m.push(idx).map_values(|i: usize| entry_of(eps[i as int])) == m.map_values(
            |i: usize| entry_of(eps[i as int]),
        ).push(entry_of(eps[idx as int])),
{
    assert(m.push(idx).map_values(|i: usize| entry_of(eps[i as int])) =~= m.map_values(
        |i: usize| entry_of(eps[i as int]),
    ).push(entry_of(eps[idx as int])));
}

proof fn lemma_members_push_eps(eps: Seq<EpisodeView>, m: Seq<usize>, idx: usize)
    ensures
        m.push(idx).map_values(|i: usize| eps[i as int]) == m.map_values(|i: usize| eps[i as int]).push(
            eps[idx as int],
        ),
{
    assert(m.push(idx).map_values(|i: usize| eps[i as int]) =~= m.map_values(
        |i: usize| eps[i as int],
    ).push(eps[idx as int]));
}

proof fn lemma_entry_views_push(v: Seq<SkipGuideEntry>, e: SkipGuideEntry)
    ensures
        entry_views(v.push(e)) == entry_views(v).push(e@),
{
    assert(entry_views(v.push(e)) =~= entry_views(v).push(e@));
}

proof fn lemma_ref_views_push(v: Seq<&ScoredEpisode>, e: &ScoredEpisode)
    ensures
        views_of_refs(v.push(e)) == views_of_refs(v).push(e@),
{
    assert(views_of_refs(v.push(e)) =~= views_of_refs(v).push(e@));
}

/// Membership in a bucket: exactly the listed episodes of the order whose
/// bucket is `b`, each once when the order has no repeats, in the order's order.
proof fn lemma_members(
    eps: Seq<EpisodeView>,
    keys: Seq<(i32, i32)>,
    o: Seq<usize>,
    b: Bucket,
    mode: GuideMode,
    sp: bool,
)
    requires
        forall|k: int| 0 <= k < o.len() ==> (o[k] as int) < eps.len(),
    ensures
        forall|x: usize|
            #[trigger] members(eps, o, b, mode, sp).contains(x) <==> (o.contains(x) && listed(
                eps[x as int],
                sp,
            ) && bucket_of(eps[x as int], mode) == b),
        forall|k: int|
            0 <= k < members(eps, o, b, mode, sp).len() ==> o.contains(
                #[trigger] members(eps, o, b, mode, sp)[k],
            ),
        (forall|p: int, q: int|
            0 <= p < q < o.len() ==> #[trigger] precedes(keys, o[p] as int, o[q] as int)) ==> (
        forall|p: int, q: int|
            0 <= p < q < members(eps, o, b, mode, sp).len() ==> #[trigger] precedes(
                keys,
                members(eps, o, b, mode, sp)[p] as int,
                members(eps, o, b, mode, sp)[q] as int,
            )),
    decreases o.len(),
{
    let m = members(eps, o, b, mode, sp);
    if o.len() > 0 {
        let prev = o.drop_last();
        lemma_members(eps, keys, prev, b, mode, sp);
        let pm = members(eps, prev, b, mode, sp);
        assert forall|x: usize| #[trigger] o.contains(x) <==> (prev.contains(x) || x == o.last()) by {
            if o.contains(x) {
                let k = choose|k: int| 0 <= k < o.len() && o[k] == x;
                if k < o.len() - 1 {
                    assert(prev[k] == x);
                }
            }
            if prev.contains(x) {
                let k = choose|k: int| 0 <= k < prev.len() && prev[k] == x;
                assert(o[k] == x);
            }
        }
        let l = o.last();
        assert forall|x: usize| #[trigger] m.contains(x) <==> (o.contains(x) && listed(
            eps[x as int],
            sp,
        ) && bucket_of(eps[x as int], mode) == b) by {
            if listed(eps[l as int], sp) && bucket_of(eps[l as int], mode) == b {
                assert(m == pm.push(l));
                if m.contains(x) {
                    let k = choose|k: int| 0 <= k < m.len() && m[k] == x;
                    if k < pm.len() {
                        assert(pm[k] == x);
                        assert(pm.contains(x));
                    }
                }
                if pm.contains(x) {
                    let k = choose|k: int| 0 <= k < pm.len() && pm[k] == x;
                    assert(m[k] == x);
                }
                if x == l {
                    assert(m[pm.len() as int] == x);
                }
            } else {
                assert(m == pm);
            }
        }
        assert forall|k: int| 0 <= k < m.len() implies o.contains(#[trigger] m[k]) by {
            if k < pm.len() {
                assert(m[k] == pm[k]);
                assert(prev.contains(pm[k]));
            }
        }
        if forall|p: int, q: int|
            0 <= p < q < o.len() ==> #[trigger] precedes(keys, o[p] as int, o[q] as int) {
            assert forall|p: int, q: int| 0 <= p < q < m.len() implies #[trigger] precedes(
                keys,
                m[p] as int,
                m[q] as int,
            ) by {
                if q < pm.len() {
                    assert(m[p] == pm[p] && m[q] == pm[q]);
                    assert forall|p2: int, q2: int| 0 <= p2 < q2 < prev.len() implies #[trigger] precedes(
                        keys,
                        prev[p2] as int,
                        prev[q2] as int,
                    ) by {
                        assert(prev[p2] == o[p2] && prev[q2] == o[q2]);
                    }
                } else {
                    assert(m[q] == o.last());
                    assert(m[p] == pm[p]);
                    assert(prev.contains(pm[p]));
                    let k = choose|k: int| 0 <= k < prev.len() && prev[k] == pm[p];
                    assert(o[k] == pm[p]);
                    assert(precedes(keys, o[k] as int, o[o.len() - 1] as int));
                }
            }
        }
    }
}

/// Each listed episode is in exactly the bucket its status and the mode give
/// it, and every bucket lists its episodes in (season, episode) order.
proof fn lemma_guide_partition(eps: Seq<EpisodeView>, b: Bucket, mode: GuideMode, sp: bool)
    requires
        exists|o: Seq<usize>| is_stable_order(episode_keys(eps), o),
    ensures
        forall|x: usize|
            (x as int) < eps.len() ==> (#[trigger] bucket_members(eps, b, mode, sp).contains(x) <==> (
            listed(eps[x as int], sp) && bucket_of(eps[x as int], mode) == b)),
        forall|k: int|
            0 <= k < bucket_members(eps, b, mode, sp).len() ==> (#[trigger] bucket_members(
                eps,
                b,
                mode,
                sp,
            )[k] as int) < eps.len(),
        forall|p: int, q: int|
            0 <= p < q < bucket_members(eps, b, mode, sp).len() ==> #[trigger] precedes(
                episode_keys(eps),
                bucket_members(eps, b, mode, sp)[p] as int,
                bucket_members(eps, b, mode, sp)[q] as int,
            ),
{
    let keys = episode_keys(eps);
    let o = stable_order(keys);
    lemma_members(eps, keys, o, b, mode, sp);
    let m = bucket_members(eps, b, mode, sp);
    assert forall|k: int| 0 <= k < m.len() implies (#[trigger] m[k] as int) < eps.len() by {
        assert(o.contains(m[k]));
    }
}

proof fn lemma_bucket_order(eps: Seq<EpisodeView>, b: Bucket, mode: GuideMode, sp: bool)
    requires
        exists|o: Seq<usize>| is_stable_order(episode_keys(eps), o),
    ensures
        in_episode_order(bucket_entries(eps, b, mode, sp)),
{
    lemma_guide_partition(eps, b, mode, sp);
    let m = bucket_members(eps, b, mode, sp);
    let s = bucket_entries(eps, b, mode, sp);
    let keys = episode_keys(eps);
    assert forall|p: int, q: int| 0 <= p < q < s.len() implies crate::order::key_le(
        (#[trigger] s[p].season_number, s[p].episode_number),
        (#[trigger] s[q].season_number, s[q].episode_number),
    ) by {
        assert(precedes(keys, m[p] as int, m[q] as int));
        assert(keys[m[p] as int] == (eps[m[p] as int].season_number, eps[m[p] as int].episode_number));
        assert(keys[m[q] as int] == (eps[m[q] as int].season_number, eps[m[q] as int].episode_number));
    }
}

/// Only `Standard` mode has an optional list.
proof fn lemma_optional_only_in_standard(eps: Seq<EpisodeView>, mode: GuideMode, sp: bool)
    requires
        mode != GuideMode::Standard,
        exists|o: Seq<usize>| is_stable_order(episode_keys(eps), o),
    ensures
        bucket_members(eps, Bucket::Optional, mode, sp).len() == 0,
{
    lemma_guide_partition(eps, Bucket::Optional, mode, sp);
    let m = bucket_members(eps, Bucket::Optional, mode, sp);
    if m.len() > 0 {
        assert(m.contains(m[0]));
    }
}

/// Whatever the mode: confirmed filler is skipped, canon is watched, and an
/// episode without a confident label (contested or too few votes) is watched,
/// never skipped.
pub proof fn lemma_mode_guarantees(e: EpisodeView, mode: GuideMode)
    ensures
        episode_status(e) == EpisodeStatus::Filler ==> bucket_of(e, mode) == Bucket::Skipped,
        episode_status(e) == EpisodeStatus::Canon ==> bucket_of(e, mode) == Bucket::Watch,
        episode_status(e) == EpisodeStatus::Contested ==> bucket_of(e, mode) == Bucket::Watch,
        episode_status(e) == EpisodeStatus::NotEnoughVotes ==> bucket_of(e, mode) == Bucket::Watch,
        episode_status(e) == EpisodeStatus::WorthWatching ==> bucket_of(e, mode) == match mode {
            GuideMode::Completionist => Bucket::Watch,
            GuideMode::Standard => Bucket::Optional,
            GuideMode::CanonOnly => Bucket::Skipped,
            GuideMode::Binge => if binge_rescued(e) {
                Bucket::Watch
            } else {
                Bucket::Skipped
            },
        },
{
}

/// A copy of an optional string.
pub fn clone_text(o: &Option<String>) -> (r: Option<String>)
    ensures
        opt_text(r) == opt_text(*o),
{
    match o {
        Some(s) => Some(s.clone()),
        None => None,
    }
}

/// The bucket `mode` puts an episode in.
fn bucket_for(ep: &ScoredEpisode, mode: GuideMode) -> (r: (Bucket, EpisodeStatus))
    requires
        votes_addable(ep@),
    ensures
        r.0 == bucket_of(ep@, mode),
        r.1 == episode_status(ep@),
{
    let st = status(ep.filler_votes, ep.worth_watching_votes, ep.canon_votes);
    let b = match mode {
        GuideMode::Completionist => match st {
            EpisodeStatus::Filler => Bucket::Skipped,
            _ => Bucket::Watch,
        },
        GuideMode::Standard => match st {
            EpisodeStatus::Filler => Bucket::Skipped,
            EpisodeStatus::WorthWatching => Bucket::Optional,
            _ => Bucket::Watch,
        },
        GuideMode::CanonOnly => match st {
            EpisodeStatus::Filler | EpisodeStatus::WorthWatching => Bucket::Skipped,
            _ => Bucket::Watch,
        },
        GuideMode::Binge => match st {
            EpisodeStatus::Filler => Bucket::Skipped,
            EpisodeStatus::WorthWatching => {
                let rescued = match ep.tmdb_rating_milli {
                    Some(r) => r >= BINGE_RESCUE_RATING_MILLI,
                    None => false,
                };
                if rescued {
                    Bucket::Watch
                } else {
                    Bucket::Skipped
                }
            },
            _ => Bucket::Watch,
        },
    };
    (b, st)
}

/// The episodes (not indices) of bucket `b`, in guide order.
pub open spec fn bucket_episodes(
    eps: Seq<EpisodeView>,
    b: Bucket,
    mode: GuideMode,
    include_specials: bool,
) -> Seq<EpisodeView> {
    bucket_members(eps, b, mode, include_specials).map_values(|i: usize| eps[i as int])
}

/// Entries listed in nondecreasing (season, episode) order.
pub open spec fn in_episode_order(s: Seq<EntryView>) -> bool {
    forall|p: int, q: int|
        0 <= p < q < s.len() ==> crate::order::key_le(
            (#[trigger] s[p].season_number, s[p].episode_number),
            (#[trigger] s[q].season_number, s[q].episode_number),
        )
}

/// The names of the four skip-guide modes, as the wire format spells them.
pub open spec fn mode_names() -> Seq<Seq<char>> {
    seq!["completionist"@, "standard"@, "canon-only"@, "binge"@]
}

/// Build a show's skip guide from its scored episodes: episodes are listed in
/// (season, episode) order, each listed episode goes to the bucket its status
/// and `mode` give it, specials (season 0) are left out unless
/// `include_specials`, and the time saved is derived from the skipped bucket.
pub fn build_skip_guide(episodes: &[ScoredEpisode], mode: GuideMode, include_specials: bool) -> (g:
    SkipGuide)
    requires
        forall|i: int| 0 <= i < episodes@.len() ==> votes_addable(#[trigger] episodes@[i]@),
        minutes_fit(
            bucket_episodes(views_of(episodes@), Bucket::Skipped, mode, include_specials),
            views_of(episodes@),
        ),
    ensures
        entry_views(g.watch@) == bucket_entries(
            views_of(episodes@),
            Bucket::Watch,
            mode,
            include_specials,
        ),
        entry_views(g.optional@) == bucket_entries(
            views_of(episodes@),
            Bucket::Optional,
            mode,
            include_specials,
        ),
        entry_views(g.skipped@) == bucket_entries(
            views_of(episodes@),
            Bucket::Skipped,
            mode,
            include_specials,
        ),
        g.thresholds.min_votes == MIN_VOTES,
        g.thresholds.contested_margin_percent == CONTESTED_MARGIN_PERCENT,
        g.mode == mode,
        g.valid_modes@.map_values(|m: &'static str| m@) == mode_names(),
        match minutes_of(
            bucket_episodes(views_of(episodes@), Bucket::Skipped, mode, include_specials),
            views_of(episodes@),
        ) {
            Some(m) => g.minutes_skipped == Some(m as i64),
            None => g.minutes_skipped.is_none(),
        },
        // Every listed episode lands in exactly the bucket its status gives it.
        forall|b: Bucket, x: usize|
            (x as int) < episodes@.len() ==> (#[trigger] bucket_members(
                views_of(episodes@),
                b,
                mode,
                include_specials,
            ).contains(x) <==> (listed(episodes@[x as int]@, include_specials) && bucket_of(
                episodes@[x as int]@,
                mode,
            ) == b)),
        in_episode_order(entry_views(g.watch@)),
        in_episode_order(entry_views(g.optional@)),
        in_episode_order(entry_views(g.skipped@)),
        mode != GuideMode::Standard ==> g.optional@.len() == 0,
{
    let ghost eps = views_of(episodes@);
    let n = episodes.len();
    let mut keys: Vec<(i32, i32)> = Vec::new();
    let mut i: usize = 0;
    while i < n
        invariant
            n == episodes@.len(),
            eps == views_of(episodes@),
            i <= n,
            keys@ == episode_keys(eps).take(i as int),
        decreases n - i,
    {
        keys.push((episodes[i].season_number, episodes[i].episode_number));
        i = i + 1;
        assert(keys@ =~= episode_keys(eps).take(i as int));
    }
    assert(keys@ == episode_keys(eps));
    let order = sort_indices(&keys);
    let ghost ord = order@;
    let mut watch: Vec<SkipGuideEntry> = Vec::new();
    let mut optional: Vec<SkipGuideEntry> = Vec::new();
    let mut skipped: Vec<SkipGuideEntry> = Vec::new();
    let mut skipped_refs: Vec<&ScoredEpisode> = Vec::new();
    let mut k: usize = 0;
    while k < n
        invariant
            n == episodes@.len(),
            eps == views_of(episodes@),
            forall|i: int| 0 <= i < episodes@.len() ==> votes_addable(#[trigger] episodes@[i]@),
            ord == order@,
            is_stable_order(episode_keys(eps), ord),
            k <= n,
            entry_views(watch@) == members(eps, ord.take(k as int), Bucket::Watch, mode, include_specials).map_values(
                |i: usize| entry_of(eps[i as int]),
            ),
            entry_views(optional@) == members(
                eps,
                ord.take(k as int),
                Bucket::Optional,
                mode,
                include_specials,
            ).map_values(|i: usize| entry_of(eps[i as int])),
            entry_views(skipped@) == members(
                eps,
                ord.take(k as int),
                Bucket::Skipped,
                mode,
                include_specials,
            ).map_values(|i: usize| entry_of(eps[i as int])),
            views_of_refs(skipped_refs@) == members(
                eps,
                ord.take(k as int),
                Bucket::Skipped,
                mode,
                include_specials,
            ).map_values(|i: usize| eps[i as int]),
            skipped_refs@.len() <= k,
        decreases n - k,
    {
        let idx = order[k];
        assert(ord.take(k + 1).drop_last() == ord.take(k as int));
        assert(ord.take(k + 1).last() == idx);
        assert((idx as int) < episode_keys(eps).len());
        let ep = &episodes[idx];
        assert(ep@ == eps[idx as int]);
        let ghost wm = members(eps, ord.take(k as int), Bucket::Watch, mode, include_specials);
        let ghost om = members(eps, ord.take(k as int), Bucket::Optional, mode, include_specials);
        let ghost sm = members(eps, ord.take(k as int), Bucket::Skipped, mode, include_specials);
        if ep.season_number != 0 || include_specials {
            let (b, st) = bucket_for(ep, mode);
            let entry = SkipGuideEntry {
                episode_id: ep.episode_id.clone(),
                season_number: ep.season_number,
                episode_number: ep.episode_number,
                name: clone_text(&ep.name),
                status: st,
            };
            assert(entry@ == entry_of(eps[idx as int]));
            let ghost ev = entry@;
            proof {
                lemma_members_push_map(eps, wm, idx);
                lemma_members_push_map(eps, om, idx);
                lemma_members_push_map(eps, sm, idx);
                lemma_members_push_eps(eps, sm, idx);
                lemma_entry_views_push(watch@, entry);
                lemma_entry_views_push(optional@, entry);
                lemma_entry_views_push(skipped@, entry);
                lemma_ref_views_push(skipped_refs@, ep);
            }
            match b {
                Bucket::Watch => {
                    watch.push(entry);
                },
                Bucket::Optional => {
                    optional.push(entry);
                },
                Bucket::Skipped => {
                    skipped.push(entry);
                    skipped_refs.push(ep);
                },
            }
        }
        k = k + 1;
    }
    assert(ord.take(n as int) == ord);
    proof {
        assert(is_stable_order(episode_keys(eps), ord));
        assert forall|b: Bucket, x: usize| (x as int) < episodes@.len() implies (
        #[trigger] bucket_members(eps, b, mode, include_specials).contains(x) <==> (listed(
            episodes@[x as int]@,
            include_specials,
        ) && bucket_of(episodes@[x as int]@, mode) == b)) by {
            lemma_guide_partition(eps, b, mode, include_specials);
            assert(eps[x as int] == episodes@[x as int]@);
        }
        lemma_bucket_order(eps, Bucket::Watch, mode, include_specials);
        lemma_bucket_order(eps, Bucket::Optional, mode, include_specials);
        lemma_bucket_order(eps, Bucket::Skipped, mode, include_specials);
        if mode != GuideMode::Standard {
            lemma_optional_only_in_standard(eps, mode, include_specials);
        }
    }
    let mins = minutes_skipped(skipped_refs.as_slice(), episodes);
    SkipGuide {
        watch,
        optional,
        skipped,
        thresholds: Thresholds {
            min_votes: MIN_VOTES,
            contested_margin_percent: CONTESTED_MARGIN_PERCENT,
        },
        mode,
        valid_modes: vec!["completionist", "standard", "canon-only", "binge"],
        minutes_skipped: mins,
    }
}

} // verus!
