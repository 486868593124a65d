use fillerkiller::scoring::{
    build_skip_guide, minutes_skipped, plurality_value, status, EpisodeStatus, GuideMode,
    ScoredEpisode, SkipGuideEntry, VoteReason, VoteValue, MIN_VOTES,
};

#[test]
fn status_below_min_votes_is_not_enough() {
    assert_eq!(status(4, 0, 0), EpisodeStatus::NotEnoughVotes);
    assert_eq!(status(2, 1, 1), EpisodeStatus::NotEnoughVotes); // n=4
    assert_eq!(status(0, 0, 0), EpisodeStatus::NotEnoughVotes);
}

#[test]
fn status_plurality_winner() {
    assert_eq!(status(8, 1, 1), EpisodeStatus::Filler);
    assert_eq!(status(1, 8, 1), EpisodeStatus::WorthWatching);
    assert_eq!(status(1, 1, 8), EpisodeStatus::Canon);
}

#[test]
fn status_contested_on_tie_or_thin_margin() {
    assert_eq!(status(5, 5, 0), EpisodeStatus::Contested); // tie
    assert_eq!(status(4, 4, 2), EpisodeStatus::Contested); // tie for top
    assert_eq!(status(5, 4, 1), EpisodeStatus::Contested); // lead 1/10 = 0.10 (<= margin)
    assert_eq!(status(6, 4, 0), EpisodeStatus::Filler); // lead 2/10 = 0.20 (> margin)
    assert_eq!(status(3, 3, 3), EpisodeStatus::Contested); // three-way tie, n=9
}

#[test]
fn status_exactly_min_votes_is_enough() {
    assert_eq!(MIN_VOTES, 5);
    assert_eq!(status(5, 0, 0), EpisodeStatus::Filler);
}

#[test]
fn status_lead_just_over_margin_is_decided() {
    // 11 of 20 against 9: a lead of 2/20 = 0.10 is still contested; 12 vs 8 is not.
    assert_eq!(status(11, 9, 0), EpisodeStatus::Contested);
    assert_eq!(status(12, 8, 0), EpisodeStatus::Filler);
    assert_eq!(status(0, 2, 12), EpisodeStatus::Canon);
}

#[test]
fn plurality_value_names_only_decided_statuses() {
    assert_eq!(plurality_value(EpisodeStatus::Filler), Some("FILLER"));
    assert_eq!(plurality_value(EpisodeStatus::WorthWatching), Some("WORTH_WATCHING"));
    assert_eq!(plurality_value(EpisodeStatus::Canon), Some("CANON"));
    assert_eq!(plurality_value(EpisodeStatus::Contested), None);
    assert_eq!(plurality_value(EpisodeStatus::NotEnoughVotes), None);
}

fn ep(season: i32, episode: i32, f: i64, w: i64, c: i64) -> ScoredEpisode {
    ScoredEpisode {
        episode_id: format!("s{season}e{episode}"),
        season_number: season,
        episode_number: episode,
        name: None,
        filler_votes: f,
        worth_watching_votes: w,
        canon_votes: c,
        tmdb_rating_milli: None,
        runtime_minutes: None,
    }
}

/// A rating given as TMDB's number, held in thousandths.
fn ep_rated(season: i32, episode: i32, f: i64, w: i64, c: i64, rating: Option<f64>) -> ScoredEpisode {
    ScoredEpisode {
        tmdb_rating_milli: rating.map(|r| (r * 1000.0).round() as i64),
        ..ep(season, episode, f, w, c)
    }
}

fn ep_runtime(season: i32, episode: i32, f: i64, w: i64, c: i64, runtime: Option<i32>) -> ScoredEpisode {
    ScoredEpisode { runtime_minutes: runtime, ..ep(season, episode, f, w, c) }
}

fn ids(entries: &[SkipGuideEntry]) -> Vec<&str> {
    entries.iter().map(|e| e.episode_id.as_str()).collect()
}

#[test]
fn skip_guide_sorts_into_watch_optional_skipped() {
    let guide = build_skip_guide(
        &[
            ep(1, 1, 0, 0, 10), // canon -> watch
            ep(1, 2, 10, 0, 0), // filler -> skipped
            ep(1, 3, 0, 10, 0), // worth watching -> optional
        ],
        GuideMode::Standard,
        false,
    );
    assert_eq!(ids(&guide.watch), ["s1e1"]);
    assert_eq!(ids(&guide.optional), ["s1e3"]);
    assert_eq!(ids(&guide.skipped), ["s1e2"]);
}

#[test]
fn skip_guide_contested_defaults_to_watch() {
    let eps = [ep(1, 1, 5, 5, 0), ep(1, 2, 1, 1, 0)]; // contested, not-enough
    let guide = build_skip_guide(&eps, GuideMode::Standard, false);
    assert_eq!(guide.watch.len(), 2);
    assert_eq!(guide.skipped.len(), 0);
}

#[test]
fn skip_guide_specials_excluded_by_default() {
    let eps = [ep(0, 1, 0, 0, 10), ep(1, 1, 0, 0, 10)];
    assert_eq!(build_skip_guide(&eps, GuideMode::Standard, false).watch.len(), 1);
    assert_eq!(build_skip_guide(&eps, GuideMode::Standard, true).watch.len(), 2);
}

#[test]
fn skip_guide_lists_follow_episode_order() {
    let guide = build_skip_guide(
        &[ep(2, 1, 0, 0, 10), ep(1, 2, 0, 0, 10), ep(1, 1, 0, 0, 10)],
        GuideMode::Standard,
        false,
    );
    assert_eq!(ids(&guide.watch), ["s1e1", "s1e2", "s2e1"]);
    assert_eq!(guide.thresholds.min_votes, 5);
    assert_eq!(guide.mode, GuideMode::Standard);
}

#[test]
fn vote_value_db_round_trip() {
    for v in [VoteValue::Filler, VoteValue::WorthWatching, VoteValue::Canon] {
        assert_eq!(VoteValue::from_db(v.as_db()), Some(v));
    }
    assert_eq!(VoteValue::from_db("NOPE"), None);
}

#[test]
fn completionist_only_skips_confirmed_filler() {
    let guide = build_skip_guide(
        &[
            ep(1, 1, 0, 0, 10), // canon -> watch
            ep(1, 2, 10, 0, 0), // filler -> skipped
            ep(1, 3, 0, 10, 0), // worth watching -> watch (not optional)
            ep(1, 4, 5, 5, 0),  // contested -> watch
            ep(1, 5, 1, 1, 0),  // not enough votes -> watch
        ],
        GuideMode::Completionist,
        false,
    );
    assert_eq!(guide.watch.len(), 4, "canon+ww+contested+nev all watch");
    assert_eq!(guide.optional.len(), 0, "optional always empty in completionist");
    assert_eq!(ids(&guide.skipped), ["s1e2"]);
}

#[test]
fn canon_only_moves_worth_watching_to_skipped() {
    let guide = build_skip_guide(
        &[
            ep(1, 1, 0, 0, 10), // canon -> watch
            ep(1, 2, 10, 0, 0), // filler -> skipped
            ep(1, 3, 0, 10, 0), // worth watching -> skipped
            ep(1, 4, 5, 5, 0),  // contested -> watch
            ep(1, 5, 1, 1, 0),  // not enough votes -> watch
        ],
        GuideMode::CanonOnly,
        false,
    );
    assert_eq!(ids(&guide.watch), ["s1e1", "s1e4", "s1e5"]);
    assert_eq!(guide.optional.len(), 0, "optional always empty in canon-only");
    assert_eq!(ids(&guide.skipped), ["s1e2", "s1e3"]);
}

#[test]
fn binge_rescues_worth_watching_at_7_0() {
    let guide = build_skip_guide(
        &[
            ep(1, 1, 0, 0, 10),                  // canon -> watch
            ep_rated(1, 2, 0, 10, 0, Some(7.0)), // ww + 7.0 -> watch
            ep_rated(1, 3, 0, 10, 0, Some(6.9)), // ww + 6.9 -> skipped
            ep_rated(1, 4, 0, 10, 0, None),      // ww + no rating -> skipped
            ep(1, 5, 10, 0, 0),                  // filler -> skipped
            ep(1, 6, 5, 5, 0),                   // contested -> watch
            ep(1, 7, 1, 1, 0),                   // not enough votes -> watch
        ],
        GuideMode::Binge,
        false,
    );
    assert_eq!(ids(&guide.watch), ["s1e1", "s1e2", "s1e6", "s1e7"]);
    assert_eq!(guide.optional.len(), 0, "optional always empty in binge");
    assert_eq!(ids(&guide.skipped), ["s1e3", "s1e4", "s1e5"]);
}

#[test]
fn binge_exactly_7_0_is_watch() {
    let guide = build_skip_guide(&[ep_rated(1, 1, 0, 10, 0, Some(7.0))], GuideMode::Binge, false);
    assert_eq!(guide.watch.len(), 1);
    assert_eq!(guide.skipped.len(), 0);
}

#[test]
fn binge_6_9_is_skipped() {
    let guide = build_skip_guide(&[ep_rated(1, 1, 0, 10, 0, Some(6.9))], GuideMode::Binge, false);
    assert_eq!(guide.watch.len(), 0);
    assert_eq!(guide.skipped.len(), 1);
}

#[test]
fn binge_no_rating_is_skipped() {
    let guide = build_skip_guide(&[ep_rated(1, 1, 0, 10, 0, None)], GuideMode::Binge, false);
    assert_eq!(guide.watch.len(), 0);
    assert_eq!(guide.skipped.len(), 1);
}

#[test]
fn minutes_skipped_uses_own_runtime() {
    let skipped = vec![ep_runtime(1, 1, 10, 0, 0, Some(42)), ep_runtime(1, 2, 10, 0, 0, Some(24))];
    let refs: Vec<&ScoredEpisode> = skipped.iter().collect();
    assert_eq!(minutes_skipped(&refs, &skipped), Some(66));
}

#[test]
fn minutes_skipped_falls_back_to_show_average() {
    // All episodes have runtimes except the skipped one
    let all = vec![
        ep_runtime(1, 1, 0, 0, 10, Some(40)),
        ep_runtime(1, 2, 0, 0, 10, Some(60)),
        ep_runtime(1, 3, 10, 0, 0, None), // this one is skipped, no runtime
    ];
    let skipped = [all[2].clone()];
    let refs: Vec<&ScoredEpisode> = skipped.iter().collect();
    // avg of 40+60 = 50
    assert_eq!(minutes_skipped(&refs, &all), Some(50));
}

#[test]
fn minutes_skipped_all_null_returns_none() {
    let all = vec![ep_runtime(1, 1, 10, 0, 0, None), ep_runtime(1, 2, 10, 0, 0, None)];
    let refs: Vec<&ScoredEpisode> = all.iter().collect();
    assert_eq!(minutes_skipped(&refs, &all), None);
}

#[test]
fn minutes_skipped_empty_skipped_returns_zero() {
    let all = vec![ep_runtime(1, 1, 0, 0, 10, Some(30))];
    assert_eq!(minutes_skipped(&[], &all), Some(0));
}

#[test]
fn minutes_skipped_reaches_the_guide() {
    let guide = build_skip_guide(
        &[ep_runtime(1, 1, 10, 0, 0, Some(23)), ep_runtime(1, 2, 0, 0, 10, Some(25))],
        GuideMode::Standard,
        false,
    );
    assert_eq!(guide.minutes_skipped, Some(23));
}

#[test]
fn skip_guide_includes_valid_modes() {
    let guide = build_skip_guide(&[ep(1, 1, 0, 0, 10)], GuideMode::Standard, false);
    assert_eq!(guide.valid_modes, ["completionist", "standard", "canon-only", "binge"]);
}

#[test]
fn filler_reasons_valid_only_for_filler() {
    let filler_reasons = [VoteReason::Recap, VoteReason::SideStory, VoteReason::FunButSkippable];
    for r in &filler_reasons {
        assert!(r.is_valid_for(VoteValue::Filler), "{} should be valid for Filler", r.as_str());
        assert!(!r.is_valid_for(VoteValue::WorthWatching), "{} should not be valid for WorthWatching", r.as_str());
        assert!(!r.is_valid_for(VoteValue::Canon), "{} should not be valid for Canon", r.as_str());
    }
}

#[test]
fn worth_watching_reasons_valid_only_for_worth_watching() {
    let ww_reasons = [VoteReason::SelfContainedGem, VoteReason::CharacterMoment, VoteReason::Worldbuilding];
    for r in &ww_reasons {
        assert!(!r.is_valid_for(VoteValue::Filler), "{} should not be valid for Filler", r.as_str());
        assert!(r.is_valid_for(VoteValue::WorthWatching), "{} should be valid for WorthWatching", r.as_str());
        assert!(!r.is_valid_for(VoteValue::Canon), "{} should not be valid for Canon", r.as_str());
    }
}

#[test]
fn canon_reasons_valid_only_for_canon() {
    let canon_reasons = [VoteReason::MajorPlot, VoteReason::CharacterDevelopment, VoteReason::ArcSetup];
    for r in &canon_reasons {
        assert!(!r.is_valid_for(VoteValue::Filler), "{} should not be valid for Filler", r.as_str());
        assert!(!r.is_valid_for(VoteValue::WorthWatching), "{} should not be valid for WorthWatching", r.as_str());
        assert!(r.is_valid_for(VoteValue::Canon), "{} should be valid for Canon", r.as_str());
    }
}

#[test]
fn valid_for_returns_three_per_value() {
    assert_eq!(VoteReason::valid_for(VoteValue::Filler).len(), 3);
    assert_eq!(VoteReason::valid_for(VoteValue::WorthWatching).len(), 3);
    assert_eq!(VoteReason::valid_for(VoteValue::Canon).len(), 3);
}

const ALL_REASONS: [VoteReason; 9] = [
    VoteReason::Recap,
    VoteReason::SideStory,
    VoteReason::FunButSkippable,
    VoteReason::SelfContainedGem,
    VoteReason::CharacterMoment,
    VoteReason::Worldbuilding,
    VoteReason::MajorPlot,
    VoteReason::CharacterDevelopment,
    VoteReason::ArcSetup,
];

#[test]
fn vote_reason_wire_round_trip() {
    for r in &ALL_REASONS {
        let s = r.as_str();
        assert_eq!(VoteReason::from_str(s), Some(*r), "round-trip failed for {s}");
    }
    assert_eq!(VoteReason::from_str("nonsense"), None);
}

#[test]
fn vote_reason_labels_are_non_empty() {
    for r in &ALL_REASONS {
        assert!(!r.label().is_empty(), "{} has empty label", r.as_str());
    }
}

#[test]
fn vote_reason_wire_names_are_kebab_case() {
    assert_eq!(VoteReason::SideStory.as_str(), "side-story");
    assert_eq!(VoteReason::CharacterDevelopment.as_str(), "character-development");
    assert_eq!(VoteReason::FunButSkippable.as_str(), "fun-but-skippable");
    assert_eq!(VoteReason::from_str("major-plot"), Some(VoteReason::MajorPlot));
}
