use fillerkiller::og::{
    breakdown_labels, plural, poster_data_uri, poster_from_bytes, stat_lines, stats_from_episodes,
    title_lines, wrap_ellipsize, OgStats, Poster,
};
use fillerkiller::scoring::status;

fn stats() -> OgStats {
    OgStats { canon: 100, worth_watching: 26, filler: 84, undecided: 10 }
}

#[test]
fn filler_pct_rounds_and_handles_zero_total() {
    assert_eq!(stats().filler_pct(), 38); // 84/220 = 38.18…
    assert_eq!(OgStats::default().filler_pct(), 0); // no division by zero
    let all_filler = OgStats { filler: 3, ..OgStats::default() };
    assert_eq!(all_filler.filler_pct(), 100);
}

#[test]
fn filler_pct_rounds_halves_up() {
    let half = OgStats { filler: 1, canon: 7, ..OgStats::default() }; // 12.5%
    assert_eq!(half.filler_pct(), 13);
    let third = OgStats { filler: 1, canon: 2, ..OgStats::default() }; // 33.3%
    assert_eq!(third.filler_pct(), 33);
    let two_thirds = OgStats { filler: 2, canon: 1, ..OgStats::default() }; // 66.7%
    assert_eq!(two_thirds.filler_pct(), 67);
    assert_eq!(stats().total(), 220);
}

#[test]
fn stats_from_episodes_tallies_statuses_and_skips_specials() {
    let ep = |season: i32, f: i64, w: i64, c: i64| (season, status(f, w, c));
    let episodes = vec![
        ep(1, 10, 0, 0), // filler
        ep(1, 0, 10, 0), // worth watching
        ep(1, 0, 0, 10), // canon
        ep(1, 5, 5, 0),  // contested -> undecided
        ep(1, 1, 0, 0),  // not enough votes -> undecided
        ep(0, 10, 0, 0), // special: excluded
    ];
    let s = stats_from_episodes(&episodes);
    assert_eq!(s, OgStats { canon: 1, worth_watching: 1, filler: 1, undecided: 2 });
    assert_eq!(s.total(), 5);
}

#[test]
fn wrap_ellipsize_handles_overlong_single_word() {
    let lines = wrap_ellipsize("Supercalifragilisticexpialidocious", 10, 2);
    assert_eq!(lines.len(), 1);
    assert!(lines[0].ends_with('…'));
    assert!(lines[0].chars().count() <= 10);
}

#[test]
fn wrap_ellipsize_wraps_greedily_and_marks_dropped_words() {
    assert_eq!(wrap_ellipsize("the quick brown fox", 10, 2), ["the quick", "brown fox"]);
    assert_eq!(wrap_ellipsize("the quick brown fox jumps", 10, 2), ["the quick", "brown fox…"]);
    assert_eq!(wrap_ellipsize("  spaced   out  ", 20, 2), ["spaced out"]);
    assert_eq!(wrap_ellipsize("", 10, 2), [""]);
    // The budget never drops below two characters.
    assert_eq!(wrap_ellipsize("abc", 0, 1), ["a…"]);
}

#[test]
fn wrap_ellipsize_respects_the_line_budget() {
    let text = "The Melancholy of Haruhi Suzumiya and Other Extremely Long Anime Titles";
    for width in 2..30 {
        for lines in 1..4 {
            let out = wrap_ellipsize(text, width, lines);
            assert!(!out.is_empty() && out.len() <= lines);
            assert!(out.iter().all(|l| l.chars().count() <= width), "{out:?}");
        }
    }
}

#[test]
fn title_lines_step_down_for_long_names() {
    let (size, lines) = title_lines("Naruto", true);
    assert_eq!((size, lines), (64, vec!["Naruto".to_string()]));
    let long = "The Melancholy of Haruhi Suzumiya and Other Extremely Long Anime Titles \
                That Never End No Matter How Far You Scroll Through the Season Listing";
    let (size, lines) = title_lines(long, false);
    assert_eq!(size, 44);
    assert_eq!(lines.len(), 2);
    assert!(lines[1].ends_with('…'));
    assert!(lines.iter().all(|l| l.chars().count() <= 43));
}

#[test]
fn stat_lines_read_like_the_card() {
    let (head, sub) = stat_lines(&stats()).unwrap();
    assert_eq!(head, "38% filler");
    assert_eq!(sub, "Skip 84 of 220 episodes");
    let one = OgStats { filler: 1, ..OgStats::default() };
    assert_eq!(stat_lines(&one).unwrap().1, "Skip 1 of 1 episode");
    assert_eq!(stat_lines(&OgStats::default()), None);
}

#[test]
fn breakdown_labels_list_the_undecided_only_when_present() {
    assert_eq!(breakdown_labels(&stats()), ["100 canon", "26 worth it", "84 filler", "10 undecided"]);
    let decided = OgStats { undecided: 0, ..stats() };
    assert_eq!(breakdown_labels(&decided).len(), 3);
}

#[test]
fn plural_adds_s_except_for_one() {
    assert_eq!(plural(1, "episode"), "episode");
    assert_eq!(plural(0, "episode"), "episodes");
    assert_eq!(plural(2, "episode"), "episodes");
}

#[test]
fn poster_bytes_are_sniffed_and_bounded() {
    let png = poster_from_bytes(vec![0x89, b'P', b'N', b'G', 0, 0]).unwrap();
    assert_eq!(png.mime, "image/png");
    let jpg = poster_from_bytes(vec![0xff, 0xd8, 0xff]).unwrap();
    assert_eq!(jpg.mime, "image/jpeg");
    assert!(poster_from_bytes(vec![]).is_none());
    assert!(poster_from_bytes(vec![0; 2 * 1024 * 1024 + 1]).is_none());
    assert!(poster_from_bytes(vec![0; 2 * 1024 * 1024]).is_some());
}

#[test]
fn poster_embeds_as_a_base64_data_uri() {
    let poster = Poster { bytes: vec![1, 2, 3], mime: "image/jpeg" };
    assert_eq!(poster_data_uri(&poster), "data:image/jpeg;base64,AQID");
    let short = Poster { bytes: vec![0xff, 0xfe], mime: "image/png" };
    assert_eq!(poster_data_uri(&short), "data:image/png;base64,//4=");
    let one = Poster { bytes: b"M".to_vec(), mime: "image/png" };
    assert_eq!(poster_data_uri(&one), "data:image/png;base64,TQ==");
}
