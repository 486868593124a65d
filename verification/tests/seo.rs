use fillerkiller::db::{ShowCore, SitemapGuide, SitemapShow};
use fillerkiller::guides::{Disposition, GuideDetail, GuideEntryView};
use fillerkiller::models::SeasonSummary;
use fillerkiller::scoring::{build_skip_guide, GuideMode};
use fillerkiller::seo::{
    guide_page, head_tags, html_escape, json_ld, og_card_url, render_page, show_page,
    sitemap_xml, skip_guide_page, truncate, PageMeta, MAX_DATED_SECS, MIN_DATED_SECS,
};

const NIL_ID: &str = "00000000-0000-0000-0000-000000000000";

#[test]
fn escapes_html_metacharacters() {
    assert_eq!(html_escape("a<b>&\"'"), "a&lt;b&gt;&amp;&quot;&#39;");
}

#[test]
fn escaped_text_has_no_markup_characters() {
    let out = html_escape("</script><img src=x onerror='y'>");
    assert!(!out.contains('<') && !out.contains('>') && !out.contains('"') && !out.contains('\''));
    assert_eq!(html_escape("plain words"), "plain words");
}

#[test]
fn escaping_entity_text_escapes_its_ampersand() {
    // Text that already reads like an entity is escaped again, so decoding the
    // result gives the text back rather than the character it names.
    assert_eq!(html_escape("&amp;"), "&amp;amp;");
    assert_eq!(html_escape("&#39;&"), "&amp;#39;&amp;");
}

#[test]
fn truncate_keeps_short_and_cuts_long_on_word_boundary() {
    assert_eq!(truncate("short text", 160), "short text");
    let long = "one two three four five";
    let t = truncate(long, 10);
    assert!(t.ends_with('…'));
    assert!(t.chars().count() <= 11);
    assert!(!t.contains("four"));
}

#[test]
fn truncate_cuts_to_the_last_space_within_budget() {
    assert_eq!(truncate("one two three four five", 10), "one two…");
    assert_eq!(truncate("  padded  ", 160), "padded");
    assert_eq!(truncate("abcdefghijkl", 5), "abcde…");
}

#[test]
fn render_page_swaps_head_and_fills_root() {
    let tmpl = "<head><!--head--><title>Default</title><!--/head--></head>\
                <body><div id=\"root\"></div></body>";
    let out = render_page(tmpl, "<title>Custom</title>", "<h1>Hi</h1>");
    assert!(out.contains("<title>Custom</title>"));
    assert!(!out.contains("Default"));
    assert!(!out.contains("<!--head-->"));
    assert!(out.contains("<div id=\"root\"><div hidden><h1>Hi</h1></div></div>"));
}

#[test]
fn render_page_is_noop_without_markers() {
    let tmpl = "<head><title>x</title></head><body>no root</body>";
    assert_eq!(render_page(tmpl, "<title>y</title>", "<h1>z</h1>"), tmpl);
}

#[test]
fn head_tags_carry_escaped_meta_and_card_size() {
    let meta = PageMeta {
        title: "A & B".to_string(),
        description: "d".to_string(),
        canonical: "https://x.example/p".to_string(),
        image: Some("https://x.example/i.png".to_string()),
        image_size: Some((1200, 630)),
    };
    let out = head_tags(&meta);
    assert!(out.starts_with("<title>A &amp; B</title><meta name=\"description\" content=\"d\" />"), "{out}");
    assert!(out.contains("<meta property=\"og:image:width\" content=\"1200\" />"), "{out}");
    assert!(out.contains("<meta property=\"og:image:height\" content=\"630\" />"), "{out}");
    assert!(out.contains("<link rel=\"canonical\" href=\"https://x.example/p\" />"), "{out}");
}

#[test]
fn og_card_url_points_at_the_png_route() {
    assert_eq!(og_card_url("https://fillerkiller.app", "breaking-bad"), "https://fillerkiller.app/og/shows/breaking-bad.png");
}

fn entry(episode: i32, name: Option<&str>, disposition: Disposition) -> GuideEntryView {
    GuideEntryView {
        episode_id: NIL_ID.to_string(),
        season_number: 1,
        episode_number: episode,
        name: name.map(|n| n.to_string()),
        disposition,
        watched: false,
    }
}

#[test]
fn guide_page_renders_head_and_escaped_buckets() {
    let guide = GuideDetail {
        id: NIL_ID.to_string(),
        show_id: NIL_ID.to_string(),
        show_slug: "breaking-bad".into(),
        show_name: "Breaking Bad".into(),
        poster_path: None,
        title: "Story only <x>".into(),
        description: Some("Just the essentials".into()),
        author_name: Some("Ann".into()),
        like_count: 3,
        is_published: true,
        my_like: false,
        mine: false,
        entries: vec![entry(1, Some("Pilot"), Disposition::Watch), entry(2, None, Disposition::Skip)],
    };
    let tmpl = "<head><!--head--><title>D</title><!--/head--></head><body><div id=\"root\"></div></body>";
    let out = guide_page(tmpl, "https://fillerkiller.app", &guide, None);
    assert!(out.contains("Story only &lt;x&gt; — Breaking Bad skip guide"), "{out}");
    assert!(out.contains("/shows/breaking-bad/guides/00000000-0000-0000-0000-000000000000"));
    assert!(out.contains("<h2>Watch (1)</h2>"));
    assert!(out.contains("<h2>Skip (1)</h2>"));
    assert!(out.contains("S1E1 — Pilot"));
}

#[test]
fn guide_page_uses_the_show_card_without_a_poster_and_the_poster_with_one() {
    let guide = GuideDetail {
        id: NIL_ID.to_string(),
        show_id: NIL_ID.to_string(),
        show_slug: "x".into(),
        show_name: "X".into(),
        poster_path: None,
        title: "T".into(),
        description: None,
        author_name: None,
        like_count: 0,
        is_published: true,
        my_like: false,
        mine: false,
        entries: vec![],
    };
    let tmpl = "<head><!--head--><!--/head--></head><body><div id=\"root\"></div></body>";
    let out = guide_page(tmpl, "https://f.app/", &guide, None);
    assert!(out.contains("https://f.app/og-image.png"), "{out}");
    assert!(out.contains("a former member"), "{out}");
    assert!(out.contains("A X skip guide: 0 to watch, 0 optional, 0 to skip."), "{out}");
    let out = guide_page(tmpl, "https://f.app/", &guide, Some("https://img/p.jpg".into()));
    assert!(out.contains("content=\"https://img/p.jpg\""), "{out}");
}

#[test]
fn sitemap_lists_static_show_and_guide_routes() {
    // 2024-05-01T00:00:00Z
    let ts = 1714521600;
    let shows = vec![SitemapShow { slug: "breaking-bad".into(), last_synced_at: ts }];
    let guides = vec![SitemapGuide { show_slug: "breaking-bad".into(), id: NIL_ID.to_string(), updated_at: ts }];
    let xml = sitemap_xml("https://fillerkiller.app/", &shows, &guides);
    assert!(xml.contains("<loc>https://fillerkiller.app/</loc>"));
    assert!(xml.contains("<loc>https://fillerkiller.app/shows/breaking-bad</loc>"));
    assert!(xml.contains("<loc>https://fillerkiller.app/shows/breaking-bad/skip-guide</loc>"));
    assert!(xml.contains("<loc>https://fillerkiller.app/privacy</loc>"));
    assert!(xml.contains("<lastmod>2024-05-01</lastmod>"));
    assert!(xml.contains(
        "<loc>https://fillerkiller.app/shows/breaking-bad/guides/00000000-0000-0000-0000-000000000000</loc>"
    ));
}

#[test]
fn sitemap_dates_and_priorities_are_exact() {
    // 1999-12-31T23:59:59Z and one second later.
    let shows = vec![
        SitemapShow { slug: "a".into(), last_synced_at: 946684799 },
        SitemapShow { slug: "b&c".into(), last_synced_at: 946684800 },
    ];
    let xml = sitemap_xml("https://f.app", &shows, &[]);
    assert!(xml.starts_with("<?xml version=\"1.0\" encoding=\"UTF-8\"?>\n<urlset"));
    assert!(xml.contains("  <url><loc>https://f.app/</loc><priority>1.0</priority></url>\n"));
    assert!(xml.contains("<loc>https://f.app/shows/a</loc><lastmod>1999-12-31</lastmod><priority>0.7</priority>"));
    assert!(xml.contains("<loc>https://f.app/shows/b&amp;c/skip-guide</loc><lastmod>2000-01-01</lastmod><priority>0.6</priority>"));
    assert!(xml.ends_with("</urlset>\n"));
    assert_eq!(xml.matches("<priority>0.3</priority>").count(), 4);
}

#[test]
fn show_page_emits_tvseries_jsonld_and_intent_title() {
    let core = ShowCore {
        tmdb_id: 1396,
        name: "Breaking Bad".into(),
        slug: "breaking-bad".into(),
        overview: Some("A chemistry teacher turns to crime.".into()),
        poster_path: Some("/poster.jpg".into()),
        tmdb_vote_average: Some("8.9".into()),
        tmdb_vote_count: Some(12000),
    };
    let tmpl = "<head><!--head--><title>D</title><!--/head--></head><body><div id=\"root\"></div></body>";
    let out = show_page(tmpl, "https://fillerkiller.app", &core, &[], Some("https://img.example/poster.jpg".into()));
    assert!(
        out.contains("<title>Breaking Bad Filler List — Which Episodes to Skip | FillerKiller</title>"),
        "{out}"
    );
    assert!(
        out.contains(
            "<meta property=\"og:image\" content=\"https://fillerkiller.app/og/shows/breaking-bad.png\" />"
        ),
        "{out}"
    );
    assert!(out.contains("<meta property=\"og:image:width\" content=\"1200\" />"), "{out}");
    assert!(out.contains("<meta property=\"og:image:height\" content=\"630\" />"), "{out}");
    assert!(out.contains("<meta name=\"twitter:card\" content=\"summary_large_image\" />"), "{out}");
    assert!(out.contains("\"image\":\"https://img.example/poster.jpg\""), "{out}");
    assert!(out.contains("\"@type\":\"TVSeries\""), "{out}");
    assert!(out.contains("\"aggregateRating\""), "{out}");
    assert!(out.contains("\"ratingValue\":8.9"), "{out}");
    assert!(out.contains("\"ratingCount\":12000"), "{out}");
    assert!(out.contains("\"@type\":\"BreadcrumbList\""), "{out}");
}

#[test]
fn show_page_lists_seasons_in_the_snapshot() {
    let core = ShowCore {
        tmdb_id: 1,
        name: "S".into(),
        slug: "s".into(),
        overview: None,
        poster_path: None,
        tmdb_vote_average: None,
        tmdb_vote_count: None,
    };
    let seasons = vec![
        SeasonSummary { season_number: 1, name: Some("Season 1".into()), episode_count: 7 },
        SeasonSummary { season_number: 2, name: None, episode_count: 1 },
    ];
    let tmpl = "<head><!--head--><!--/head--></head><body><div id=\"root\"></div></body>";
    let out = show_page(tmpl, "https://f.app", &core, &seasons, None);
    assert!(out.contains("<h2>Seasons</h2>"), "{out}");
    assert!(!out.contains("aggregateRating"), "{out}");
}

#[test]
fn skip_guide_page_uses_generated_og_card() {
    let core = ShowCore {
        tmdb_id: 1396,
        name: "Breaking Bad".into(),
        slug: "breaking-bad".into(),
        overview: None,
        poster_path: Some("/poster.jpg".into()),
        tmdb_vote_average: None,
        tmdb_vote_count: None,
    };
    let guide = build_skip_guide(&[], GuideMode::Standard, false);
    let tmpl = "<head><!--head--><title>D</title><!--/head--></head><body><div id=\"root\"></div></body>";
    let out = skip_guide_page(tmpl, "https://fillerkiller.app", &core, &guide);
    assert!(
        out.contains(
            "<meta property=\"og:image\" content=\"https://fillerkiller.app/og/shows/breaking-bad.png\" />"
        ),
        "{out}"
    );
    assert!(out.contains("<meta property=\"og:image:width\" content=\"1200\" />"), "{out}");
}

#[test]
fn json_ld_escapes_script_breakout() {
    // A `<`/`>`/`&` in JSON-LD data must become a `\uXXXX` escape so a value
    // containing `</script>` can't terminate the script element.
    let v = "{\"name\":\"</script><b>&\"}";
    let out = json_ld(v);
    assert!(!out.contains("</script><b>"), "{out}");
    assert!(out.contains("\\u003c/script\\u003e\\u003cb\\u003e\\u0026"), "{out}");
}

#[test]
fn sitemap_dates_the_first_and_last_second_chrono_knows() {
    let shows = vec![
        SitemapShow { slug: "first".into(), last_synced_at: MIN_DATED_SECS },
        SitemapShow { slug: "last".into(), last_synced_at: MAX_DATED_SECS },
    ];
    let xml = sitemap_xml("https://f.app", &shows, &[]);
    // Both ends of the range get a `<lastmod>`; the last second is dated with
    // chrono's signed five-digit-plus year.
    assert!(xml.contains("<loc>https://f.app/shows/first</loc><lastmod>"));
    assert!(xml.contains("<lastmod>+262142-12-31</lastmod>"));
}
