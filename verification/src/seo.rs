//! Server-side SEO rendering: a per-page `<head>` and a crawler-visible content
//! snapshot injected into the SPA shell, JSON-LD structured data, and the sitemap.
//! Plain string templating.
use vstd::prelude::*;
use crate::db::{ShowCore, SitemapGuide, SitemapShow};
use crate::guides::{Disposition, GuideDetail, GuideEntryView};
use crate::scoring::{EntryView, SkipGuide, SkipGuideEntry, entry_views};
use crate::models::SeasonSummary;
use crate::og::{HEIGHT, WIDTH};
use crate::text::{
    char_from_ascii, char_count, chars_of, digits, find, find_chars, int_text, lemma_find_from_range,
    push_char, push_digits, push_int, push_range, replace_first, replace_first_str, strip_trailing,
    trim, trim_end_char, trimmed_chars,
};

verus! {

/// The HTML entity (or the character itself) that stands for `c`.
pub open spec fn escape_char(c: char) -> Seq<char> {
    if c == '&' {
        "&amp;"@
    } else if c == '<' {
        "&lt;"@
    } else if c == '>' {
        "&gt;"@
    } else if c == '"' {
        "&quot;"@
    } else if c == '\'' {
        "&#39;"@
    } else {
        seq![c]
    }
}

/// Text escaped for HTML element and attribute contexts, character by character.
pub open spec fn html_escaped(s: Seq<char>) -> Seq<char>
    decreases s.len(),
{
    if s.len() == 0 {
        Seq::empty()
    } else {
        html_escaped(s.drop_last()) + escape_char(s.last())
    }
}

/// Appends `c` escaped for HTML.
fn push_escaped_char(out: &mut String, c: char)
    ensures
        final(out)@ == old(out)@ + escape_char(c),
{
    if c == '&' {
        out.append("&amp;");
    } else if c == '<' {
        out.append("&lt;");
    } else if c == '>' {
        out.append("&gt;");
    } else if c == '"' {
        out.append("&quot;");
    } else if c == '\'' {
        out.append("&#39;");
    } else {
        push_char(out, c);
        assert(old(out)@.push(c) == old(out)@ + seq![c]);
    }
}

/// Appends `s` escaped for HTML.
pub fn push_escaped(out: &mut String, s: &str)
    ensures
        final(out)@ == old(out)@ + html_escaped(s@),
{
    let v = chars_of(s);
    let mut i: usize = 0;
    while i < v.len()
        invariant
            v@ == s@,
            i <= v@.len(),
            out@ == old(out)@ + html_escaped(v@.take(i as int)),
        decreases v@.len() - i,
    {
        push_escaped_char(out, v[i]);
        assert(v@.take(i + 1).drop_last() == v@.take(i as int));
        i = i + 1;
    }
    assert(v@.take(v@.len() as int) == v@);
}

/// Escape text for safe inclusion in HTML element and attribute contexts.
pub fn html_escape(s: &str) -> (r: String)
    ensures
        r@ == html_escaped(s@),
{
    let mut out = String::new();
    push_escaped(&mut out, s);
    out
}

/// Escaping a concatenation escapes each part.
pub proof fn lemma_html_escaped_concat(a: Seq<char>, b: Seq<char>)
    ensures
        html_escaped(a + b) == html_escaped(a) + html_escaped(b),
    decreases b.len(),
{
    if b.len() == 0 {
        assert(a + b == a);
    } else {
        lemma_html_escaped_concat(a, b.drop_last());
        assert((a + b).drop_last() == a + b.drop_last());
    }
}

/// Escaped text holds no raw markup or quote characters: `<`, `>`, `"` and `'`
/// never appear in it.
pub proof fn lemma_html_escaped_is_inert(s: Seq<char>)
    ensures
        forall|k: int|
            0 <= k < html_escaped(s).len() ==> {
                let c = #[trigger] html_escaped(s)[k];
                c != '<' && c != '>' && c != '"' && c != '\''
            },
    decreases s.len(),
{
    reveal_strlit("&amp;");
    reveal_strlit("&lt;");
    reveal_strlit("&gt;");
    reveal_strlit("&quot;");
    reveal_strlit("&#39;");
    if s.len() > 0 {
        lemma_html_escaped_is_inert(s.drop_last());
        let p = html_escaped(s.drop_last());
        let e = escape_char(s.last());
        assert forall|k: int| 0 <= k < html_escaped(s).len() implies {
            let c = #[trigger] html_escaped(s)[k];
            c != '<' && c != '>' && c != '"' && c != '\''
        } by {
            if k >= p.len() {
                assert(html_escaped(s)[k] == e[k - p.len()]);
            } else {
                assert(html_escaped(s)[k] == p[k]);
            }
        }
    }
}

/// `t` holds one of the five entities that escaping writes, starting at `k`.
pub open spec fn entity_at(t: Seq<char>, k: int) -> bool {
    ||| k + 5 <= t.len() && t.subrange(k, k + 5) == "&amp;"@
    ||| k + 4 <= t.len() && t.subrange(k, k + 4) == "&lt;"@
    ||| k + 4 <= t.len() && t.subrange(k, k + 4) == "&gt;"@
    ||| k + 6 <= t.len() && t.subrange(k, k + 6) == "&quot;"@
    ||| k + 5 <= t.len() && t.subrange(k, k + 5) == "&#39;"@
}

/// Every `&` in escaped text starts one of the entities `&amp;`, `&lt;`,
/// `&gt;`, `&quot;` and `&#39;`.
pub proof fn lemma_html_escaped_ampersands(s: Seq<char>)
    ensures
        forall|k: int|
            0 <= k < html_escaped(s).len() && #[trigger] html_escaped(s)[k] == '&' ==> entity_at(
                html_escaped(s),
                k,
            ),
    decreases s.len(),
{
    reveal_strlit("&amp;");
    reveal_strlit("&lt;");
    reveal_strlit("&gt;");
    reveal_strlit("&quot;");
    reveal_strlit("&#39;");
    if s.len() > 0 {
        lemma_html_escaped_ampersands(s.drop_last());
        let p = html_escaped(s.drop_last());
        let e = escape_char(s.last());
        let t = html_escaped(s);
        assert(t == p + e);
        assert forall|k: int| 0 <= k < t.len() && #[trigger] t[k] == '&' implies entity_at(t, k) by {
            if k >= p.len() {
                assert(t[k] == e[k - p.len()]);
                assert(k == p.len());
                assert(t.subrange(k, k + e.len()) =~= e);
            } else {
                assert(t[k] == p[k]);
                assert(entity_at(p, k));
                assert(t.subrange(k, k + 4) =~= p.subrange(k, k + 4));
                if k + 5 <= p.len() {
                    assert(t.subrange(k, k + 5) =~= p.subrange(k, k + 5));
                }
                if k + 6 <= p.len() {
                    assert(t.subrange(k, k + 6) =~= p.subrange(k, k + 6));
                }
            }
        }
    }
}

/// Decoding of the five entities that escaping writes, read left to right:
/// `&amp;`, `&lt;`, `&gt;`, `&quot;` and `&#39;` each stand for their character,
/// and any other character stands for itself.
pub open spec fn html_unescaped(s: Seq<char>) -> Seq<char>
    decreases s.len(),
{
    if s.len() == 0 {
        Seq::empty()
    } else if s.len() >= 5 && s.take(5) == "&amp;"@ {
        seq!['&'] + html_unescaped(s.skip(5))
    } else if s.len() >= 4 && s.take(4) == "&lt;"@ {
        seq!['<'] + html_unescaped(s.skip(4))
    } else if s.len() >= 4 && s.take(4) == "&gt;"@ {
        seq!['>'] + html_unescaped(s.skip(4))
    } else if s.len() >= 6 && s.take(6) == "&quot;"@ {
        seq!['"'] + html_unescaped(s.skip(6))
    } else if s.len() >= 5 && s.take(5) == "&#39;"@ {
        seq!['\''] + html_unescaped(s.skip(5))
    } else {
        seq![s[0]] + html_unescaped(s.skip(1))
    }
}

/// Decoding the escape of one character, followed by anything, gives that
/// character back and goes on with the rest.
proof fn lemma_html_unescape_step(c: char, rest: Seq<char>)
    ensures
        html_unescaped(escape_char(c) + rest) == seq![c] + html_unescaped(rest),
{
    reveal_strlit("&amp;");
    reveal_strlit("&lt;");
    reveal_strlit("&gt;");
    reveal_strlit("&quot;");
    reveal_strlit("&#39;");
    let e = escape_char(c);
    let t = e + rest;
    assert(t.skip(e.len() as int) =~= rest);
    assert(t[0] == e[0]);
    if e.len() > 1 {
        assert(t[1] == e[1]);
    }
    if c == '&' {
        assert(t.take(5) =~= "&amp;"@);
    } else if c == '<' {
        assert(t.len() >= 5 ==> t.take(5)[1] != "&amp;"@[1]);
        assert(t.take(4) =~= "&lt;"@);
    } else if c == '>' {
        assert(t.len() >= 5 ==> t.take(5)[1] != "&amp;"@[1]);
        assert(t.len() >= 4 ==> t.take(4)[1] != "&lt;"@[1]);
        assert(t.take(4) =~= "&gt;"@);
    } else if c == '"' {
        assert(t.len() >= 5 ==> t.take(5)[1] != "&amp;"@[1]);
        assert(t.len() >= 4 ==> t.take(4)[1] != "&lt;"@[1]);
        assert(t.len() >= 4 ==> t.take(4)[1] != "&gt;"@[1]);
        assert(t.take(6) =~= "&quot;"@);
    } else if c == '\'' {
        assert(t.len() >= 5 ==> t.take(5)[1] != "&amp;"@[1]);
        assert(t.len() >= 4 ==> t.take(4)[1] != "&lt;"@[1]);
        assert(t.len() >= 4 ==> t.take(4)[1] != "&gt;"@[1]);
        assert(t.len() >= 6 ==> t.take(6)[1] != "&quot;"@[1]);
        assert(t.take(5) =~= "&#39;"@);
    } else {
        assert(t.len() >= 4 ==> t.take(4)[0] != "&lt;"@[0]);
        assert(t.len() >= 5 ==> t.take(5)[0] != "&amp;"@[0]);
        assert(t.len() >= 6 ==> t.take(6)[0] != "&quot;"@[0]);
    }
}

/// Decoding escaped text gives the text back: escaping loses nothing.
pub proof fn lemma_html_unescape_round_trip(s: Seq<char>)
    ensures
        html_unescaped(html_escaped(s)) == s,
    decreases s.len(),
{
    if s.len() > 0 {
        let rest = s.skip(1);
        assert(s =~= seq![s[0]] + rest);
        lemma_html_escaped_concat(seq![s[0]], rest);
        let one = seq![s[0]];
        assert(one.drop_last() =~= Seq::<char>::empty());
        assert(html_escaped(one) == html_escaped(one.drop_last()) + escape_char(one.last()));
        assert(html_escaped(one) =~= escape_char(s[0]));
        lemma_html_unescape_step(s[0], html_escaped(rest));
        lemma_html_unescape_round_trip(rest);
    }
}

/// Text without any of `& < > " '` is unchanged by escaping.
pub proof fn lemma_html_escaped_plain(s: Seq<char>)
    requires
        forall|k: int|
            0 <= k < s.len() ==> {
                let c = #[trigger] s[k];
                c != '&' && c != '<' && c != '>' && c != '"' && c != '\''
            },
    ensures
        html_escaped(s) == s,
    decreases s.len(),
{
    if s.len() > 0 {
        assert forall|k: int| 0 <= k < s.drop_last().len() implies {
            let c = #[trigger] s.drop_last()[k];
            c != '&' && c != '<' && c != '>' && c != '"' && c != '\''
        } by {
            assert(s.drop_last()[k] == s[k]);
        }
        lemma_html_escaped_plain(s.drop_last());
        assert(s.drop_last() + seq![s.last()] == s);
    }
}

/// The position of the last `c` in `s`, if any.
pub open spec fn last_index_of(s: Seq<char>, c: char) -> Option<int>
    decreases s.len(),
{
    if s.len() == 0 {
        None
    } else if s.last() == c {
        Some(s.len() - 1)
    } else {
        last_index_of(s.drop_last(), c)
    }
}

pub proof fn lemma_last_index_range(s: Seq<char>, c: char)
    ensures
        last_index_of(s, c) matches Some(i) ==> 0 <= i < s.len() && s[i] == c,
    decreases s.len(),
{
    if s.len() > 0 && s.last() != c {
        lemma_last_index_range(s.drop_last(), c);
    }
}

/// `s` trimmed, then cut to at most `max` characters on a word boundary with an
/// ellipsis appended when it was too long.
pub open spec fn truncated(s: Seq<char>, max: nat) -> Seq<char> {
    let t = trim(s);
    if t.len() <= max {
        t
    } else {
        let out = t.take(max as int);
        let cut = match last_index_of(out, ' ') {
            Some(i) => out.take(i),
            None => out,
        };
        cut.push('…')
    }
}

/// Trim to at most `max` chars on a word boundary, appending an ellipsis when cut.
pub fn truncate(s: &str, max: usize) -> (r: String)
    ensures
        r@ == truncated(s@, max as nat),
{
    let t = trimmed_chars(s);
    if t.len() <= max {
        let mut out = String::new();
        push_range(&mut out, t.as_slice(), 0, t.len());
        assert(t@.subrange(0, t@.len() as int) == t@);
        assert(Seq::<char>::empty() + t@ == t@);
        return out;
    }
    // Find the last space among the first `max` characters.
    let mut k: usize = max;
    while k > 0 && t[k - 1] != ' '
        invariant
            max < t@.len(),
            k <= max,
            last_index_of(t@.take(max as int), ' ') == last_index_of(t@.take(k as int), ' '),
        decreases k,
    {
        assert(t@.take(k as int).drop_last() == t@.take(k - 1));
        k = k - 1;
    }
    let end: usize = if k > 0 {
        k - 1
    } else {
        max
    };
    proof {
        if k == 0 {
            assert(t@.take(0) =~= Seq::<char>::empty());
        } else {
            assert(t@.take(k as int).last() == ' ');
        }
    }
    let mut out = String::new();
    push_range(&mut out, t.as_slice(), 0, end);
    push_char(&mut out, '…');
    assert(t@.subrange(0, end as int) == t@.take(max as int).take(end as int));
    assert(Seq::<char>::empty() + t@.subrange(0, end as int) == t@.subrange(0, end as int));
    out
}

/// A truncated text is at most one character (the ellipsis) longer than `max`,
/// and text that fits (once trimmed) is kept whole.
pub proof fn lemma_truncated_length(s: Seq<char>, max: nat)
    ensures
        truncated(s, max).len() <= max + 1,
        trim(s).len() <= max ==> truncated(s, max) == trim(s),
        trim(s).len() > max ==> truncated(s, max).last() == '…',
{
    let t = trim(s);
    if t.len() > max {
        lemma_last_index_range(t.take(max as int), ' ');
    }
}

/// Everything in `s` from the first `open` through the first `close` (inclusive)
/// replaced with `rep`; `s` unchanged unless both occur with `close` not
/// before `open`.
pub open spec fn replaced_between(
    s: Seq<char>,
    open: Seq<char>,
    close: Seq<char>,
    rep: Seq<char>,
) -> Seq<char> {
    match (find(s, open), find(s, close)) {
        (Some(i), Some(j)) => if j >= i {
            s.take(i) + rep + s.skip(j + close.len())
        } else {
            s
        },
        _ => s,
    }
}

/// Replace everything from `open` through `close` (inclusive) with `replacement`.
/// Returns the input unchanged if the markers aren't found in order.
pub fn replace_between(s: &str, open: &str, close: &str, replacement: &str) -> (r: String)
    ensures
        r@ == replaced_between(s@, open@, close@, replacement@),
{
    let x = chars_of(s);
    let o = chars_of(open);
    let c = chars_of(close);
    let xl = x.len();
    let fo = find_chars(x.as_slice(), o.as_slice());
    let fc = find_chars(x.as_slice(), c.as_slice());
    proof {
        lemma_find_from_range(x@, o@, 0);
        lemma_find_from_range(x@, c@, 0);
    }
    match (fo, fc) {
        (Some(i), Some(j)) => {
            proof {
                let fi = find(x@, o@)->0;
                let fj = find(x@, c@)->0;
                assert(0 <= fi <= xl && 0 <= fj <= xl);
                assert(fi == i as int && fj == j as int);
            }
            if j >= i {
                let mut out = String::new();
                push_range(&mut out, x.as_slice(), 0, i);
                out.append(replacement);
                push_range(&mut out, x.as_slice(), j + c.len(), x.len());
                assert(x@.subrange(0, i as int) == x@.take(i as int));
                assert(x@.subrange((j + c@.len()) as int, x@.len() as int) == x@.skip(
                    j + c@.len(),
                ));
                assert(Seq::<char>::empty() + x@.take(i as int) == x@.take(i as int));
                return out;
            }
        },
        _ => {},
    }
    let mut out = String::new();
    push_range(&mut out, x.as_slice(), 0, x.len());
    assert(x@.subrange(0, x@.len() as int) == x@);
    assert(Seq::<char>::empty() + x@ == x@);
    out
}

/// The shell with its default head block swapped for `head` and the snapshot
/// injected, hidden, into the empty root element.
pub open spec fn rendered_page(template: Seq<char>, head: Seq<char>, snapshot: Seq<char>) -> Seq<
    char,
> {
    replace_first(
        replaced_between(template, "<!--head-->"@, "<!--/head-->"@, head),
        "<div id=\"root\"></div>"@,
        "<div id=\"root\"><div hidden>"@ + snapshot + "</div></div>"@,
    )
}

/// A template without the head markers and without the empty root element is
/// returned unchanged.
pub proof fn lemma_render_page_without_markers(template: Seq<char>, head: Seq<char>, snapshot: Seq<
    char,
>)
    requires
        find(template, "<!--head-->"@) is None,
        find(template, "<div id=\"root\"></div>"@) is None,
    ensures
        rendered_page(template, head, snapshot) == template,
{
}

/// Inject a per-page head + content snapshot into the SPA shell.
pub fn render_page(template: &str, head: &str, snapshot: &str) -> (r: String)
    ensures
        r@ == rendered_page(template@, head@, snapshot@),
{
    let with_head = replace_between(template, "<!--head-->", "<!--/head-->", head);
    let mut root = String::new();
    root.append("<div id=\"root\"><div hidden>");
    root.append(snapshot);
    root.append("</div></div>");
    replace_first_str(with_head.as_str(), "<div id=\"root\"></div>", root.as_str())
}

/// The name the site goes by in page titles and Open Graph tags.
pub open spec fn site_name() -> Seq<char> {
    "FillerKiller"@
}

/// Metadata for a page's `<head>`.
pub struct PageMeta {
    pub title: String,
    pub description: String,
    pub canonical: String,
    pub image: Option<String>,
    /// Pixel size of `image`, emitted as `og:image:width`/`height` when known.
    pub image_size: Option<(u32, u32)>,
}

/// A `<meta>`-style tag: `open`, the attribute value, then `"` and ` />`.
pub open spec fn attr_tag(open: Seq<char>, value: Seq<char>) -> Seq<char> {
    open + value + "\" />"@
}

/// The image tags of a head: `og:image`, its size when known, `twitter:image`.
pub open spec fn image_tags(image: Option<Seq<char>>, size: Option<(u32, u32)>) -> Seq<char> {
    match image {
        None => Seq::empty(),
        Some(img) => {
            let i = html_escaped(img);
            attr_tag("<meta property=\"og:image\" content=\""@, i) + match size {
                Some((w, h)) => attr_tag(
                    "<meta property=\"og:image:width\" content=\""@,
                    int_text(w as int),
                ) + attr_tag("<meta property=\"og:image:height\" content=\""@, int_text(h as int)),
                None => Seq::empty(),
            } + attr_tag("<meta name=\"twitter:image\" content=\""@, i)
        },
    }
}

/// The `<head>` tags for a page: title, description, canonical link, Open
/// Graph and Twitter card tags; all dynamic text is HTML-escaped.
pub open spec fn head_text(
    title: Seq<char>,
    description: Seq<char>,
    canonical: Seq<char>,
    image: Option<Seq<char>>,
    size: Option<(u32, u32)>,
) -> Seq<char> {
    let t = html_escaped(title);
    let d = html_escaped(description);
    let c = html_escaped(canonical);
    "<title>"@ + t + "</title>"@ + attr_tag("<meta name=\"description\" content=\""@, d)
        + attr_tag("<link rel=\"canonical\" href=\""@, c) + "<meta property=\"og:type\" content=\"website\" />"@
        + attr_tag("<meta property=\"og:site_name\" content=\""@, site_name()) + attr_tag(
        "<meta property=\"og:title\" content=\""@,
        t,
    ) + attr_tag("<meta property=\"og:description\" content=\""@, d) + attr_tag(
        "<meta property=\"og:url\" content=\""@,
        c,
    ) + "<meta name=\"twitter:card\" content=\"summary_large_image\" />"@ + attr_tag(
        "<meta name=\"twitter:title\" content=\""@,
        t,
    ) + attr_tag("<meta name=\"twitter:description\" content=\""@, d) + image_tags(image, size)
}

pub open spec fn opt_view(o: Option<String>) -> Option<Seq<char>> {
    match o {
        Some(s) => Some(s@),
        None => None,
    }
}

fn push_attr_tag(out: &mut String, open: &str, value: &str)
    ensures
        final(out)@ == old(out)@ + attr_tag(open@, value@),
{
    out.append(open);
    out.append(value);
    out.append("\" />");
}

fn push_int_attr_tag(out: &mut String, open: &str, value: u32)
    ensures
        final(out)@ == old(out)@ + attr_tag(open@, int_text(value as int)),
{
    out.append(open);
    push_int(out, value as i64);
    out.append("\" />");
}

/// The head tags for a page.
pub fn head_tags(m: &PageMeta) -> (r: String)
    ensures
        r@ == head_text(
            m.title@,
            m.description@,
            m.canonical@,
            opt_view(m.image),
            m.image_size,
        ),
{
    let title = html_escape(m.title.as_str());
    let desc = html_escape(m.description.as_str());
    let canonical = html_escape(m.canonical.as_str());
    let mut s = String::new();
    s.append("<title>");
    s.append(title.as_str());
    s.append("</title>");
    push_attr_tag(&mut s, "<meta name=\"description\" content=\"", desc.as_str());
    push_attr_tag(&mut s, "<link rel=\"canonical\" href=\"", canonical.as_str());
    s.append("<meta property=\"og:type\" content=\"website\" />");
    push_attr_tag(&mut s, "<meta property=\"og:site_name\" content=\"", "FillerKiller");
    push_attr_tag(&mut s, "<meta property=\"og:title\" content=\"", title.as_str());
    push_attr_tag(&mut s, "<meta property=\"og:description\" content=\"", desc.as_str());
    push_attr_tag(&mut s, "<meta property=\"og:url\" content=\"", canonical.as_str());
    s.append("<meta name=\"twitter:card\" content=\"summary_large_image\" />");
    push_attr_tag(&mut s, "<meta name=\"twitter:title\" content=\"", title.as_str());
    push_attr_tag(&mut s, "<meta name=\"twitter:description\" content=\"", desc.as_str());
    let ghost before = s@;
    match &m.image {
        Some(image) => {
            let image = html_escape(image.as_str());
            push_attr_tag(&mut s, "<meta property=\"og:image\" content=\"", image.as_str());
            let ghost mid = s@;
            match m.image_size {
                Some((w, h)) => {
                    push_int_attr_tag(&mut s, "<meta property=\"og:image:width\" content=\"", w);
                    push_int_attr_tag(&mut s, "<meta property=\"og:image:height\" content=\"", h);
                },
                None => {},
            }
            push_attr_tag(&mut s, "<meta name=\"twitter:image\" content=\"", image.as_str());
        },
        None => {},
    }
    s
}

/// Absolute URL of the generated per-show Open Graph card.
pub open spec fn og_card_text(base: Seq<char>, slug: Seq<char>) -> Seq<char> {
    base + "/og/shows/"@ + slug + ".png"@
}

pub fn og_card_url(base: &str, slug: &str) -> (r: String)
    ensures
        r@ == og_card_text(base@, slug@),
{
    let mut s = String::new();
    s.append(base);
    s.append("/og/shows/");
    s.append(slug);
    s.append(".png");
    s
}

/// The lowercase hexadecimal digit for `d < 16`.
pub open spec fn hex_digit(d: nat) -> char {
    if d < 10 {
        (48 + d) as char
    } else {
        (87 + d) as char
    }
}

/// How a character is written inside a JSON string: quote, backslash and control
/// characters escaped (short forms where JSON has them, else `\u00XX`).
pub open spec fn json_escape_char(c: char) -> Seq<char> {
    if c == '"' {
        "\\\""@
    } else if c == '\\' {
        "\\\\"@
    } else if c == '\u{8}' {
        "\\b"@
    } else if c == '\u{c}' {
        "\\f"@
    } else if c == '\n' {
        "\\n"@
    } else if c == '\r' {
        "\\r"@
    } else if c == '\t' {
        "\\t"@
    } else if (c as u32) < 0x20 {
        "\\u00"@ + seq![hex_digit((c as u32 / 16) as nat), hex_digit((c as u32 % 16) as nat)]
    } else {
        seq![c]
    }
}

pub open spec fn json_escaped(s: Seq<char>) -> Seq<char>
    decreases s.len(),
{
    if s.len() == 0 {
        Seq::empty()
    } else {
        json_escaped(s.drop_last()) + json_escape_char(s.last())
    }
}

/// A JSON string literal holding `s`.
pub open spec fn json_string(s: Seq<char>) -> Seq<char> {
    "\""@ + json_escaped(s) + "\""@
}

fn push_json_escaped_char(out: &mut String, c: char)
    ensures
        final(out)@ == old(out)@ + json_escape_char(c),
{
    if c == '"' {
        out.append("\\\"");
    } else if c == '\\' {
        out.append("\\\\");
    } else if c == '\u{8}' {
        out.append("\\b");
    } else if c == '\u{c}' {
        out.append("\\f");
    } else if c == '\n' {
        out.append("\\n");
    } else if c == '\r' {
        out.append("\\r");
    } else if c == '\t' {
        out.append("\\t");
    } else if (c as u32) < 0x20 {
        out.append("\\u00");
        let hi: u32 = (c as u32) / 16;
        let lo: u32 = (c as u32) % 16;
        let h = char_from_ascii(if hi < 10 { 48 + hi } else { 87 + hi });
        let l = char_from_ascii(if lo < 10 { 48 + lo } else { 87 + lo });
        push_char(out, h);
        push_char(out, l);
    } else {
        push_char(out, c);
        assert(old(out)@.push(c) == old(out)@ + seq![c]);
    }
}

/// Appends `s` as a JSON string literal.
pub fn push_json_string(out: &mut String, s: &str)
    ensures
        final(out)@ == old(out)@ + json_string(s@),
{
    out.append("\"");
    let ghost start = out@;
    let v = chars_of(s);
    let mut i: usize = 0;
    while i < v.len()
        invariant
            v@ == s@,
            i <= v@.len(),
            out@ == start + json_escaped(v@.take(i as int)),
        decreases v@.len() - i,
    {
        push_json_escaped_char(out, v[i]);
        assert(v@.take(i + 1).drop_last() == v@.take(i as int));
        i = i + 1;
    }
    assert(v@.take(v@.len() as int) == v@);
    out.append("\"");
}

/// One `ListItem` of a breadcrumb trail, at 1-based `pos`, members in sorted
/// key order.
pub open spec fn list_item(pos: nat, name: Seq<char>, url: Seq<char>) -> Seq<char> {
    "{\"@type\":\"ListItem\",\"item\":"@ + json_string(url) + ",\"name\":"@ + json_string(name)
        + ",\"position\":"@ + digits(pos) + "}"@
}

/// The comma-separated `ListItem`s of a trail of `(name, url)` crumbs.
pub open spec fn list_items(crumbs: Seq<(Seq<char>, Seq<char>)>) -> Seq<char>
    decreases crumbs.len(),
{
    if crumbs.len() == 0 {
        Seq::empty()
    } else {
        let prev = list_items(crumbs.drop_last());
        let sep = if crumbs.len() > 1 {
            ","@
        } else {
            Seq::empty()
        };
        prev + sep + list_item(crumbs.len(), crumbs.last().0, crumbs.last().1)
    }
}

/// A schema.org `BreadcrumbList` (JSON text) from `(name, url)` pairs. Members
/// are in sorted key order, as serde_json writes an object by default.
pub open spec fn breadcrumb_text(crumbs: Seq<(Seq<char>, Seq<char>)>) -> Seq<char> {
    "{\"@context\":\"https://schema.org\",\"@type\":\"BreadcrumbList\",\"itemListElement\":["@
        + list_items(crumbs) + "]}"@
}

pub open spec fn crumb_views(crumbs: Seq<(&str, &str)>) -> Seq<(Seq<char>, Seq<char>)> {
    crumbs.map_values(|c: (&str, &str)| (c.0@, c.1@))
}

/// A schema.org `BreadcrumbList` from `(name, url)` pairs, in order from the
/// site root, as JSON text.
pub fn breadcrumb_ld(crumbs: &[(&str, &str)]) -> (r: String)
    ensures
        r@ == breadcrumb_text(crumb_views(crumbs@)),
{
    let ghost cv = crumb_views(crumbs@);
    let mut s = String::new();
    s.append(
        "{\"@context\":\"https://schema.org\",\"@type\":\"BreadcrumbList\",\"itemListElement\":[",
    );
    let ghost start = s@;
    let mut i: usize = 0;
    while i < crumbs.len()
        invariant
            cv == crumb_views(crumbs@),
            i <= crumbs@.len(),
            s@ == start + list_items(cv.take(i as int)),
        decreases crumbs@.len() - i,
    {
        assert(cv.take(i + 1).drop_last() == cv.take(i as int));
        assert(cv.take(i + 1).last() == (crumbs@[i as int].0@, crumbs@[i as int].1@));
        if i > 0 {
            s.append(",");
        }
        let (name, url) = crumbs[i];
        s.append("{\"@type\":\"ListItem\",\"item\":");
        push_json_string(&mut s, url);
        s.append(",\"name\":");
        push_json_string(&mut s, name);
        s.append(",\"position\":");
        push_digits(&mut s, i as u64 + 1);
        s.append("}");
        i = i + 1;
    }
    assert(cv.take(crumbs@.len() as int) == cv);
    s.append("]}");
    s
}

/// How a character is written inside a JSON-LD script block: `<`, `>` and `&`
/// become `\u` escapes so the payload can never close the script element.
pub open spec fn ld_escape_char(c: char) -> Seq<char> {
    if c == '<' {
        "\\u003c"@
    } else if c == '>' {
        "\\u003e"@
    } else if c == '&' {
        "\\u0026"@
    } else {
        seq![c]
    }
}

pub open spec fn ld_escaped(s: Seq<char>) -> Seq<char>
    decreases s.len(),
{
    if s.len() == 0 {
        Seq::empty()
    } else {
        ld_escaped(s.drop_last()) + ld_escape_char(s.last())
    }
}

/// A `<script type="application/ld+json">` block carrying JSON text `raw`.
pub open spec fn json_ld_text(raw: Seq<char>) -> Seq<char> {
    "<script type=\"application/ld+json\">"@ + ld_escaped(raw) + "</script>"@
}

/// Wrap serialized JSON-LD in a script block, escaping `<`, `>` and `&` to their
/// `\uXXXX` forms: still valid JSON, and no way to break out of the element.
pub fn json_ld(raw: &str) -> (r: String)
    ensures
        r@ == json_ld_text(raw@),
{
    let mut s = String::new();
    s.append("<script type=\"application/ld+json\">");
    let ghost start = s@;
    let v = chars_of(raw);
    let mut i: usize = 0;
    while i < v.len()
        invariant
            v@ == raw@,
            i <= v@.len(),
            s@ == start + ld_escaped(v@.take(i as int)),
        decreases v@.len() - i,
    {
        let c = v[i];
        if c == '<' {
            s.append("\\u003c");
        } else if c == '>' {
            s.append("\\u003e");
        } else if c == '&' {
            s.append("\\u0026");
        } else {
            push_char(&mut s, c);
            assert(s@ == start + ld_escaped(v@.take(i as int)) + seq![c]);
        }
        assert(v@.take(i + 1).drop_last() == v@.take(i as int));
        i = i + 1;
    }
    assert(v@.take(v@.len() as int) == v@);
    s.append("</script>");
    s
}

/// The escaped payload of a JSON-LD block never contains `<` or `>`, so it
/// cannot close the script element early.
pub proof fn lemma_ld_escaped_has_no_angle_brackets(s: Seq<char>)
    ensures
        forall|k: int|
            0 <= k < ld_escaped(s).len() ==> #[trigger] ld_escaped(s)[k] != '<' && ld_escaped(s)[k]
                != '>',
    decreases s.len(),
{
    reveal_strlit("\\u003c");
    reveal_strlit("\\u003e");
    reveal_strlit("\\u0026");
    if s.len() > 0 {
        lemma_ld_escaped_has_no_angle_brackets(s.drop_last());
        let p = ld_escaped(s.drop_last());
        let e = ld_escape_char(s.last());
        assert forall|k: int| 0 <= k < ld_escaped(s).len() implies #[trigger] ld_escaped(s)[k]
            != '<' && ld_escaped(s)[k] != '>' by {
            if k >= p.len() {
                assert(ld_escaped(s)[k] == e[k - p.len()]);
            } else {
                assert(ld_escaped(s)[k] == p[k]);
            }
        }
    }
}

/// Text that is empty once trimmed.
pub open spec fn is_blank(s: Seq<char>) -> bool {
    trim(s).len() == 0
}

/// Whether a string slice is empty once trimmed.
pub fn blank(s: &str) -> (r: bool)
    ensures
        r == is_blank(s@),
{
    let t = trimmed_chars(s);
    t.len() == 0
}

/// A show page's meta description: its overview cut to 160 characters, or a
/// stock sentence when it has none.
pub open spec fn show_description(name: Seq<char>, overview: Option<Seq<char>>) -> Seq<char> {
    match overview {
        Some(o) => if !is_blank(o) {
            truncated(o, 160)
        } else {
            "Crowd-sourced filler guide for "@ + name
                + " — see which episodes are filler, worth it, or canon."@
        },
        None => "Crowd-sourced filler guide for "@ + name
            + " — see which episodes are filler, worth it, or canon."@,
    }
}

/// The `aggregateRating` member of a TVSeries, present only with a rating and a
/// positive rating count.
pub open spec fn rating_member(avg: Option<Seq<char>>, count: Option<i32>) -> Seq<char> {
    match (avg, count) {
        (Some(a), Some(c)) => if c > 0 {
            ",\"aggregateRating\":{\"@type\":\"AggregateRating\",\"bestRating\":10,\"ratingCount\":"@
                + int_text(c as int) + ",\"ratingValue\":"@ + a + ",\"worstRating\":0}"@
        } else {
            Seq::empty()
        },
        _ => Seq::empty(),
    }
}

/// A schema.org TVSeries as JSON text. Members are written in sorted key
/// order, the order serde_json gives the keys of an object built with its
/// default (ordered-map) settings, so the text is what such a value
/// serializes to.
pub open spec fn series_text(
    name: Seq<char>,
    url: Seq<char>,
    image: Option<Seq<char>>,
    seasons: nat,
    avg: Option<Seq<char>>,
    count: Option<i32>,
) -> Seq<char> {
    "{\"@context\":\"https://schema.org\",\"@type\":\"TVSeries\""@ + rating_member(avg, count)
        + match image {
        Some(i) => ",\"image\":"@ + json_string(i),
        None => Seq::empty(),
    } + ",\"name\":"@ + json_string(name) + if seasons > 0 {
        ",\"numberOfSeasons\":"@ + digits(seasons)
    } else {
        Seq::empty()
    } + ",\"url\":"@ + json_string(url) + "}"@
}

/// The label of a season in the snapshot: its name, or "Season N".
pub open spec fn season_label(s: SeasonSummary) -> Seq<char> {
    match s.name {
        Some(n) => if !is_blank(n@) {
            html_escaped(n@)
        } else {
            "Season "@ + int_text(s.season_number as int)
        },
        None => "Season "@ + int_text(s.season_number as int),
    }
}

pub open spec fn season_items(seasons: Seq<SeasonSummary>) -> Seq<char>
    decreases seasons.len(),
{
    if seasons.len() == 0 {
        Seq::empty()
    } else {
        let s = seasons.last();
        season_items(seasons.drop_last()) + "<li>"@ + season_label(s) + " ("@ + int_text(
            s.episode_count as int,
        ) + " episodes)</li>"@
    }
}

/// The crawlable snapshot of a show page.
pub open spec fn show_body(
    name: Seq<char>,
    overview: Option<Seq<char>>,
    seasons: Seq<SeasonSummary>,
    canonical: Seq<char>,
) -> Seq<char> {
    "<h1>"@ + html_escaped(name) + "</h1>"@ + match overview {
        Some(o) => if !is_blank(o) {
            "<p>"@ + html_escaped(o) + "</p>"@
        } else {
            Seq::empty()
        },
        None => Seq::empty(),
    } + if seasons.len() > 0 {
        "<h2>Seasons</h2><ul>"@ + season_items(seasons) + "</ul>"@
    } else {
        Seq::empty()
    } + "<p><a href=\""@ + html_escaped(canonical) + "/skip-guide\">View the skip guide for "@
        + html_escaped(name) + "</a></p>"@
}

/// The canonical URL of a show page.
pub open spec fn show_url_text(base: Seq<char>, slug: Seq<char>) -> Seq<char> {
    base + "/shows/"@ + slug
}

/// A show page: per-show head (intent title, description, the generated stat
/// card as `og:image`), TVSeries and breadcrumb JSON-LD, and the snapshot.
pub open spec fn show_page_text(
    template: Seq<char>,
    base: Seq<char>,
    core: ShowCore,
    seasons: Seq<SeasonSummary>,
    image: Option<Seq<char>>,
) -> Seq<char> {
    let base = strip_trailing(base, '/');
    let canonical = show_url_text(base, core.slug@);
    rendered_page(
        template,
        show_head_text(base, core, seasons, image),
        show_body(core.name@, opt_view(core.overview), seasons, canonical),
    )
}

/// The head of a show page, for the base URL without its trailing slashes.
pub open spec fn show_head_text(
    base: Seq<char>,
    core: ShowCore,
    seasons: Seq<SeasonSummary>,
    image: Option<Seq<char>>,
) -> Seq<char> {
    let canonical = show_url_text(base, core.slug@);
    head_text(
        core.name@ + " Filler List — Which Episodes to Skip | "@ + site_name(),
        show_description(core.name@, opt_view(core.overview)),
        canonical,
        Some(og_card_text(base, core.slug@)),
        Some((WIDTH, HEIGHT)),
    ) + json_ld_text(
        series_text(
            core.name@,
            canonical,
            image,
            seasons.len(),
            opt_view(core.tmdb_vote_average),
            core.tmdb_vote_count,
        ),
    ) + json_ld_text(breadcrumb_text(seq![("Home"@, base), (core.name@, canonical)]))
}

fn show_description_exec(core: &ShowCore) -> (r: String)
    ensures
        r@ == show_description(core.name@, opt_view(core.overview)),
{
    match &core.overview {
        Some(o) => {
            if !blank(o.as_str()) {
                return truncate(o.as_str(), 160);
            }
        },
        None => {},
    }
    let mut s = String::new();
    s.append("Crowd-sourced filler guide for ");
    s.append(core.name.as_str());
    s.append(" — see which episodes are filler, worth it, or canon.");
    s
}

fn series_ld(core: &ShowCore, url: &str, image: &Option<String>, seasons: usize) -> (r: String)
    ensures
        r@ == series_text(
            core.name@,
            url@,
            opt_view(*image),
            seasons as nat,
            opt_view(core.tmdb_vote_average),
            core.tmdb_vote_count,
        ),
{
    let mut s = String::new();
    s.append("{\"@context\":\"https://schema.org\",\"@type\":\"TVSeries\"");
    match (&core.tmdb_vote_average, core.tmdb_vote_count) {
        (Some(avg), Some(count)) => {
            if count > 0 {
                s.append(
                    ",\"aggregateRating\":{\"@type\":\"AggregateRating\",\"bestRating\":10,\"ratingCount\":",
                );
                push_int(&mut s, count as i64);
                s.append(",\"ratingValue\":");
                s.append(avg.as_str());
                s.append(",\"worstRating\":0}");
            }
        },
        _ => {},
    }
    match image {
        Some(img) => {
            s.append(",\"image\":");
            push_json_string(&mut s, img.as_str());
        },
        None => {},
    }
    s.append(",\"name\":");
    push_json_string(&mut s, core.name.as_str());
    if seasons > 0 {
        s.append(",\"numberOfSeasons\":");
        push_digits(&mut s, seasons as u64);
    }
    s.append(",\"url\":");
    push_json_string(&mut s, url);
    s.append("}");
    s
}

fn push_season_items(body: &mut String, seasons: &[SeasonSummary])
    ensures
        final(body)@ == old(body)@ + season_items(seasons@),
{
    let mut i: usize = 0;
    while i < seasons.len()
        invariant
            i <= seasons@.len(),
            body@ == old(body)@ + season_items(seasons@.take(i as int)),
        decreases seasons@.len() - i,
    {
        let s = &seasons[i];
        assert(seasons@.take(i + 1).drop_last() == seasons@.take(i as int));
        assert(seasons@.take(i + 1).last() == *s);
        body.append("<li>");
        let mut named = false;
        match &s.name {
            Some(n) => {
                if !blank(n.as_str()) {
                    push_escaped(body, n.as_str());
                    named = true;
                }
            },
            None => {},
        }
        if !named {
            body.append("Season ");
            push_int(body, s.season_number as i64);
        }
        body.append(" (");
        push_int(body, s.episode_count);
        body.append(" episodes)</li>");
        i = i + 1;
    }
    assert(seasons@.take(seasons@.len() as int) == seasons@);
}

fn show_body_exec(core: &ShowCore, seasons: &[SeasonSummary], canonical: &str) -> (r: String)
    ensures
        r@ == show_body(core.name@, opt_view(core.overview), seasons@, canonical@),
{
    let mut body = String::new();
    body.append("<h1>");
    push_escaped(&mut body, core.name.as_str());
    body.append("</h1>");
    match &core.overview {
        Some(o) => {
            if !blank(o.as_str()) {
                body.append("<p>");
                push_escaped(&mut body, o.as_str());
                body.append("</p>");
            }
        },
        None => {},
    }
    if seasons.len() > 0 {
        body.append("<h2>Seasons</h2><ul>");
        push_season_items(&mut body, seasons);
        body.append("</ul>");
    }
    body.append("<p><a href=\"");
    push_escaped(&mut body, canonical);
    body.append("/skip-guide\">View the skip guide for ");
    push_escaped(&mut body, core.name.as_str());
    body.append("</a></p>");
    body
}

/// Render a show detail page with per-show SEO head + snapshot. `image` is the
/// raw poster URL, used only in the TVSeries JSON-LD; the `og:image` social
/// card is the generated `/og/shows/{slug}.png` stat image.
pub fn show_page(
    template: &str,
    base: &str,
    core: &ShowCore,
    seasons: &[SeasonSummary],
    image: Option<String>,
) -> (r: String)
    ensures
        r@ == show_page_text(template@, base@, *core, seasons@, opt_view(image)),
{
    let base = trim_end_char(base, '/');
    let mut canonical = String::new();
    canonical.append(base.as_str());
    canonical.append("/shows/");
    canonical.append(core.slug.as_str());
    let card = og_card_url(base.as_str(), core.slug.as_str());
    let mut title = String::new();
    title.append(core.name.as_str());
    title.append(" Filler List — Which Episodes to Skip | ");
    title.append("FillerKiller");
    let meta = PageMeta {
        title,
        description: show_description_exec(core),
        canonical: canonical.clone(),
        image: Some(card),
        image_size: Some((WIDTH, HEIGHT)),
    };
    let mut head = head_tags(&meta);
    let series = series_ld(core, canonical.as_str(), &image, seasons.len());
    let crumbs = vec![("Home", base.as_str()), (core.name.as_str(), canonical.as_str())];
    assert(crumb_views(crumbs@) =~= seq![("Home"@, base@), (core.name@, canonical@)]);
    let crumbs_json = breadcrumb_ld(crumbs.as_slice());
    let series_block = json_ld(series.as_str());
    head.append(series_block.as_str());
    let crumbs_block = json_ld(crumbs_json.as_str());
    head.append(crumbs_block.as_str());
    let body = show_body_exec(core, seasons, canonical.as_str());
    render_page(template, head.as_str(), body.as_str())
}

/// The name shown for an episode: its own, else "Untitled".
pub open spec fn episode_name(name: Option<Seq<char>>) -> Seq<char> {
    match name {
        Some(n) => n,
        None => "Untitled"@,
    }
}

/// One episode line of a list: `S{season}E{episode} — {name}`.
pub open spec fn episode_item(season: i32, episode: i32, name: Option<Seq<char>>) -> Seq<char> {
    "<li>S"@ + int_text(season as int) + "E"@ + int_text(episode as int) + " — "@ + html_escaped(
        episode_name(name),
    ) + "</li>"@
}

pub open spec fn entry_items(entries: Seq<EntryView>) -> Seq<char>
    decreases entries.len(),
{
    if entries.len() == 0 {
        Seq::empty()
    } else {
        let e = entries.last();
        entry_items(entries.drop_last()) + episode_item(e.season_number, e.episode_number, e.name)
    }
}

/// A titled list section: `<h2>{title} ({n})</h2>` then the items, or "None.".
pub open spec fn section(title: Seq<char>, count: nat, items: Seq<char>) -> Seq<char> {
    "<h2>"@ + title + " ("@ + digits(count) + ")</h2>"@ + if count == 0 {
        "<p>None.</p>"@
    } else {
        "<ul>"@ + items + "</ul>"@
    }
}

/// A skip-guide bucket rendered as a section.
pub open spec fn bucket_html(title: Seq<char>, entries: Seq<EntryView>) -> Seq<char> {
    section(title, entries.len(), entry_items(entries))
}

fn push_episode_item(body: &mut String, season: i32, episode: i32, name: &Option<String>)
    ensures
        final(body)@ == old(body)@ + episode_item(season, episode, opt_view(*name)),
{
    body.append("<li>S");
    push_int(body, season as i64);
    body.append("E");
    push_int(body, episode as i64);
    body.append(" — ");
    match name {
        Some(n) => push_escaped(body, n.as_str()),
        None => push_escaped(body, "Untitled"),
    }
    body.append("</li>");
}

/// Appends a skip-guide bucket as a section of the snapshot.
pub fn render_bucket(body: &mut String, title: &str, entries: &[SkipGuideEntry])
    ensures
        final(body)@ == old(body)@ + bucket_html(title@, entry_views(entries@)),
{
    let ghost ev = entry_views(entries@);
    body.append("<h2>");
    body.append(title);
    body.append(" (");
    push_digits(body, entries.len() as u64);
    body.append(")</h2>");
    if entries.len() == 0 {
        body.append("<p>None.</p>");
        return;
    }
    body.append("<ul>");
    let ghost start = body@;
    let mut i: usize = 0;
    while i < entries.len()
        invariant
            ev == entry_views(entries@),
            i <= entries@.len(),
            body@ == start + entry_items(ev.take(i as int)),
        decreases entries@.len() - i,
    {
        let e = &entries[i];
        assert(ev.take(i + 1).drop_last() == ev.take(i as int));
        assert(ev.take(i + 1).last() == e@);
        push_episode_item(body, e.season_number, e.episode_number, &e.name);
        i = i + 1;
    }
    assert(ev.take(entries@.len() as int) == ev);
    body.append("</ul>");
}

/// A skip-guide page: per-show head pointing at the stat card, a breadcrumb
/// trail, and the watch / optional / skip lists as content.
pub open spec fn skip_guide_page_text(
    template: Seq<char>,
    base: Seq<char>,
    core: ShowCore,
    g: SkipGuide,
) -> Seq<char> {
    let body = "<h1>Skip guide: "@ + html_escaped(core.name@) + "</h1>"@ + bucket_html(
        "Watch"@,
        entry_views(g.watch@),
    ) + bucket_html("Optional — worth it"@, entry_views(g.optional@)) + bucket_html(
        "Skip"@,
        entry_views(g.skipped@),
    );
    rendered_page(template, skip_guide_head_text(strip_trailing(base, '/'), core, g), body)
}

/// The head of a skip-guide page, for the base URL without its trailing
/// slashes: title, counts in the description, card image and breadcrumbs.
pub open spec fn skip_guide_head_text(base: Seq<char>, core: ShowCore, g: SkipGuide) -> Seq<char> {
    let show_url = show_url_text(base, core.slug@);
    let canonical = show_url + "/skip-guide"@;
    let description = "Crowd-sourced binge order for "@ + core.name@ + ": "@ + digits(
        g.watch@.len(),
    ) + " to watch, "@ + digits(g.optional@.len()) + " optional, "@ + digits(g.skipped@.len())
        + " to skip."@;
    head_text(
        core.name@ + " Skip Guide — Watch Order & What to Skip | "@ + site_name(),
        description,
        canonical,
        Some(og_card_text(base, core.slug@)),
        Some((WIDTH, HEIGHT)),
    ) + json_ld_text(
        breadcrumb_text(
            seq![("Home"@, base), (core.name@, show_url), ("Skip guide"@, canonical)],
        ),
    )
}

/// Render a skip-guide page with the watch/optional/skip lists as real content.
pub fn skip_guide_page(template: &str, base: &str, core: &ShowCore, guide: &SkipGuide) -> (r: String)
    ensures
        r@ == skip_guide_page_text(template@, base@, *core, *guide),
{
    let base = trim_end_char(base, '/');
    let mut show_url = String::new();
    show_url.append(base.as_str());
    show_url.append("/shows/");
    show_url.append(core.slug.as_str());
    let mut canonical = show_url.clone();
    canonical.append("/skip-guide");
    let mut description = String::new();
    description.append("Crowd-sourced binge order for ");
    description.append(core.name.as_str());
    description.append(": ");
    push_digits(&mut description, guide.watch.len() as u64);
    description.append(" to watch, ");
    push_digits(&mut description, guide.optional.len() as u64);
    description.append(" optional, ");
    push_digits(&mut description, guide.skipped.len() as u64);
    description.append(" to skip.");
    let mut title = String::new();
    title.append(core.name.as_str());
    title.append(" Skip Guide — Watch Order & What to Skip | ");
    title.append("FillerKiller");
    let meta = PageMeta {
        title,
        description,
        canonical: canonical.clone(),
        image: Some(og_card_url(base.as_str(), core.slug.as_str())),
        image_size: Some((WIDTH, HEIGHT)),
    };
    let mut head = head_tags(&meta);
    let crumbs = vec![
        ("Home", base.as_str()),
        (core.name.as_str(), show_url.as_str()),
        ("Skip guide", canonical.as_str()),
    ];
    assert(crumb_views(crumbs@) =~= seq![
        ("Home"@, base@),
        (core.name@, show_url@),
        ("Skip guide"@, canonical@),
    ]);
    let crumbs_json = breadcrumb_ld(crumbs.as_slice());
    let block = json_ld(crumbs_json.as_str());
    head.append(block.as_str());
    let mut body = String::new();
    body.append("<h1>Skip guide: ");
    push_escaped(&mut body, core.name.as_str());
    body.append("</h1>");
    render_bucket(&mut body, "Watch", guide.watch.as_slice());
    render_bucket(&mut body, "Optional — worth it", guide.optional.as_slice());
    render_bucket(&mut body, "Skip", guide.skipped.as_slice());
    render_page(template, head.as_str(), body.as_str())
}

/// The entries of a user guide with disposition `d`, in order.
pub open spec fn entries_with(entries: Seq<GuideEntryView>, d: Disposition) -> Seq<GuideEntryView>
    decreases entries.len(),
{
    if entries.len() == 0 {
        Seq::empty()
    } else {
        let prev = entries_with(entries.drop_last(), d);
        if entries.last().disposition == d {
            prev.push(entries.last())
        } else {
            prev
        }
    }
}

pub open spec fn guide_items(entries: Seq<GuideEntryView>) -> Seq<char>
    decreases entries.len(),
{
    if entries.len() == 0 {
        Seq::empty()
    } else {
        let e = entries.last();
        guide_items(entries.drop_last()) + episode_item(
            e.season_number,
            e.episode_number,
            opt_view(e.name),
        )
    }
}

/// The section of a user guide listing its entries with disposition `d`.
pub open spec fn disposition_section(
    label: Seq<char>,
    entries: Seq<GuideEntryView>,
    d: Disposition,
) -> Seq<char> {
    section(label, entries_with(entries, d).len(), guide_items(entries_with(entries, d)))
}

/// The meta description of a user guide: its own description cut to 160
/// characters, else a count of what it keeps and skips.
pub open spec fn guide_description(g: GuideDetail) -> Seq<char> {
    let e = g.entries@;
    let stock = "A "@ + g.show_name@ + " skip guide: "@ + digits(
        entries_with(e, Disposition::Watch).len(),
    ) + " to watch, "@ + digits(entries_with(e, Disposition::Optional).len()) + " optional, "@
        + digits(entries_with(e, Disposition::Skip).len()) + " to skip."@;
    match g.description {
        Some(d) => if !is_blank(d@) {
            truncated(d@, 160)
        } else {
            stock
        },
        None => stock,
    }
}

/// The head of a user guide's share page: its title, description, canonical
/// link and card image (its poster, else the site card), then a breadcrumb trail.
pub open spec fn guide_head_text(base: Seq<char>, g: GuideDetail, image: Option<Seq<char>>) -> Seq<
    char,
> {
    let show_url = show_url_text(base, g.show_slug@);
    let canonical = show_url + "/guides/"@ + g.id@;
    head_text(
        g.title@ + " — "@ + g.show_name@ + " skip guide — "@ + site_name(),
        guide_description(g),
        canonical,
        Some(
            match image {
                Some(i) => i,
                None => base + "/og-image.png"@,
            },
        ),
        None,
    ) + json_ld_text(
        breadcrumb_text(seq![("Home"@, base), (g.show_name@, show_url), (g.title@, canonical)]),
    )
}

/// The content of a user guide's share page: title, byline, description and
/// its three lists.
pub open spec fn guide_body_text(g: GuideDetail) -> Seq<char> {
    guide_intro(g) + disposition_section("Watch"@, g.entries@, Disposition::Watch)
        + disposition_section("Optional — worth it"@, g.entries@, Disposition::Optional)
        + disposition_section("Skip"@, g.entries@, Disposition::Skip)
}

/// The top of a user guide's share page: title, byline and description.
pub open spec fn guide_intro(g: GuideDetail) -> Seq<char> {
    let author = match g.author_name {
        Some(a) => a@,
        None => "a former member"@,
    };
    "<h1>"@ + html_escaped(g.title@) + "</h1>"@ + "<p>A "@ + html_escaped(g.show_name@)
        + " skip guide by "@ + html_escaped(author) + "</p>"@ + match g.description {
        Some(d) => if !is_blank(d@) {
            "<p>"@ + html_escaped(d@) + "</p>"@
        } else {
            Seq::empty()
        },
        None => Seq::empty(),
    }
}

/// The share page of a user-authored guide: per-guide head, a breadcrumb
/// trail, and its three lists as content.
pub open spec fn guide_page_text(
    template: Seq<char>,
    base: Seq<char>,
    g: GuideDetail,
    image: Option<Seq<char>>,
) -> Seq<char> {
    rendered_page(
        template,
        guide_head_text(strip_trailing(base, '/'), g, image),
        guide_body_text(g),
    )
}

/// The entries of `entries` with disposition `d`, as a vector.
fn select_entries(entries: &[GuideEntryView], d: Disposition) -> (r: Vec<&GuideEntryView>)
    ensures
        r@.map_values(|e: &GuideEntryView| *e) == entries_with(entries@, d),
{
    let mut out: Vec<&GuideEntryView> = Vec::new();
    let mut i: usize = 0;
    while i < entries.len()
        invariant
            i <= entries@.len(),
            out@.map_values(|e: &GuideEntryView| *e) == entries_with(entries@.take(i as int), d),
        decreases entries@.len() - i,
    {
        assert(entries@.take(i + 1).drop_last() == entries@.take(i as int));
        assert(entries@.take(i + 1).last() == entries@[i as int]);
        let ghost before = out@;
        if entries[i].disposition == d {
            out.push(&entries[i]);
            assert(out@.map_values(|e: &GuideEntryView| *e) =~= before.map_values(
                |e: &GuideEntryView| *e,
            ).push(entries@[i as int]));
        }
        i = i + 1;
    }
    assert(entries@.take(entries@.len() as int) == entries@);
    out
}

fn push_disposition_section(body: &mut String, label: &str, entries: &[GuideEntryView], d: Disposition)
    ensures
        final(body)@ == old(body)@ + disposition_section(label@, entries@, d),
{
    let items = select_entries(entries, d);
    let ghost sel = entries_with(entries@, d);
    assert(items@.len() == sel.len());
    body.append("<h2>");
    body.append(label);
    body.append(" (");
    push_digits(body, items.len() as u64);
    body.append(")</h2>");
    if items.len() == 0 {
        body.append("<p>None.</p>");
        return;
    }
    body.append("<ul>");
    let ghost start = body@;
    let mut i: usize = 0;
    while i < items.len()
        invariant
            sel == entries_with(entries@, d),
            items@.map_values(|e: &GuideEntryView| *e) == sel,
            i <= items@.len(),
            body@ == start + guide_items(sel.take(i as int)),
        decreases items@.len() - i,
    {
        let e = items[i];
        assert(sel.take(i + 1).drop_last() == sel.take(i as int));
        assert(sel[i as int] == *e);
        assert(sel.take(i + 1).last() == *e);
        push_episode_item(body, e.season_number, e.episode_number, &e.name);
        i = i + 1;
    }
    assert(sel.take(items@.len() as int) == sel);
    body.append("</ul>");
}

fn count_with(entries: &[GuideEntryView], d: Disposition) -> (r: usize)
    ensures
        r == entries_with(entries@, d).len(),
{
    let v = select_entries(entries, d);
    v.len()
}

fn guide_description_exec(g: &GuideDetail) -> (r: String)
    ensures
        r@ == guide_description(*g),
{
    match &g.description {
        Some(d) => {
            if !blank(d.as_str()) {
                return truncate(d.as_str(), 160);
            }
        },
        None => {},
    }
    let e = g.entries.as_slice();
    let mut s = String::new();
    s.append("A ");
    s.append(g.show_name.as_str());
    s.append(" skip guide: ");
    push_digits(&mut s, count_with(e, Disposition::Watch) as u64);
    s.append(" to watch, ");
    push_digits(&mut s, count_with(e, Disposition::Optional) as u64);
    s.append(" optional, ");
    push_digits(&mut s, count_with(e, Disposition::Skip) as u64);
    s.append(" to skip.");
    s
}

fn guide_head(base: &str, guide: &GuideDetail, image: Option<String>) -> (r: String)
    ensures
        r@ == guide_head_text(base@, *guide, opt_view(image)),
{
    let mut show_url = String::new();
    show_url.append(base);
    show_url.append("/shows/");
    show_url.append(guide.show_slug.as_str());
    let mut canonical = show_url.clone();
    canonical.append("/guides/");
    canonical.append(guide.id.as_str());
    let mut title = String::new();
    title.append(guide.title.as_str());
    title.append(" — ");
    title.append(guide.show_name.as_str());
    title.append(" skip guide — ");
    title.append("FillerKiller");
    let card = match image {
        Some(i) => i,
        None => {
            let mut c = String::new();
            c.append(base);
            c.append("/og-image.png");
            c
        },
    };
    let meta = PageMeta {
        title,
        description: guide_description_exec(guide),
        canonical: canonical.clone(),
        image: Some(card),
        image_size: None,
    };
    let mut head = head_tags(&meta);
    let crumbs = vec![
        ("Home", base),
        (guide.show_name.as_str(), show_url.as_str()),
        (guide.title.as_str(), canonical.as_str()),
    ];
    assert(crumb_views(crumbs@) =~= seq![
        ("Home"@, base@),
        (guide.show_name@, show_url@),
        (guide.title@, canonical@),
    ]);
    let crumbs_json = breadcrumb_ld(crumbs.as_slice());
    let block = json_ld(crumbs_json.as_str());
    head.append(block.as_str());
    head
}

fn guide_body(guide: &GuideDetail) -> (r: String)
    ensures
        r@ == guide_body_text(*guide),
{
    let mut body = String::new();
    body.append("<h1>");
    push_escaped(&mut body, guide.title.as_str());
    body.append("</h1>");
    body.append("<p>A ");
    push_escaped(&mut body, guide.show_name.as_str());
    body.append(" skip guide by ");
    match &guide.author_name {
        Some(a) => push_escaped(&mut body, a.as_str()),
        None => push_escaped(&mut body, "a former member"),
    }
    body.append("</p>");
    match &guide.description {
        Some(d) => {
            if !blank(d.as_str()) {
                body.append("<p>");
                push_escaped(&mut body, d.as_str());
                body.append("</p>");
            }
        },
        None => {},
    }
    let e = guide.entries.as_slice();
    push_disposition_section(&mut body, "Watch", e, Disposition::Watch);
    push_disposition_section(&mut body, "Optional — worth it", e, Disposition::Optional);
    push_disposition_section(&mut body, "Skip", e, Disposition::Skip);
    body
}

/// Render a user-authored guide's share page. Callers pass only published guides.
pub fn guide_page(template: &str, base: &str, guide: &GuideDetail, image: Option<String>) -> (r:
    String)
    ensures
        r@ == guide_page_text(template@, base@, *guide, opt_view(image)),
{
    let base = trim_end_char(base, '/');
    let head = guide_head(base.as_str(), guide, image);
    let body = guide_body(guide);
    render_page(template, head.as_str(), body.as_str())
}

/// The UTC calendar date, `YYYY-MM-DD`, of the instant `secs` seconds after the
/// Unix epoch, as chrono formats it with `%Y-%m-%d`.
pub uninterp spec fn utc_ymd(secs: int) -> Seq<char>;

/// The first second chrono can date: January 1, 262144 BCE, 00:00:00 UTC.
pub const MIN_DATED_SECS: i64 = -8334601315200;

/// The last second chrono can date: December 31, 262142 CE, 23:59:59 UTC.
pub const MAX_DATED_SECS: i64 = 8210266876799;

/// The UTC date of a Unix timestamp, through chrono
/// (`DateTime::<Utc>::from_timestamp(secs, 0)`, then `format("%Y-%m-%d")`).
/// Claimed: a date exists exactly for the timestamps from `MIN_DATED_SECS` to
/// `MAX_DATED_SECS` (chrono's years -262143 to 262142), and its text is
/// `utc_ymd(secs)`.
#[verifier::external_body]
fn utc_date(secs: i64) -> (r: Option<String>)
    ensures
        r is Some <==> MIN_DATED_SECS <= secs <= MAX_DATED_SECS,
        r matches Some(d) ==> d@ == utc_ymd(secs as int),
{
    match chrono::DateTime::from_timestamp(secs, 0) {
        Some(t) => Some(t.format("%Y-%m-%d").to_string()),
        None => None,
    }
}

/// A timestamp chrono can date: every `DateTime<Utc>`'s timestamp is one.
pub open spec fn datable(secs: i64) -> bool {
    MIN_DATED_SECS <= secs <= MAX_DATED_SECS
}

/// One sitemap `<url>` entry.
pub open spec fn sitemap_url(loc: Seq<char>, priority: Seq<char>, lastmod: Option<Seq<char>>) -> Seq<
    char,
> {
    "  <url><loc>"@ + html_escaped(loc) + "</loc>"@ + match lastmod {
        Some(lm) => "<lastmod>"@ + lm + "</lastmod>"@,
        None => Seq::empty(),
    } + "<priority>"@ + priority + "</priority></url>\n"@
}

/// The entries of the catalog's shows: each show page and its skip guide.
pub open spec fn show_urls(base: Seq<char>, shows: Seq<SitemapShow>) -> Seq<char>
    decreases shows.len(),
{
    if shows.len() == 0 {
        Seq::empty()
    } else {
        let s = shows.last();
        let lm = Some(utc_ymd(s.last_synced_at as int));
        show_urls(base, shows.drop_last()) + sitemap_url(base + "/shows/"@ + s.slug@, "0.7"@, lm)
            + sitemap_url(base + "/shows/"@ + s.slug@ + "/skip-guide"@, "0.6"@, lm)
    }
}

/// The entries of the published user guides.
pub open spec fn guide_urls(base: Seq<char>, guides: Seq<SitemapGuide>) -> Seq<char>
    decreases guides.len(),
{
    if guides.len() == 0 {
        Seq::empty()
    } else {
        let g = guides.last();
        guide_urls(base, guides.drop_last()) + sitemap_url(
            base + "/shows/"@ + g.show_slug@ + "/guides/"@ + g.id@,
            "0.5"@,
            Some(utc_ymd(g.updated_at as int)),
        )
    }
}

/// The sitemap: the home page, the four static pages, every show (and its skip
/// guide) and every published user guide.
pub open spec fn sitemap_text(base: Seq<char>, shows: Seq<SitemapShow>, guides: Seq<SitemapGuide>) -> Seq<
    char,
> {
    let base = strip_trailing(base, '/');
    "<?xml version=\"1.0\" encoding=\"UTF-8\"?>\n<urlset xmlns=\"http://www.sitemaps.org/schemas/sitemap/0.9\">\n"@
        + sitemap_url(base + "/"@, "1.0"@, None) + sitemap_url(base + "/about"@, "0.3"@, None)
        + sitemap_url(base + "/support"@, "0.3"@, None) + sitemap_url(
        base + "/privacy"@,
        "0.3"@,
        None,
    ) + sitemap_url(base + "/terms"@, "0.3"@, None) + show_urls(base, shows) + guide_urls(
        base,
        guides,
    ) + "</urlset>\n"@
}

fn push_sitemap_url(out: &mut String, loc: &str, priority: &str, lastmod: Option<&str>)
    ensures
        final(out)@ == old(out)@ + sitemap_url(
            loc@,
            priority@,
            match lastmod {
                Some(l) => Some(l@),
                None => None,
            },
        ),
{
    out.append("  <url><loc>");
    push_escaped(out, loc);
    out.append("</loc>");
    match lastmod {
        Some(lm) => {
            out.append("<lastmod>");
            out.append(lm);
            out.append("</lastmod>");
        },
        None => {},
    }
    out.append("<priority>");
    out.append(priority);
    out.append("</priority></url>\n");
}

fn push_static_url(out: &mut String, base: &str, path: &str)
    ensures
        final(out)@ == old(out)@ + sitemap_url(base@ + path@, "0.3"@, None),
{
    let mut loc = String::new();
    loc.append(base);
    loc.append(path);
    push_sitemap_url(out, loc.as_str(), "0.3", None);
}

/// Build the sitemap XML from the stable routes plus every show's and every
/// published guide's pages.
pub fn sitemap_xml(base: &str, shows: &[SitemapShow], guides: &[SitemapGuide]) -> (r: String)
    requires
        forall|i: int| 0 <= i < shows@.len() ==> datable(#[trigger] shows@[i].last_synced_at),
        forall|i: int| 0 <= i < guides@.len() ==> datable(#[trigger] guides@[i].updated_at),
    ensures
        r@ == sitemap_text(base@, shows@, guides@),
{
    let base = trim_end_char(base, '/');
    let mut s = String::new();
    s.append(
        "<?xml version=\"1.0\" encoding=\"UTF-8\"?>\n<urlset xmlns=\"http://www.sitemaps.org/schemas/sitemap/0.9\">\n",
    );
    assert(s@ =~= "<?xml version=\"1.0\" encoding=\"UTF-8\"?>\n<urlset xmlns=\"http://www.sitemaps.org/schemas/sitemap/0.9\">\n"@);
    let mut home = String::new();
    home.append(base.as_str());
    home.append("/");
    push_sitemap_url(&mut s, home.as_str(), "1.0", None);
    push_static_url(&mut s, base.as_str(), "/about");
    push_static_url(&mut s, base.as_str(), "/support");
    push_static_url(&mut s, base.as_str(), "/privacy");
    push_static_url(&mut s, base.as_str(), "/terms");
    let ghost head = s@;
    let mut i: usize = 0;
    while i < shows.len()
        invariant
            i <= shows@.len(),
            forall|k: int| 0 <= k < shows@.len() ==> datable(#[trigger] shows@[k].last_synced_at),
            s@ == head + show_urls(base@, shows@.take(i as int)),
        decreases shows@.len() - i,
    {
        assert(shows@.take(i + 1).drop_last() == shows@.take(i as int));
        let show = &shows[i];
        assert(datable(shows@[i as int].last_synced_at));
        let lastmod = match utc_date(show.last_synced_at) {
            Some(d) => d,
            None => String::new(),
        };
        let mut page = String::new();
        page.append(base.as_str());
        page.append("/shows/");
        page.append(show.slug.as_str());
        push_sitemap_url(&mut s, page.as_str(), "0.7", Some(lastmod.as_str()));
        page.append("/skip-guide");
        push_sitemap_url(&mut s, page.as_str(), "0.6", Some(lastmod.as_str()));
        i = i + 1;
    }
    assert(shows@.take(shows@.len() as int) == shows@);
    let ghost mid = s@;
    let mut j: usize = 0;
    while j < guides.len()
        invariant
            j <= guides@.len(),
            forall|k: int| 0 <= k < guides@.len() ==> datable(#[trigger] guides@[k].updated_at),
            s@ == mid + guide_urls(base@, guides@.take(j as int)),
        decreases guides@.len() - j,
    {
        assert(guides@.take(j + 1).drop_last() == guides@.take(j as int));
        let g = &guides[j];
        assert(datable(guides@[j as int].updated_at));
        let lastmod = match utc_date(g.updated_at) {
            Some(d) => d,
            None => String::new(),
        };
        let mut page = String::new();
        page.append(base.as_str());
        page.append("/shows/");
        page.append(g.show_slug.as_str());
        page.append("/guides/");
        page.append(g.id.as_str());
        push_sitemap_url(&mut s, page.as_str(), "0.5", Some(lastmod.as_str()));
        j = j + 1;
    }
    assert(guides@.take(guides@.len() as int) == guides@);
    s.append("</urlset>\n");
    assert(mid == head + show_urls(base@, shows@));
    assert(s@ == head + show_urls(base@, shows@) + guide_urls(base@, guides@) + "</urlset>\n"@);
    s
}

/// A titled list as the pages show it: the heading with the number of lines,
/// then the lines in a `<ul>`, or "None." when there are none.
pub open spec fn titled_list(title: Seq<char>, lines: Seq<Seq<char>>) -> Seq<char> {
    "<h2>"@ + title + " ("@ + digits(lines.len()) + ")</h2>"@ + if lines.len() == 0 {
        "<p>None.</p>"@
    } else {
        "<ul>"@ + lines.flatten() + "</ul>"@
    }
}

/// One list line per skip-guide entry, in order.
pub open spec fn entry_lines(entries: Seq<EntryView>) -> Seq<Seq<char>> {
    entries.map_values(|e: EntryView| episode_item(e.season_number, e.episode_number, e.name))
}

/// One list line per user-guide entry, in order.
pub open spec fn guide_lines(entries: Seq<GuideEntryView>) -> Seq<Seq<char>> {
    entries.map_values(
        |e: GuideEntryView| episode_item(e.season_number, e.episode_number, opt_view(e.name)),
    )
}

/// The entries of a user guide with disposition `d`, in order.
pub open spec fn with_disposition(entries: Seq<GuideEntryView>, d: Disposition) -> Seq<GuideEntryView> {
    entries.filter(|e: GuideEntryView| e.disposition == d)
}

/// One line per season: its label and its own episode count.
pub open spec fn season_lines(seasons: Seq<SeasonSummary>) -> Seq<Seq<char>> {
    seasons.map_values(
        |s: SeasonSummary| "<li>"@ + season_label(s) + " ("@ + int_text(s.episode_count as int)
            + " episodes)</li>"@,
    )
}

proof fn lemma_entry_items_lines(entries: Seq<EntryView>)
    ensures
        entry_items(entries) == entry_lines(entries).flatten(),
    decreases entries.len(),
{
    if entries.len() > 0 {
        let e = entries.last();
        lemma_entry_items_lines(entries.drop_last());
        assert(entry_lines(entries) =~= entry_lines(entries.drop_last()).push(
            episode_item(e.season_number, e.episode_number, e.name),
        ));
        entry_lines(entries.drop_last()).lemma_flatten_push(
            episode_item(e.season_number, e.episode_number, e.name),
        );
    } else {
        assert(entry_lines(entries) =~= Seq::<Seq<char>>::empty());
    }
}

proof fn lemma_guide_items_lines(entries: Seq<GuideEntryView>)
    ensures
        guide_items(entries) == guide_lines(entries).flatten(),
    decreases entries.len(),
{
    if entries.len() > 0 {
        let e = entries.last();
        let item = episode_item(e.season_number, e.episode_number, opt_view(e.name));
        lemma_guide_items_lines(entries.drop_last());
        assert(guide_lines(entries) =~= guide_lines(entries.drop_last()).push(item));
        guide_lines(entries.drop_last()).lemma_flatten_push(item);
    } else {
        assert(guide_lines(entries) =~= Seq::<Seq<char>>::empty());
    }
}

proof fn lemma_entries_with_filter(entries: Seq<GuideEntryView>, d: Disposition)
    ensures
        entries_with(entries, d) == with_disposition(entries, d),
    decreases entries.len(),
{
    reveal_with_fuel(Seq::filter, 1);
    if entries.len() > 0 {
        lemma_entries_with_filter(entries.drop_last(), d);
    }
}

proof fn lemma_season_items_lines(seasons: Seq<SeasonSummary>)
    ensures
        season_items(seasons) == season_lines(seasons).flatten(),
    decreases seasons.len(),
{
    if seasons.len() > 0 {
        let s = seasons.last();
        let line = "<li>"@ + season_label(s) + " ("@ + int_text(s.episode_count as int)
            + " episodes)</li>"@;
        lemma_season_items_lines(seasons.drop_last());
        assert(season_lines(seasons) =~= season_lines(seasons.drop_last()).push(line));
        season_lines(seasons.drop_last()).lemma_flatten_push(line);
        assert(season_items(seasons) =~= season_items(seasons.drop_last()) + line);
    } else {
        assert(season_lines(seasons) =~= Seq::<Seq<char>>::empty());
    }
}

/// The skip-guide page shows the guide's three buckets under their own
/// headings: the section titled Watch lists exactly the watch entries, the one
/// titled "Optional — worth it" the optional entries and the one titled Skip the
/// skipped entries, one line per entry in the guide's order, each heading
/// counting its own bucket.
pub proof fn lemma_skip_guide_page_sections(
    template: Seq<char>,
    base: Seq<char>,
    core: ShowCore,
    g: SkipGuide,
)
    ensures
        skip_guide_page_text(template, base, core, g) == rendered_page(
            template,
            skip_guide_head_text(strip_trailing(base, '/'), core, g),
            "<h1>Skip guide: "@ + html_escaped(core.name@) + "</h1>"@ + titled_list(
                "Watch"@,
                entry_lines(entry_views(g.watch@)),
            ) + titled_list("Optional — worth it"@, entry_lines(entry_views(g.optional@)))
                + titled_list("Skip"@, entry_lines(entry_views(g.skipped@))),
        ),
{
    lemma_entry_items_lines(entry_views(g.watch@));
    lemma_entry_items_lines(entry_views(g.optional@));
    lemma_entry_items_lines(entry_views(g.skipped@));
}

/// A user guide's share page lists every entry under the heading that names
/// its disposition: the Watch section lists exactly the entries marked Watch,
/// the "Optional — worth it" section exactly those marked Optional, and the
/// Skip section exactly those marked Skip, each in the guide's order.
pub proof fn lemma_guide_page_sections(
    template: Seq<char>,
    base: Seq<char>,
    g: GuideDetail,
    image: Option<Seq<char>>,
)
    ensures
        guide_page_text(template, base, g, image) == rendered_page(
            template,
            guide_head_text(strip_trailing(base, '/'), g, image),
            guide_intro(g) + titled_list(
                "Watch"@,
                guide_lines(with_disposition(g.entries@, Disposition::Watch)),
            ) + titled_list(
                "Optional — worth it"@,
                guide_lines(with_disposition(g.entries@, Disposition::Optional)),
            ) + titled_list("Skip"@, guide_lines(with_disposition(g.entries@, Disposition::Skip))),
        ),
{
    let e = g.entries@;
    lemma_entries_with_filter(e, Disposition::Watch);
    lemma_entries_with_filter(e, Disposition::Optional);
    lemma_entries_with_filter(e, Disposition::Skip);
    lemma_guide_items_lines(entries_with(e, Disposition::Watch));
    lemma_guide_items_lines(entries_with(e, Disposition::Optional));
    lemma_guide_items_lines(entries_with(e, Disposition::Skip));
    assert(guide_lines(entries_with(e, Disposition::Watch)).len() == entries_with(
        e,
        Disposition::Watch,
    ).len());
}

/// Every entry of a user guide is listed in exactly one section: the three
/// sections together hold as many lines as the guide has entries, and each
/// entry is in the section of its own disposition.
pub proof fn lemma_guide_sections_partition(entries: Seq<GuideEntryView>)
    ensures
        with_disposition(entries, Disposition::Watch).len() + with_disposition(
            entries,
            Disposition::Optional,
        ).len() + with_disposition(entries, Disposition::Skip).len() == entries.len(),
        forall|k: int|
            0 <= k < entries.len() ==> with_disposition(entries, (#[trigger] entries[k]).disposition).contains(
                entries[k],
            ),
    decreases entries.len(),
{
    reveal_with_fuel(Seq::filter, 1);
    if entries.len() > 0 {
        let prev = entries.drop_last();
        lemma_guide_sections_partition(prev);
        assert forall|k: int| 0 <= k < entries.len() implies with_disposition(
            entries,
            (#[trigger] entries[k]).disposition,
        ).contains(entries[k]) by {
            let d = entries[k].disposition;
            if k < prev.len() {
                assert(prev[k] == entries[k]);
                let w = with_disposition(prev, d);
                let j = choose|j: int| 0 <= j < w.len() && w[j] == prev[k];
                if entries.last().disposition == d {
                    assert(with_disposition(entries, d) == w.push(entries.last()));
                    assert(with_disposition(entries, d)[j] == w[j]);
                } else {
                    assert(with_disposition(entries, d) == w);
                }
            } else {
                let w = with_disposition(prev, d);
                assert(with_disposition(entries, d) == w.push(entries.last()));
                assert(with_disposition(entries, d)[w.len() as int] == entries[k]);
            }
        }
    }
}

/// The top of a show page's snapshot: its name, then its overview when it has
/// one that is not blank.
pub open spec fn show_intro(name: Seq<char>, overview: Option<Seq<char>>) -> Seq<char> {
    "<h1>"@ + html_escaped(name) + "</h1>"@ + match overview {
        Some(o) => if !is_blank(o) {
            "<p>"@ + html_escaped(o) + "</p>"@
        } else {
            Seq::empty()
        },
        None => Seq::empty(),
    }
}

/// The foot of a show page's snapshot: the link to its skip guide.
pub open spec fn show_link(name: Seq<char>, canonical: Seq<char>) -> Seq<char> {
    "<p><a href=\""@ + html_escaped(canonical) + "/skip-guide\">View the skip guide for "@
        + html_escaped(name) + "</a></p>"@
}

/// Each season line of a show page gives that season's own episode count: the
/// page is rendered from a body whose season list is one line per season, in
/// order, `label (N episodes)` with N the season's `episode_count`; with no
/// seasons the list is left out and the body is otherwise the same.
pub proof fn lemma_show_page_season_lines(
    template: Seq<char>,
    base: Seq<char>,
    core: ShowCore,
    seasons: Seq<SeasonSummary>,
    image: Option<Seq<char>>,
)
    ensures
        ({
            let b = strip_trailing(base, '/');
            let canonical = show_url_text(b, core.slug@);
            let name = core.name@;
            let overview = opt_view(core.overview);
            &&& show_page_text(template, base, core, seasons, image) == rendered_page(
                template,
                show_head_text(b, core, seasons, image),
                show_body(name, overview, seasons, canonical),
            )
            &&& show_body(name, overview, Seq::empty(), canonical) == show_intro(name, overview)
                + show_link(name, canonical)
            &&& show_body(name, overview, seasons, canonical) == show_intro(name, overview) + (if seasons.len()
                > 0 {
                "<h2>Seasons</h2><ul>"@ + season_lines(seasons).flatten() + "</ul>"@
            } else {
                Seq::empty()
            }) + show_link(name, canonical)
        }),
{
    let b = strip_trailing(base, '/');
    let canonical = show_url_text(b, core.slug@);
    let name = core.name@;
    let overview = opt_view(core.overview);
    lemma_season_items_lines(seasons);
    let pre = show_intro(name, overview);
    let post = show_link(name, canonical);
    assert(show_body(name, overview, Seq::empty(), canonical) =~= pre + post);
    assert(show_body(name, overview, seasons, canonical) =~= pre + (if seasons.len() > 0 {
        "<h2>Seasons</h2><ul>"@ + season_lines(seasons).flatten() + "</ul>"@
    } else {
        Seq::empty()
    }) + post);
}

} // verus!
