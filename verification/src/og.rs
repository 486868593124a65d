//! Open Graph share cards: per-show episode-status tallies and the text pieces
//! of the 1200×630 stat card.
use vstd::prelude::*;
use crate::scoring::EpisodeStatus;
use crate::text::{is_ws, is_whitespace, trim_end, string_of, chars_of};
use base64::Engine;

verus! {

/// Card width in pixels — the standard large Open Graph size.
pub const WIDTH: u32 = 1200;
/// Card height in pixels.
pub const HEIGHT: u32 = 630;

/// Per-show episode-status counts feeding the stat card.
#[derive(Debug, Clone, Copy, Default, PartialEq, Eq, Structural)]
pub struct OgStats {
    pub canon: u32,
    pub worth_watching: u32,
    pub filler: u32,
    /// Contested + not-enough-votes: episodes without a confident label yet.
    pub undecided: u32,
}

/// The number of episodes a tally counts.
pub open spec fn stats_total(s: OgStats) -> int {
    s.canon + s.worth_watching + s.filler + s.undecided
}

/// `100 * part / whole` rounded to the nearest whole number, halves up; 0 for
/// an empty whole.
pub open spec fn rounded_percent(part: int, whole: int) -> int {
    if whole == 0 {
        0
    } else {
        (200 * part + whole) / (2 * whole)
    }
}

impl OgStats {
    /// All four counts added up.
    pub fn total(&self) -> (r: u32)
        requires
            stats_total(*self) <= u32::MAX,
        ensures
            r == stats_total(*self),
    {
        self.canon + self.worth_watching + self.filler + self.undecided
    }

    /// Whole-number filler percentage; 0 when there are no episodes.
    pub fn filler_pct(&self) -> (r: u32)
        requires
            stats_total(*self) <= u32::MAX,
        ensures
            r == rounded_percent(self.filler as int, stats_total(*self)),
            r <= 100,
    {
        let total = self.total();
        if total == 0 {
            0
        } else {
            let f: u64 = self.filler as u64;
            let t: u64 = total as u64;
            assert(f <= t);
            let q: u64 = (200 * f + t) / (2 * t);
            assert(q <= 100) by (nonlinear_arith)
                requires
                    f <= t,
                    t > 0,
                    q == (200 * f + t) / (2 * t),
            {
                assert(200 * f + t < 101 * (2 * t));
            }
            q as u32
        }
    }
}

/// The tally of a list of (season, status) pairs: specials (season 0) are
/// left out, contested and not-enough-votes episodes count as undecided.
pub open spec fn tally(episodes: Seq<(i32, EpisodeStatus)>) -> OgStats
    decreases episodes.len(),
{
    if episodes.len() == 0 {
        OgStats { canon: 0, worth_watching: 0, filler: 0, undecided: 0 }
    } else {
        let s = tally(episodes.drop_last());
        let (season, status) = episodes.last();
        if season == 0 {
            s
        } else {
            match status {
                EpisodeStatus::Canon => OgStats { canon: (s.canon + 1) as u32, ..s },
                EpisodeStatus::WorthWatching => OgStats {
                    worth_watching: (s.worth_watching + 1) as u32,
                    ..s
                },
                EpisodeStatus::Filler => OgStats { filler: (s.filler + 1) as u32, ..s },
                _ => OgStats { undecided: (s.undecided + 1) as u32, ..s },
            }
        }
    }
}

proof fn lemma_tally_bound(episodes: Seq<(i32, EpisodeStatus)>)
    ensures
        stats_total(tally(episodes)) <= episodes.len(),
    decreases episodes.len(),
{
    if episodes.len() > 0 {
        lemma_tally_bound(episodes.drop_last());
    }
}

/// What one episode adds to the card's counts: nothing for a special (season
/// 0), else one to the count of its status, contested and not-enough-votes
/// episodes counting as undecided.
pub open spec fn episode_counts(season: i32, status: EpisodeStatus) -> (int, int, int, int) {
    if season == 0 {
        (0, 0, 0, 0)
    } else {
        match status {
            EpisodeStatus::Canon => (1, 0, 0, 0),
            EpisodeStatus::WorthWatching => (0, 1, 0, 0),
            EpisodeStatus::Filler => (0, 0, 1, 0),
            EpisodeStatus::Contested => (0, 0, 0, 1),
            EpisodeStatus::NotEnoughVotes => (0, 0, 0, 1),
        }
    }
}

/// The four counts of a tally, in card order.
pub open spec fn counts(s: OgStats) -> (int, int, int, int) {
    (s.canon as int, s.worth_watching as int, s.filler as int, s.undecided as int)
}

/// The tally counts every episode of a list independently of the others: the
/// tally of two lists joined is the sum of their tallies, count by count.
pub proof fn lemma_tally_adds(a: Seq<(i32, EpisodeStatus)>, b: Seq<(i32, EpisodeStatus)>)
    requires
        a.len() + b.len() <= u32::MAX,
    ensures
        counts(tally(a + b)).0 == counts(tally(a)).0 + counts(tally(b)).0,
        counts(tally(a + b)).1 == counts(tally(a)).1 + counts(tally(b)).1,
        counts(tally(a + b)).2 == counts(tally(a)).2 + counts(tally(b)).2,
        counts(tally(a + b)).3 == counts(tally(a)).3 + counts(tally(b)).3,
    decreases b.len(),
{
    if b.len() == 0 {
        assert(a + b =~= a);
    } else {
        lemma_tally_adds(a, b.drop_last());
        assert((a + b).drop_last() =~= a + b.drop_last());
        assert((a + b).last() == b.last());
        lemma_tally_bound(a + b.drop_last());
        lemma_tally_bound(b.drop_last());
    }
}

/// One episode's tally is what it adds to the counts.
pub proof fn lemma_tally_one(season: i32, status: EpisodeStatus)
    ensures
        counts(tally(seq![(season, status)])) == episode_counts(season, status),
{
    let one = seq![(season, status)];
    assert(one.drop_last() =~= Seq::<(i32, EpisodeStatus)>::empty());
    assert(tally(one.drop_last()) == OgStats { canon: 0, worth_watching: 0, filler: 0, undecided: 0 });
    assert(one.last() == (season, status));
}

/// Tally episode statuses for the card, leaving specials out.
pub fn stats_from_episodes(episodes: &[(i32, EpisodeStatus)]) -> (r: OgStats)
    requires
        episodes@.len() <= u32::MAX,
    ensures
        r == tally(episodes@),
        stats_total(r) <= episodes@.len(),
{
    let mut stats = OgStats { canon: 0, worth_watching: 0, filler: 0, undecided: 0 };
    let mut i: usize = 0;
    while i < episodes.len()
        invariant
            i <= episodes@.len() <= u32::MAX,
            stats == tally(episodes@.take(i as int)),
        decreases episodes@.len() - i,
    {
        proof {
            assert(episodes@.take(i + 1).drop_last() == episodes@.take(i as int));
            lemma_tally_bound(episodes@.take(i as int));
        }
        let (season, status) = episodes[i];
        if season != 0 {
            match status {
                EpisodeStatus::Canon => stats.canon = stats.canon + 1,
                EpisodeStatus::WorthWatching => stats.worth_watching = stats.worth_watching + 1,
                EpisodeStatus::Filler => stats.filler = stats.filler + 1,
                EpisodeStatus::Contested => stats.undecided = stats.undecided + 1,
                EpisodeStatus::NotEnoughVotes => stats.undecided = stats.undecided + 1,
            }
        }
        i = i + 1;
    }
    proof {
        assert(episodes@.take(episodes@.len() as int) == episodes@);
        lemma_tally_bound(episodes@);
    }
    stats
}

/// `word`, with an `s` unless `n` is one.
pub fn plural(n: u32, word: &str) -> (r: String)
    ensures
        r@ == (if n == 1 {
            word@
        } else {
            word@.push('s')
        }),
{
    let mut s = String::new();
    s.append(word);
    if n != 1 {
        crate::text::push_char(&mut s, 's');
    }
    s
}

/// A fetched poster image, ready to embed as a data URI.
pub struct Poster {
    pub bytes: Vec<u8>,
    pub mime: &'static str,
}

/// The largest poster body embedded in a card (2 MiB).
pub const MAX_POSTER_BYTES: usize = 2097152;

/// The bytes start with the PNG signature's first four bytes.
pub open spec fn png_magic(b: Seq<u8>) -> bool {
    b.len() >= 4 && b[0] == 0x89 && b[1] == 0x50 && b[2] == 0x4e && b[3] == 0x47
}

/// A fetched poster body as a card image: refused when empty or over 2 MiB;
/// PNG by its magic bytes, else JPEG.
pub fn poster_from_bytes(bytes: Vec<u8>) -> (r: Option<Poster>)
    ensures
        r is Some <==> (bytes@.len() > 0 && bytes@.len() <= MAX_POSTER_BYTES),
        r matches Some(p) ==> p.bytes@ == bytes@ && p.mime@ == (if png_magic(bytes@) {
            "image/png"@
        } else {
            "image/jpeg"@
        }),
{
    if bytes.len() == 0 || bytes.len() > MAX_POSTER_BYTES {
        return None;
    }
    let png = bytes.len() >= 4 && bytes[0] == 0x89 && bytes[1] == 0x50 && bytes[2] == 0x4e
        && bytes[3] == 0x47;
    let mime: &'static str = if png {
        "image/png"
    } else {
        "image/jpeg"
    };
    Some(Poster { bytes, mime })
}

/// The RFC 4648 base64 alphabet (`A–Z a–z 0–9 + /`).
pub open spec fn b64_digit(v: int) -> char {
    if v < 26 {
        ('A' as int + v) as char
    } else if v < 52 {
        ('a' as int + (v - 26)) as char
    } else if v < 62 {
        ('0' as int + (v - 52)) as char
    } else if v == 62 {
        '+'
    } else {
        '/'
    }
}

/// Standard base64 with `=` padding: each group of three bytes becomes four
/// digits of six bits each, most significant first.
pub open spec fn base64_standard(b: Seq<u8>) -> Seq<char>
    decreases b.len(),
{
    if b.len() == 0 {
        Seq::empty()
    } else {
        let x0 = b[0] as int;
        let x1: int = if b.len() > 1 {
            b[1] as int
        } else {
            0
        };
        let x2: int = if b.len() > 2 {
            b[2] as int
        } else {
            0
        };
        let d0 = b64_digit(x0 / 4);
        let d1 = b64_digit((x0 % 4) * 16 + x1 / 16);
        let d2 = b64_digit((x1 % 16) * 4 + x2 / 64);
        let d3 = b64_digit(x2 % 64);
        if b.len() == 1 {
            seq![d0, d1, '=', '=']
        } else if b.len() == 2 {
            seq![d0, d1, d2, '=']
        } else {
            seq![d0, d1, d2, d3] + base64_standard(b.skip(3))
        }
    }
}

/// Encodes bytes with the `base64` crate's standard engine
/// (`general_purpose::STANDARD.encode`). Claimed: the result is the padded
/// RFC 4648 encoding of the bytes.
#[verifier::external_body]
fn base64_encode(bytes: &[u8]) -> (r: String)
    ensures
        r@ == base64_standard(bytes@),
{
    base64::engine::general_purpose::STANDARD.encode(bytes)
}

/// The `data:` URI a poster is embedded in the card with.
pub fn poster_data_uri(p: &Poster) -> (r: String)
    ensures
        r@ == "data:"@ + p.mime@ + ";base64,"@ + base64_standard(p.bytes@),
{
    let mut s = String::new();
    s.append("data:");
    s.append(p.mime);
    s.append(";base64,");
    let data = base64_encode(p.bytes.as_slice());
    s.append(data.as_str());
    s
}

/// The card title's font size for a show name of `n` characters: it steps down
/// for longer names.
pub open spec fn title_size(n: nat) -> u32 {
    if n <= 18 {
        64
    } else if n <= 44 {
        52
    } else {
        44
    }
}

/// The characters that fit on one title line: the text column (676 px beside a
/// poster, 1072 px without) over the average glyph width, 0.56 em.
pub open spec fn title_line_chars(has_poster: bool, size: u32) -> int {
    let avail: int = if has_poster {
        676
    } else {
        1072
    };
    (avail * 100) / (size * 56)
}

/// The scan of `s` for words (`str::split_whitespace`): the words finished so
/// far and the word in progress.
pub open spec fn word_scan(s: Seq<char>) -> (Seq<Seq<char>>, Seq<char>)
    decreases s.len(),
{
    if s.len() == 0 {
        (Seq::empty(), Seq::empty())
    } else {
        let (done, cur) = word_scan(s.drop_last());
        let c = s.last();
        if is_ws(c) {
            if cur.len() > 0 {
                (done.push(cur), Seq::empty())
            } else {
                (done, Seq::empty())
            }
        } else {
            (done, cur.push(c))
        }
    }
}

/// The words of `s`: its maximal runs of non-whitespace characters, in order.
pub open spec fn words(s: Seq<char>) -> Seq<Seq<char>> {
    let (done, cur) = word_scan(s);
    if cur.len() > 0 {
        done.push(cur)
    } else {
        done
    }
}

/// One greedy step: `word` joins the last line (after a space) when it fits in
/// `mc` characters or the line is still empty, else starts a new line while
/// fewer than `ml` lines exist, else wrapping stops, truncated.
pub open spec fn wrap_step(st: (Seq<Seq<char>>, bool), word: Seq<char>, mc: int, ml: int) -> (
    Seq<Seq<char>>,
    bool,
) {
    let (lines, stopped) = st;
    if stopped {
        st
    } else {
        let cur = lines.last();
        let sep: int = if cur.len() > 0 {
            1
        } else {
            0
        };
        if cur.len() + sep + word.len() <= mc {
            (
                lines.update(
                    lines.len() - 1,
                    if sep == 1 {
                        cur.push(' ') + word
                    } else {
                        cur + word
                    },
                ),
                false,
            )
        } else if cur.len() == 0 {
            (lines.update(lines.len() - 1, cur + word), false)
        } else if lines.len() < ml {
            (lines.push(word), false)
        } else {
            (lines, true)
        }
    }
}

/// Greedy wrapping of `ws`, starting from one empty line: the lines and whether
/// a word did not fit.
pub open spec fn wrap_words(ws: Seq<Seq<char>>, mc: int, ml: int) -> (Seq<Seq<char>>, bool)
    decreases ws.len(),
{
    if ws.len() == 0 {
        (seq![Seq::<char>::empty()], false)
    } else {
        wrap_step(wrap_words(ws.drop_last(), mc, ml), ws.last(), mc, ml)
    }
}

/// A line over `mc` characters hard-cut to `mc - 1` of them plus an ellipsis.
pub open spec fn cut_line(line: Seq<char>, mc: int) -> Seq<char> {
    if line.len() > mc {
        line.take(mc - 1).push('…')
    } else {
        line
    }
}

/// The line budget actually used: at least two characters.
pub open spec fn line_budget(max_chars: int) -> int {
    if max_chars < 2 {
        2
    } else {
        max_chars
    }
}

/// `text` wrapped greedily into lines of at most `max_chars` characters (at
/// least 2), at most `max_lines` of them after the first, with overlong lines
/// hard-cut; when text was dropped the last line ends in an ellipsis that fits
/// the budget.
pub open spec fn wrapped(text: Seq<char>, max_chars: int, max_lines: int) -> Seq<Seq<char>> {
    let mc = line_budget(max_chars);
    let (lines, stopped) = wrap_words(words(text), mc, max_lines);
    let cut = lines.map_values(|l: Seq<char>| cut_line(l, mc));
    let truncated = stopped || lines.last().len() > mc;
    let last = cut.last();
    if truncated && !(last.len() > 0 && last.last() == '…') {
        let kept = if last.len() >= mc {
            last.take(mc - 1)
        } else {
            last
        };
        cut.update(cut.len() - 1, trim_end(kept).push('…'))
    } else {
        cut
    }
}

/// The character views of a vector of character vectors.
pub open spec fn char_lines(v: Seq<Vec<char>>) -> Seq<Seq<char>> {
    v.map_values(|l: Vec<char>| l@)
}

/// The character views of a vector of strings.
pub open spec fn string_lines(v: Seq<String>) -> Seq<Seq<char>> {
    v.map_values(|l: String| l@)
}

/// The words of a string slice, as character vectors.
fn split_words(text: &str) -> (r: Vec<Vec<char>>)
    ensures
        char_lines(r@) == words(text@),
{
    let chars = chars_of(text);
    let mut done: Vec<Vec<char>> = Vec::new();
    let mut cur: Vec<char> = Vec::new();
    let mut i: usize = 0;
    while i < chars.len()
        invariant
            chars@ == text@,
            i <= chars@.len(),
            (char_lines(done@), cur@) == word_scan(chars@.take(i as int)),
        decreases chars@.len() - i,
    {
        assert(chars@.take(i + 1).drop_last() == chars@.take(i as int));
        let c = chars[i];
        if is_whitespace(c) {
            if cur.len() > 0 {
                let w = cur;
                cur = Vec::new();
                done.push(w);
                assert(char_lines(done@) =~= char_lines(done@.drop_last()).push(w@));
            } else {
                cur = Vec::new();
            }
            assert(cur@ =~= Seq::<char>::empty());
        } else {
            cur.push(c);
        }
        i = i + 1;
    }
    assert(chars@.take(chars@.len() as int) == chars@);
    if cur.len() > 0 {
        let ghost before = done@;
        done.push(cur);
        assert(char_lines(done@) =~= char_lines(before).push(cur@));
    }
    done
}

proof fn lemma_wrap_stopped(ws: Seq<Seq<char>>, k: int, mc: int, ml: int)
    requires
        0 <= k <= ws.len(),
        wrap_words(ws.take(k), mc, ml).1,
    ensures
        wrap_words(ws, mc, ml) == wrap_words(ws.take(k), mc, ml),
    decreases ws.len() - k,
{
    if k < ws.len() {
        assert(ws.take(k + 1).drop_last() == ws.take(k));
        lemma_wrap_stopped(ws, k + 1, mc, ml);
    } else {
        assert(ws.take(k) == ws);
    }
}

proof fn lemma_wrap_shape(ws: Seq<Seq<char>>, mc: int, ml: int)
    ensures
        wrap_words(ws, mc, ml).0.len() >= 1,
        wrap_words(ws, mc, ml).0.len() <= (if ml < 1 {
            1
        } else {
            ml
        }),
    decreases ws.len(),
{
    if ws.len() > 0 {
        lemma_wrap_shape(ws.drop_last(), mc, ml);
    }
}

proof fn lemma_trim_end_len(s: Seq<char>)
    ensures
        trim_end(s).len() <= s.len(),
    decreases s.len(),
{
    if s.len() > 0 && is_ws(s.last()) {
        lemma_trim_end_len(s.drop_last());
    }
}

/// Greedy wrapping of the words, with `mc` the line budget.
fn wrap_lines(ws: &Vec<Vec<char>>, mc: usize, max_lines: usize) -> (r: (Vec<Vec<char>>, bool))
    requires
        mc >= 2,
    ensures
        (char_lines(r.0@), r.1) == wrap_words(char_lines(ws@), mc as int, max_lines as int),
{
    let ghost gw = char_lines(ws@);
    let mut lines: Vec<Vec<char>> = Vec::new();
    lines.push(Vec::new());
    assert(char_lines(lines@) =~= seq![Seq::<char>::empty()]);
    assert(gw.take(0) =~= Seq::<Seq<char>>::empty());
    let mut truncated = false;
    let mut k: usize = 0;
    while k < ws.len() && !truncated
        invariant
            gw == char_lines(ws@),
            k <= ws@.len(),
            mc >= 2,
            lines@.len() >= 1,
            (char_lines(lines@), truncated) == wrap_words(gw.take(k as int), mc as int, max_lines as int),
        decreases ws@.len() - k,
    {
        assert(gw.take(k + 1).drop_last() == gw.take(k as int));
        assert(gw.take(k + 1).last() == ws@[k as int]@);
        let word = &ws[k];
        let ghost before = char_lines(lines@);
        let n = lines.len();
        let cur_len = lines[n - 1].len();
        let sep: usize = if cur_len > 0 {
            1
        } else {
            0
        };
        let fits = cur_len <= mc && sep <= mc - cur_len && word.len() <= mc - cur_len - sep;
        if fits || cur_len == 0 {
            let mut cur = lines.pop().unwrap();
            assert(cur@ == before.last());
            if sep == 1 {
                cur.push(' ');
            }
            let mut j: usize = 0;
            let ghost start = cur@;
            while j < word.len()
                invariant
                    j <= word@.len(),
                    cur@ == start + word@.take(j as int),
                decreases word@.len() - j,
            {
                cur.push(word[j]);
                j = j + 1;
                assert(cur@ =~= start + word@.take(j as int));
            }
            assert(word@.take(word@.len() as int) == word@);
            lines.push(cur);
            assert(char_lines(lines@) =~= before.update(before.len() - 1, cur@));
        } else if lines.len() < max_lines {
            let mut w: Vec<char> = Vec::new();
            let mut j: usize = 0;
            while j < word.len()
                invariant
                    j <= word@.len(),
                    w@ == word@.take(j as int),
                decreases word@.len() - j,
            {
                w.push(word[j]);
                j = j + 1;
                assert(w@ =~= word@.take(j as int));
            }
            assert(word@.take(word@.len() as int) == word@);
            lines.push(w);
            assert(char_lines(lines@) =~= before.push(w@));
        } else {
            truncated = true;
        }
        k = k + 1;
    }
    proof {
        if truncated {
            lemma_wrap_stopped(gw, k as int, mc as int, max_lines as int);
        } else {
            assert(gw.take(k as int) == gw);
        }
    }
    (lines, truncated)
}

/// Greedy word-wrap into at most `max_lines` lines of at most `max_chars`
/// chars (at least 2), ellipsizing on overflow, including single words longer
/// than a line.
pub fn wrap_ellipsize(text: &str, max_chars: usize, max_lines: usize) -> (r: Vec<String>)
    ensures
        string_lines(r@) == wrapped(text@, max_chars as int, max_lines as int),
        r@.len() >= 1,
        max_lines >= 1 ==> r@.len() <= max_lines,
        forall|i: int| 0 <= i < r@.len() ==> #[trigger] r@[i]@.len() <= line_budget(max_chars as int),
{
    let mc: usize = if max_chars < 2 {
        2
    } else {
        max_chars
    };
    let ws = split_words(text);
    let (lines, stopped) = wrap_lines(&ws, mc, max_lines);
    let ghost gl = char_lines(lines@);
    proof {
        lemma_wrap_shape(words(text@), mc as int, max_lines as int);
    }
    // Hard-cut any line still over budget.
    let n = lines.len();
    let last_len = lines[n - 1].len();
    let truncated = stopped || last_len > mc;
    let mut cut: Vec<Vec<char>> = Vec::new();
    let mut i: usize = 0;
    while i < n
        invariant
            n == lines@.len() >= 1,
            gl == char_lines(lines@),
            mc >= 2,
            i <= n,
            char_lines(cut@) == gl.take(i as int).map_values(|l: Seq<char>| cut_line(l, mc as int)),
            forall|j: int| 0 <= j < i ==> #[trigger] cut@[j]@.len() <= mc,
        decreases n - i,
    {
        let line = &lines[i];
        let mut out: Vec<char> = Vec::new();
        if line.len() > mc {
            let mut j: usize = 0;
            while j < mc - 1
                invariant
                    mc >= 2,
                    line@.len() > mc,
                    j <= mc - 1,
                    out@ == line@.take(j as int),
                decreases mc - 1 - j,
            {
                out.push(line[j]);
                j = j + 1;
                assert(out@ =~= line@.take(j as int));
            }
            out.push('…');
        } else {
            let mut j: usize = 0;
            while j < line.len()
                invariant
                    j <= line@.len(),
                    out@ == line@.take(j as int),
                decreases line@.len() - j,
            {
                out.push(line[j]);
                j = j + 1;
                assert(out@ =~= line@.take(j as int));
            }
            assert(line@.take(line@.len() as int) == line@);
        }
        let ghost before = char_lines(cut@);
        cut.push(out);
        assert(char_lines(cut@) =~= before.push(out@));
        assert(gl.take(i + 1) =~= gl.take(i as int).push(gl[i as int]));
        assert(gl.take(i + 1).map_values(|l: Seq<char>| cut_line(l, mc as int))
            =~= gl.take(i as int).map_values(|l: Seq<char>| cut_line(l, mc as int)).push(
            cut_line(gl[i as int], mc as int),
        ));
        i = i + 1;
    }
    assert(gl.take(n as int) == gl);
    let ghost gc = char_lines(cut@);
    let last_ends = {
        let last = &cut[n - 1];
        last.len() > 0 && last[last.len() - 1] == '…'
    };
    if truncated && !last_ends {
        let mut last = cut.pop().unwrap();
        assert(last@ == gc.last());
        while last.len() >= mc
            invariant
                mc >= 2,
                last@.len() <= mc,
                last@ == (if gc.last().len() >= mc {
                    gc.last().take(last@.len() as int)
                } else {
                    gc.last()
                }),
                last@.len() >= mc ==> gc.last().len() >= mc,
                gc.last().len() >= mc ==> last@.len() >= mc - 1,
            decreases last@.len(),
        {
            last.pop();
            assert(last@ =~= gc.last().take(last@.len() as int));
        }
        assert(gc.last().len() >= mc ==> last@ == gc.last().take(mc - 1));
        let mut b: usize = last.len();
        assert(last@.take(b as int) == last@);
        while b > 0 && is_whitespace(last[b - 1])
            invariant
                b <= last@.len(),
                trim_end(last@) == trim_end(last@.take(b as int)),
            decreases b,
        {
            assert(last@.take(b as int).drop_last() == last@.take(b - 1));
            b = b - 1;
        }
        let mut fin: Vec<char> = Vec::new();
        let mut j: usize = 0;
        while j < b
            invariant
                b <= last@.len(),
                j <= b,
                fin@ == last@.take(j as int),
            decreases b - j,
        {
            fin.push(last[j]);
            j = j + 1;
            assert(fin@ =~= last@.take(j as int));
        }
        proof {
            lemma_trim_end_len(last@);
        }
        fin.push('…');
        let ghost rest = char_lines(cut@);
        assert(rest =~= gc.drop_last());
        assert(fin@.len() <= mc);
        cut.push(fin);
        assert(char_lines(cut@) =~= rest.push(fin@));
        assert(char_lines(cut@) =~= gc.update(gc.len() - 1, fin@));
    }
    assert(forall|j: int| 0 <= j < cut@.len() ==> #[trigger] cut@[j]@.len() <= mc);
    // Lines become strings.
    let mut r: Vec<String> = Vec::new();
    let mut i: usize = 0;
    while i < cut.len()
        invariant
            i <= cut@.len(),
            string_lines(r@) == char_lines(cut@).take(i as int),
        decreases cut@.len() - i,
    {
        let s = string_of(cut[i].as_slice());
        let ghost before = string_lines(r@);
        r.push(s);
        assert(string_lines(r@) =~= before.push(s@));
        assert(char_lines(cut@).take(i + 1) =~= char_lines(cut@).take(i as int).push(cut@[i as int]@));
        i = i + 1;
    }
    assert(char_lines(cut@).take(cut@.len() as int) == char_lines(cut@));
    assert forall|j: int| 0 <= j < r@.len() implies #[trigger] r@[j]@.len() <= line_budget(
        max_chars as int,
    ) by {
        assert(string_lines(r@)[j] == char_lines(cut@)[j]);
    }
    r
}

/// The card title for a show name: its font size and its lines, wrapped into at
/// most two lines of the column's width.
pub fn title_lines(name: &str, has_poster: bool) -> (r: (u32, Vec<String>))
    ensures
        r.0 == title_size(name@.len()),
        string_lines(r.1@) == wrapped(name@, title_line_chars(has_poster, r.0), 2),
{
    let n = crate::text::char_count(name);
    let size: u32 = if n <= 18 {
        64
    } else if n <= 44 {
        52
    } else {
        44
    };
    let avail: u64 = if has_poster {
        676
    } else {
        1072
    };
    let per_line: u64 = (avail * 100) / (size as u64 * 56);
    let lines = wrap_ellipsize(name, per_line as usize, 2);
    (size, lines)
}

/// The decimal text of a number.
pub open spec fn num(n: int) -> Seq<char> {
    crate::text::digits(n as nat)
}

/// The card's headline and sub-line: "X% filler" and "Skip F of T episodes";
/// none for a show without episodes (the card shows a placeholder instead).
pub open spec fn stat_text(s: OgStats) -> Option<(Seq<char>, Seq<char>)> {
    let t = stats_total(s);
    if t == 0 {
        None
    } else {
        Some(
            (
                num(rounded_percent(s.filler as int, t)) + "% filler"@,
                "Skip "@ + num(s.filler as int) + " of "@ + num(t) + " "@ + (if t == 1 {
                    "episode"@
                } else {
                    "episodes"@
                }),
            ),
        )
    }
}

/// The headline and sub-line of the stat card.
pub fn stat_lines(stats: &OgStats) -> (r: Option<(String, String)>)
    requires
        stats_total(*stats) <= u32::MAX,
    ensures
        (match r {
            Some((a, b)) => Some((a@, b@)),
            None => None,
        }) == stat_text(*stats),
{
    let total = stats.total();
    if total == 0 {
        return None;
    }
    let mut head = String::new();
    crate::text::push_digits(&mut head, stats.filler_pct() as u64);
    head.append("% filler");
    let mut sub = String::new();
    sub.append("Skip ");
    crate::text::push_digits(&mut sub, stats.filler as u64);
    sub.append(" of ");
    crate::text::push_digits(&mut sub, total as u64);
    sub.append(" ");
    let word = plural(total, "episode");
    proof {
        reveal_strlit("episode");
        reveal_strlit("episodes");
        assert("episode"@.push('s') =~= "episodes"@);
    }
    sub.append(word.as_str());
    assert(stat_text(*stats) == Some((head@, sub@)));
    Some((head, sub))
}

/// The breakdown row's labels: the three core counts, then the undecided count
/// when there is one.
pub open spec fn breakdown_text(s: OgStats) -> Seq<Seq<char>> {
    let core = seq![
        num(s.canon as int) + " canon"@,
        num(s.worth_watching as int) + " worth it"@,
        num(s.filler as int) + " filler"@,
    ];
    if s.undecided > 0 {
        core.push(num(s.undecided as int) + " undecided"@)
    } else {
        core
    }
}

/// The labels of the breakdown row, in drawing order.
pub fn breakdown_labels(stats: &OgStats) -> (r: Vec<String>)
    ensures
        string_lines(r@) == breakdown_text(*stats),
{
    let mut canon = String::new();
    crate::text::push_digits(&mut canon, stats.canon as u64);
    canon.append(" canon");
    let mut worth = String::new();
    crate::text::push_digits(&mut worth, stats.worth_watching as u64);
    worth.append(" worth it");
    let mut filler = String::new();
    crate::text::push_digits(&mut filler, stats.filler as u64);
    filler.append(" filler");
    let mut items: Vec<String> = Vec::new();
    items.push(canon);
    items.push(worth);
    items.push(filler);
    if stats.undecided > 0 {
        let mut und = String::new();
        crate::text::push_digits(&mut und, stats.undecided as u64);
        und.append(" undecided");
        items.push(und);
    }
    assert(string_lines(items@) =~= breakdown_text(*stats));
    items
}

} // verus!
