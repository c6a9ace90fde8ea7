//! Timed lyrics: parsing of bracketed `[mm:ss.xx]text` lines, entity
//! decoding, and lookup of the line current at a playback position.

use vstd::prelude::*;
use vstd::utf8::{decode_utf8, valid_utf8};
use crate::text::{
    after_char, before_char, char_pos, char_pos_exec, chars_of, parse_u64, parse_u64_exec, slice_of,
    split_at_char, string_of, trim, trim_chars, replace_all, replace_all_exec, rfind_char,
    last_index_before, lower_of, lowercase, contains, ends_with, find_exec, ends_with_exec,
    same_chars, base64_decoded, decode_base64, utf8_text,
};

verus! {

/// One lyric line, shown from `time_ms` on.
#[derive(Clone, Debug)]
pub struct LyricLine {
    pub time_ms: u64,
    pub text: String,
}

/// Lyrics of a track, lines ordered by time.
#[derive(Clone, Debug)]
pub struct Lyric {
    pub title: String,
    pub artist: String,
    pub lines: Vec<LyricLine>,
}

/// A lyric line as a pair of start time and text.
pub type LineView = (u64, Seq<char>);

pub open spec fn lines_view(v: Seq<LyricLine>) -> Seq<LineView> {
    v.map_values(|l: LyricLine| (l.time_ms, l.text@))
}

/// Index of the first line at or after `i` that starts later than `t`.
pub open spec fn first_later(lines: Seq<LineView>, t: u64, i: int) -> Option<int>
    decreases lines.len() - i,
{
    if i < 0 || i >= lines.len() {
        None
    } else if lines[i].0 > t {
        Some(i)
    } else {
        first_later(lines, t, i + 1)
    }
}

/// The line current at `t`: the one before the first line that starts later
/// than `t`, the first line if all start later, the last if none does.
pub open spec fn current_line(lines: Seq<LineView>, t: u64) -> Option<int> {
    if lines.len() == 0 {
        None
    } else {
        match first_later(lines, t, 0) {
            Some(i) => if i == 0 {
                Some(0)
            } else {
                Some(i - 1)
            },
            None => Some(lines.len() - 1),
        }
    }
}

/// Number of character entities that lyric text may carry.
pub const ENTITY_COUNT: usize = 14;

/// The `k`-th entity and its replacement, in the order they are applied.
pub open spec fn entity_pair(k: int) -> (Seq<char>, Seq<char>) {
    if k == 0 {
        ("&amp;"@, "&"@)
    } else if k == 1 {
        ("&apos;"@, "'"@)
    } else if k == 2 {
        ("&quot;"@, "\""@)
    } else if k == 3 {
        ("&lt;"@, "<"@)
    } else if k == 4 {
        ("&gt;"@, ">"@)
    } else if k == 5 {
        ("&nbsp;"@, " "@)
    } else if k == 6 {
        ("&#39;"@, "'"@)
    } else if k == 7 {
        ("&#x27;"@, "'"@)
    } else if k == 8 {
        ("&#34;"@, "\""@)
    } else if k == 9 {
        ("&#60;"@, "<"@)
    } else if k == 10 {
        ("&#62;"@, ">"@)
    } else if k == 11 {
        ("&copy;"@, "©"@)
    } else if k == 12 {
        ("&reg;"@, "®"@)
    } else {
        ("&trade;"@, "™"@)
    }
}

/// `s` after the first `k` entity replacements.
pub open spec fn decode_entities_upto(s: Seq<char>, k: int) -> Seq<char>
    decreases k,
{
    if k <= 0 {
        s
    } else {
        replace_all(decode_entities_upto(s, k - 1), entity_pair(k - 1).0, entity_pair(k - 1).1)
    }
}

/// `s` with its character entities decoded, one entity after the other.
pub open spec fn decoded_entities(s: Seq<char>) -> Seq<char> {
    decode_entities_upto(s, ENTITY_COUNT as int)
}

fn entity_strs(k: usize) -> (r: (&'static str, &'static str))
    requires
        k < ENTITY_COUNT,
    ensures
        (r.0@, r.1@) == entity_pair(k as int),
        r.0@.len() > 0,
{
    proof {
        reveal_strlit("&amp;");
        reveal_strlit("&");
        reveal_strlit("&apos;");
        reveal_strlit("'");
        reveal_strlit("&quot;");
        reveal_strlit("\"");
        reveal_strlit("&lt;");
        reveal_strlit("<");
        reveal_strlit("&gt;");
        reveal_strlit(">");
        reveal_strlit("&nbsp;");
        reveal_strlit(" ");
        reveal_strlit("&#39;");
        reveal_strlit("'");
        reveal_strlit("&#x27;");
        reveal_strlit("'");
        reveal_strlit("&#34;");
        reveal_strlit("\"");
        reveal_strlit("&#60;");
        reveal_strlit("<");
        reveal_strlit("&#62;");
        reveal_strlit(">");
        reveal_strlit("&copy;");
        reveal_strlit("©");
        reveal_strlit("&reg;");
        reveal_strlit("®");
        reveal_strlit("&trade;");
        reveal_strlit("™");
    }
    if k == 0 {
        ("&amp;", "&")
    } else if k == 1 {
        ("&apos;", "'")
    } else if k == 2 {
        ("&quot;", "\"")
    } else if k == 3 {
        ("&lt;", "<")
    } else if k == 4 {
        ("&gt;", ">")
    } else if k == 5 {
        ("&nbsp;", " ")
    } else if k == 6 {
        ("&#39;", "'")
    } else if k == 7 {
        ("&#x27;", "'")
    } else if k == 8 {
        ("&#34;", "\"")
    } else if k == 9 {
        ("&#60;", "<")
    } else if k == 10 {
        ("&#62;", ">")
    } else if k == 11 {
        ("&copy;", "©")
    } else if k == 12 {
        ("&reg;", "®")
    } else {
        ("&trade;", "™")
    }
}

/// Decodes the character entities that lyric sources use (`&amp;`, `&#39;`, ...).
pub fn decode_html_entities(text: &str) -> (r: String)
    ensures
        r@ == decoded_entities(text@),
{
    let mut cur = chars_of(text);
    let mut k: usize = 0;
    while k < ENTITY_COUNT
        invariant
            k <= ENTITY_COUNT,
            cur@ == decode_entities_upto(text@, k as int),
        decreases ENTITY_COUNT - k,
    {
        let (p, r) = entity_strs(k);
        cur = replace_all_exec(&cur, &chars_of(p), &chars_of(r));
        k += 1;
    }
    string_of(&cur)
}

/// Milliseconds given by the fraction after the first `.` of the seconds
/// field: its first two digits are hundredths.
pub open spec fn fraction_ms(rest: Seq<char>) -> int {
    match after_char(rest, '.') {
        None => 0,
        Some(f) => {
            let f1 = before_char(f, '.');
            let f2 = if f1.len() <= 2 {
                f1
            } else {
                f1.take(2)
            };
            match parse_u64(f2) {
                Some(v) => v * 10,
                None => 0,
            }
        },
    }
}

/// The position in milliseconds that a `mm:ss.xx` time stamp gives: exactly
/// one `:`, minutes and seconds as unsigned integers, and an optional fraction
/// whose first two digits count hundredths (an unreadable fraction counts 0).
/// None when a field is unreadable or the total does not fit in 64 bits.
pub open spec fn time_of(s: Seq<char>) -> Option<u64> {
    match after_char(s, ':') {
        None => None,
        Some(rest) => if after_char(rest, ':') is Some {
            None
        } else {
            match (parse_u64(before_char(s, ':')), parse_u64(before_char(rest, '.'))) {
                (Some(m), Some(sec)) => {
                    let total = (m * 60 + sec) * 1000 + fraction_ms(rest);
                    if total <= u64::MAX {
                        Some(total as u64)
                    } else {
                        None
                    }
                },
                _ => None,
            }
        },
    }
}

/// What one line of lyric text contributes: `[time]text`, trimmed, gives one
/// entry with the trimmed text; anything else gives none.
pub open spec fn line_entry(line: Seq<char>) -> Seq<LineView> {
    let l = trim(line);
    match after_char(l, ']') {
        None => Seq::empty(),
        Some(text) => {
            let head = before_char(l, ']');
            if head.len() > 0 && head[0] == '[' {
                match time_of(head.drop_first()) {
                    Some(t) => seq![(t, trim(text))],
                    None => Seq::empty(),
                }
            } else {
                Seq::empty()
            }
        },
    }
}

/// The entries of every line of `s`, in the order of the text.
pub open spec fn lrc_entries(s: Seq<char>) -> Seq<LineView>
    decreases s.len(),
{
    match char_pos(s, '\n', 0) {
        Some(k) => if 0 <= k < s.len() {
            line_entry(s.take(k)) + lrc_entries(s.skip(k + 1))
        } else {
            Seq::empty()
        },
        None => line_entry(s),
    }
}

/// `s` with `e` inserted after every element that starts no later than it.
pub open spec fn insert_by_time(s: Seq<LineView>, e: LineView) -> Seq<LineView>
    decreases s.len(),
{
    if s.len() == 0 {
        seq![e]
    } else if s.last().0 <= e.0 {
        s.push(e)
    } else {
        insert_by_time(s.drop_last(), e).push(s.last())
    }
}

/// `s` sorted by start time; lines with equal times keep their order.
pub open spec fn sort_by_time(s: Seq<LineView>) -> Seq<LineView>
    decreases s.len(),
{
    if s.len() == 0 {
        s
    } else {
        insert_by_time(sort_by_time(s.drop_last()), s.last())
    }
}

proof fn lemma_insert_at(s: Seq<LineView>, e: LineView, j: int)
    requires
        0 <= j <= s.len(),
        j == 0 || s[j - 1].0 <= e.0,
        forall|k: int| j <= k < s.len() ==> s[k].0 > e.0,
    ensures
        insert_by_time(s, e) == s.take(j) + seq![e] + s.skip(j),
    decreases s.len(),
{
    if s.len() == 0 {
        assert(s.take(j) + seq![e] + s.skip(j) =~= seq![e]);
    } else if s.last().0 <= e.0 {
        assert(j == s.len());
        assert(s.take(j) + seq![e] + s.skip(j) =~= s.push(e));
    } else {
        let t = s.drop_last();
        lemma_insert_at(t, e, j);
        assert(t.take(j) + seq![e] + t.skip(j) + seq![s.last()] =~= s.take(j) + seq![e] + s.skip(j));
    }
}

fn time_chars(s: &Vec<char>) -> (r: Option<u64>)
    ensures
        r == time_of(s@),
{
    let (mins_s, rest_o) = split_at_char(s, ':');
    let rest = match rest_o {
        None => return None,
        Some(r) => r,
    };
    let (_, extra) = split_at_char(&rest, ':');
    if extra.is_some() {
        return None;
    }
    let m = match parse_u64_exec(&mins_s) {
        Some(v) => v,
        None => return None,
    };
    let (sec_s, frac_o) = split_at_char(&rest, '.');
    let sec = match parse_u64_exec(&sec_s) {
        Some(v) => v,
        None => return None,
    };
    let frac: u128 = match frac_o {
        None => 0,
        Some(f) => {
            let (f1, _) = split_at_char(&f, '.');
            let f2 = if f1.len() <= 2 {
                f1
            } else {
                slice_of(&f1, 0, 2)
            };
            proof {
                if f1@.len() > 2 {
                    assert(f2@ =~= f1@.take(2));
                }
            }
            match parse_u64_exec(&f2) {
                Some(v) => v as u128 * 10,
                None => 0,
            }
        },
    };
    let m128 = m as u128;
    let s128 = sec as u128;
    assert((m128 * 60 + s128) * 1000 + frac <= 0xffff_ffff_ffff_ffffu128 * 62000) by (nonlinear_arith)
        requires
            m128 <= 0xffff_ffff_ffff_ffffu128,
            s128 <= 0xffff_ffff_ffff_ffffu128,
            frac <= 0xffff_ffff_ffff_ffffu128 * 10,
    ;
    let total: u128 = (m128 * 60 + s128) * 1000 + frac;
    if total <= u64::MAX as u128 {
        Some(total as u64)
    } else {
        None
    }
}

/// The position in milliseconds of a `mm:ss.xx` time stamp.
pub fn parse_time(time_str: &str) -> (r: Option<u64>)
    ensures
        r == time_of(time_str@),
{
    time_chars(&chars_of(time_str))
}

fn entry_of_line(line: &Vec<char>) -> (r: Option<LyricLine>)
    ensures
        match r {
            Some(l) => line_entry(line@) == seq![(l.time_ms, l.text@)],
            None => line_entry(line@) == Seq::<LineView>::empty(),
        },
{
    let l = trim_chars(line);
    let (head, text_o) = split_at_char(&l, ']');
    match text_o {
        None => None,
        Some(text) => {
            if head.len() > 0 && head[0] == '[' {
                let inner = slice_of(&head, 1, head.len());
                assert(inner@ =~= head@.drop_first());
                match time_chars(&inner) {
                    Some(t) => {
                        let body = trim_chars(&text);
                        Some(LyricLine { time_ms: t, text: string_of(&body) })
                    },
                    None => None,
                }
            } else {
                None
            }
        },
    }
}

/// The entries of `content` in text order, before sorting.
fn lrc_lines_in_order(content: &Vec<char>) -> (r: Vec<LyricLine>)
    ensures
        lines_view(r@) == lrc_entries(content@),
{
    let mut out: Vec<LyricLine> = Vec::new();
    let mut rest = slice_of(content, 0, content.len());
    assert(rest@ =~= content@);
    loop
        invariant
            lines_view(out@) + lrc_entries(rest@) == lrc_entries(content@),
        decreases rest.len(),
    {
        let ghost before = lines_view(out@);
        match char_pos_exec(&rest, '\n', 0) {
            Some(k) => {
                let line = slice_of(&rest, 0, k);
                let next = slice_of(&rest, k + 1, rest.len());
                assert(line@ =~= rest@.take(k as int));
                assert(next@ =~= rest@.skip(k + 1));
                match entry_of_line(&line) {
                    Some(l) => {
                        out.push(l);
                        assert(lines_view(out@) =~= before + line_entry(line@));
                    },
                    None => {
                        assert(before + line_entry(line@) =~= before);
                    },
                }
                assert(lines_view(out@) + lrc_entries(next@) =~= before + lrc_entries(rest@));
                rest = next;
            },
            None => {
                match entry_of_line(&rest) {
                    Some(l) => {
                        out.push(l);
                        assert(lines_view(out@) =~= before + line_entry(rest@));
                    },
                    None => {
                        assert(before + line_entry(rest@) =~= before);
                    },
                }
                return out;
            },
        }
    }
}

/// Parses lyric text: every line of the form `[mm:ss.xx]text` gives a line
/// with trimmed text; other lines are skipped. The result is sorted by time,
/// lines with equal times in text order.
pub fn parse_lrc(content: &str) -> (r: Vec<LyricLine>)
    ensures
        lines_view(r@) == sort_by_time(lrc_entries(content@)),
{
    let entries = lrc_lines_in_order(&chars_of(content));
    let ghost ev = lines_view(entries@);
    let mut out: Vec<LyricLine> = Vec::new();
    let mut i: usize = 0;
    assert(ev.take(0) =~= Seq::<LineView>::empty());
    while i < entries.len()
        invariant
            i <= entries.len(),
            ev == lines_view(entries@),
            lines_view(out@) == sort_by_time(ev.take(i as int)),
        decreases entries.len() - i,
    {
        let e = LyricLine { time_ms: entries[i].time_ms, text: entries[i].text.clone() };
        let ghost ov = lines_view(out@);
        let ghost evw: LineView = (e.time_ms, e.text@);
        let mut j: usize = out.len();
        while j > 0 && out[j - 1].time_ms > e.time_ms
            invariant
                j <= out.len(),
                ov == lines_view(out@),
                forall|k: int| j <= k < out.len() ==> ov[k].0 > evw.0,
                evw.0 == e.time_ms,
            decreases j,
        {
            j -= 1;
        }
        proof {
            lemma_insert_at(ov, evw, j as int);
            assert(ev.take(i + 1).drop_last() =~= ev.take(i as int));
        }
        out.insert(j, e);
        assert(lines_view(out@) =~= ov.take(j as int) + seq![evw] + ov.skip(j as int));
        i += 1;
    }
    assert(ev.take(i as int) =~= ev);
    out
}

impl Lyric {
    pub fn empty() -> (r: Lyric)
        ensures
            r.title@.len() == 0,
            r.artist@.len() == 0,
            r.lines@.len() == 0,
    {
        Lyric { title: String::new(), artist: String::new(), lines: Vec::new() }
    }

    pub fn is_empty(&self) -> (r: bool)
        ensures
            r == (self.lines@.len() == 0),
    {
        self.lines.len() == 0
    }

    /// Index of the line current at playback position `current_ms`; none for
    /// empty lyrics.
    pub fn get_current_line(&self, current_ms: u64) -> (r: Option<usize>)
        ensures
            match r {
                Some(i) => current_line(lines_view(self.lines@), current_ms) == Some(i as int),
                None => current_line(lines_view(self.lines@), current_ms) is None,
            },
    {
        let ghost lv = lines_view(self.lines@);
        let mut i: usize = 0;
        while i < self.lines.len()
            invariant
                i <= self.lines.len(),
                lv == lines_view(self.lines@),
                first_later(lv, current_ms, 0) == first_later(lv, current_ms, i as int),
            decreases self.lines.len() - i,
        {
            if self.lines[i].time_ms > current_ms {
                if i == 0 {
                    return Some(0);
                }
                return Some(i - 1);
            }
            i += 1;
        }
        if self.lines.len() == 0 {
            return None;
        }
        Some(self.lines.len() - 1)
    }
}

/// Lyrics read from lyric text: entities decoded, then parsed; no title or artist.
pub fn lyric_from_text(content: &str) -> (r: Lyric)
    ensures
        r.title@.len() == 0,
        r.artist@.len() == 0,
        lines_view(r.lines@) == sort_by_time(lrc_entries(decoded_entities(content@))),
{
    let decoded = decode_html_entities(content);
    let lines = parse_lrc(decoded.as_str());
    Lyric { title: String::new(), artist: String::new(), lines }
}

/// Lyrics embedded in the track's tags, if there is text and it yields a line.
pub fn lyric_from_embedded(title: &str, artist: &str, embedded: Option<&str>) -> (r: Option<Lyric>)
    ensures
        match embedded {
            None => r is None,
            Some(e) => {
                let lines = sort_by_time(lrc_entries(decoded_entities(e@)));
                if e@.len() == 0 || lines.len() == 0 {
                    r is None
                } else {
                    r matches Some(l) && l.title@ == title@ && l.artist@ == artist@ && lines_view(
                        l.lines@,
                    ) == lines
                }
            },
        },
{
    match embedded {
        None => None,
        Some(e) => {
            if e.is_empty() {
                return None;
            }
            let decoded = decode_html_entities(e);
            let lines = parse_lrc(decoded.as_str());
            if lines.len() == 0 {
                None
            } else {
                Some(Lyric { title: title.to_owned(), artist: artist.to_owned(), lines })
            }
        },
    }
}

/// The lyric text that a base64 `content` field carries, if it decodes to UTF-8.
pub open spec fn encoded_lyric_text(content: Seq<char>) -> Option<Seq<char>> {
    match base64_decoded(content) {
        Some(b) => if valid_utf8(b) && decode_utf8(b).len() > 0 {
            Some(decode_utf8(b))
        } else {
            None
        },
        None => None,
    }
}

/// Lyrics from a base64-encoded lyric field, as lyric providers deliver them;
/// none when the field is empty, not base64, not UTF-8 or empty once decoded.
pub fn lyric_from_encoded(content: &str, title: String, artist: String) -> (r: Option<Lyric>)
    ensures
        content@.len() == 0 ==> r is None,
        content@.len() > 0 ==> match encoded_lyric_text(content@) {
            None => r is None,
            Some(t) => r matches Some(l) && l.title@ == title@ && l.artist@ == artist@
                && lines_view(l.lines@) == sort_by_time(lrc_entries(decoded_entities(t))),
        },
{
    if content.is_empty() {
        return None;
    }
    let bytes = match decode_base64(content) {
        Some(b) => b,
        None => return None,
    };
    let text = match utf8_text(bytes) {
        Some(t) => t,
        None => return None,
    };
    if text.as_str().is_empty() {
        return None;
    }
    let decoded = decode_html_entities(text.as_str());
    let lines = parse_lrc(decoded.as_str());
    Some(Lyric { title, artist, lines })
}

/// Index just past the last `/` of `p`; 0 when it has none.
pub open spec fn name_start(p: Seq<char>) -> int {
    match rfind_char(p, '/') {
        Some(k) => k + 1,
        None => 0,
    }
}

/// The stem of a file name: the part before its last `.`, unless that dot
/// opens the name or there is none.
pub open spec fn file_stem(n: Seq<char>) -> Seq<char> {
    match rfind_char(n, '.') {
        Some(k) => if k > 0 {
            n.take(k)
        } else {
            n
        },
        None => n,
    }
}

pub open spec fn names_view(v: Seq<String>) -> Seq<Seq<char>> {
    v.map_values(|s: String| s@)
}

/// Whether directory entry `n` looks like lyrics for a track with stem `stem`.
pub open spec fn lyric_name_matches(n: Seq<char>, stem: Seq<char>) -> bool {
    contains(lower_of(n), lower_of(stem)) && (ends_with(n, ".lrc"@) || ends_with(n, ".txt"@))
}

/// The first entry at or after `i` that looks like lyrics for `stem`.
pub open spec fn first_lyric_match(names: Seq<Seq<char>>, stem: Seq<char>, i: int) -> Option<int>
    decreases names.len() - i,
{
    if i < 0 || i >= names.len() {
        None
    } else if lyric_name_matches(names[i], stem) {
        Some(i)
    } else {
        first_lyric_match(names, stem, i + 1)
    }
}

/// The lyric file for the track at `path`, given the names of the entries of
/// its directory: `<stem>.lrc`, else `<stem>.txt`, else the first entry whose
/// lower-cased name holds the lower-cased stem and ends in `.lrc` or `.txt`.
pub open spec fn local_lyric_for(path: Seq<char>, names: Seq<Seq<char>>) -> Option<Seq<char>> {
    let dir = path.take(name_start(path));
    let name = path.skip(name_start(path));
    let stem = file_stem(name);
    if name.len() == 0 {
        None
    } else if names.contains(stem + ".lrc"@) {
        Some(dir + stem + ".lrc"@)
    } else if names.contains(stem + ".txt"@) {
        Some(dir + stem + ".txt"@)
    } else {
        match first_lyric_match(names, stem, 0) {
            Some(i) => Some(dir + names[i]),
            None => None,
        }
    }
}

fn rfind_char_exec(s: &Vec<char>, c: char) -> (r: Option<usize>)
    ensures
        match r {
            Some(k) => rfind_char(s@, c) == Some(k as int) && k < s.len(),
            None => rfind_char(s@, c) is None,
        },
{
    let mut n: usize = s.len();
    while n > 0
        invariant
            n <= s.len(),
            rfind_char(s@, c) == last_index_before(s@, c, n as int),
        decreases n,
    {
        if s[n - 1] == c {
            return Some(n - 1);
        }
        n -= 1;
    }
    None
}

/// The stem of file name `name`.
pub(crate) fn stem_exec(name: &Vec<char>) -> (r: Vec<char>)
    ensures
        r@ == file_stem(name@),
{
    let r = match rfind_char_exec(name, '.') {
        Some(k) => if k > 0 {
            slice_of(name, 0, k)
        } else {
            slice_of(name, 0, name.len())
        },
        None => slice_of(name, 0, name.len()),
    };
    assert(r@ =~= file_stem(name@));
    r
}

fn concat_chars(a: &Vec<char>, b: &Vec<char>) -> (r: Vec<char>)
    ensures
        r@ == a@ + b@,
{
    let mut out = slice_of(a, 0, a.len());
    let mut i: usize = 0;
    assert(out@ =~= a@);
    while i < b.len()
        invariant
            i <= b.len(),
            out@ == a@ + b@.take(i as int),
        decreases b.len() - i,
    {
        out.push(b[i]);
        i += 1;
        assert(out@ =~= a@ + b@.take(i as int));
    }
    assert(b@.take(i as int) =~= b@);
    out
}

fn holds_name(names: &Vec<String>, n: &Vec<char>) -> (r: bool)
    ensures
        r == names_view(names@).contains(n@),
{
    let ghost nv = names_view(names@);
    let mut i: usize = 0;
    while i < names.len()
        invariant
            i <= names.len(),
            nv == names_view(names@),
            forall|k: int| 0 <= k < i ==> nv[k] != n@,
        decreases names.len() - i,
    {
        if same_chars(&chars_of(names[i].as_str()), n) {
            assert(nv[i as int] == n@);
            return true;
        }
        i += 1;
    }
    false
}

/// Finds the lyric file of the track at `music_path` among `sibling_names`,
/// the names of the entries of the track's directory, in listing order.
pub fn find_local_lyric(music_path: &str, sibling_names: &Vec<String>) -> (r: Option<String>)
    ensures
        match r {
            Some(p) => local_lyric_for(music_path@, names_view(sibling_names@)) == Some(p@),
            None => local_lyric_for(music_path@, names_view(sibling_names@)) is None,
        },
{
    let path = chars_of(music_path);
    let start: usize = match rfind_char_exec(&path, '/') {
        Some(k) => k + 1,
        None => 0,
    };
    let dir = slice_of(&path, 0, start);
    let name = slice_of(&path, start, path.len());
    assert(dir@ =~= path@.take(start as int));
    assert(name@ =~= path@.skip(start as int));
    if name.len() == 0 {
        return None;
    }
    let stem = stem_exec(&name);
    proof {
        reveal_strlit(".lrc");
        reveal_strlit(".txt");
    }
    let lrc = chars_of(".lrc");
    let txt = chars_of(".txt");
    let with_lrc = concat_chars(&stem, &lrc);
    if holds_name(sibling_names, &with_lrc) {
        let full = concat_chars(&dir, &with_lrc);
        assert(full@ =~= dir@ + stem@ + ".lrc"@);
        return Some(string_of(&full));
    }
    let with_txt = concat_chars(&stem, &txt);
    if holds_name(sibling_names, &with_txt) {
        let full = concat_chars(&dir, &with_txt);
        assert(full@ =~= dir@ + stem@ + ".txt"@);
        return Some(string_of(&full));
    }
    let stem_low = chars_of(lowercase(string_of(&stem).as_str()).as_str());
    let ghost nv = names_view(sibling_names@);
    let mut i: usize = 0;
    while i < sibling_names.len()
        invariant
            i <= sibling_names.len(),
            nv == names_view(sibling_names@),
            stem_low@ == lower_of(stem@),
            dir@ == music_path@.take(name_start(music_path@)),
            name@ == music_path@.skip(name_start(music_path@)),
            name@.len() > 0,
            stem@ == file_stem(name@),
            !nv.contains(stem@ + ".lrc"@),
            !nv.contains(stem@ + ".txt"@),
            lrc@ == ".lrc"@,
            txt@ == ".txt"@,
            first_lyric_match(nv, stem@, 0) == first_lyric_match(nv, stem@, i as int),
        decreases sibling_names.len() - i,
    {
        let n = chars_of(sibling_names[i].as_str());
        let low = chars_of(lowercase(sibling_names[i].as_str()).as_str());
        let hit = find_exec(&low, &stem_low).is_some() && (ends_with_exec(&n, &lrc)
            || ends_with_exec(&n, &txt));
        assert(n@ == nv[i as int]);
        if hit {
            let full = concat_chars(&dir, &n);
            return Some(string_of(&full));
        }
        i += 1;
    }
    None
}

} // verus!
