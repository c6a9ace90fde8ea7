//! Parsing of WebDAV multi-status listings into files and folders.

use vstd::prelude::*;
use crate::text::{
    between, between_exec, chars_of, contains, find, find_exec, parse_u64, parse_u64_exec,
    pieces_view, rfind_char, slice_of, split_exec, split_pieces, starts_with, starts_with_exec,
    string_of, trim_end_char, trim_end_char_exec, trim_start_char, trim_start_char_exec,
    url_decode, url_decoded, same_chars, upper_of, lower_of, uppercase, lowercase,
};

verus! {

/// One entry of a directory listing.
#[derive(Clone, Debug)]
pub struct WebDAVItem {
    pub name: String,
    /// Path relative to the configured source.
    pub path: String,
    pub is_dir: bool,
    pub size: u64,
    pub modified: String,
}

/// The mathematical content of a [`WebDAVItem`].
pub struct ItemView {
    pub name: Seq<char>,
    pub path: Seq<char>,
    pub is_dir: bool,
    pub size: u64,
    pub modified: Seq<char>,
}

impl View for WebDAVItem {
    type V = ItemView;

    open spec fn view(&self) -> ItemView {
        ItemView {
            name: self.name@,
            path: self.path@,
            is_dir: self.is_dir,
            size: self.size,
            modified: self.modified@,
        }
    }
}

pub open spec fn items_view(v: Seq<WebDAVItem>) -> Seq<ItemView> {
    v.map_values(|i: WebDAVItem| i@)
}

pub open spec fn or_empty(o: Option<Seq<char>>) -> Seq<char> {
    match o {
        Some(s) => s,
        None => Seq::empty(),
    }
}

/// The part of `s` after its last `/`; all of `s` when it has none.
pub open spec fn after_last_slash(s: Seq<char>) -> Seq<char> {
    match rfind_char(s, '/') {
        Some(k) => s.skip(k + 1),
        None => s,
    }
}

/// The display name of an entry at `path`: its last segment, percent-decoded
/// when the decoding yields text.
pub open spec fn name_from_path(path: Seq<char>) -> Seq<char> {
    if path.len() == 0 || path == "/"@ {
        Seq::empty()
    } else {
        let clean = trim_end_char(path, '/');
        match url_decoded(clean) {
            Some(d) => after_last_slash(d),
            None => after_last_slash(clean),
        }
    }
}

/// The path of an entry relative to the configured source `base`: a `/dav/`
/// mount prefix and the source's own sub-directory are removed, as is `base`
/// itself or else the leading slashes.
pub open spec fn item_path(href: Seq<char>, base: Seq<char>) -> Seq<char> {
    if starts_with(href, "/dav/"@) {
        let after_dav = href.skip(5);
        let sub = match find(base, "/dav/"@) {
            Some(pos) => trim_start_char(base.skip(pos + 5), '/'),
            None => Seq::empty(),
        };
        if sub.len() > 0 && starts_with(after_dav, sub) {
            trim_start_char(after_dav.skip(sub.len() as int), '/')
        } else {
            after_dav
        }
    } else if starts_with(href, base) {
        href.skip(base.len() as int)
    } else {
        trim_start_char(href, '/')
    }
}

/// The size an entry reports: the content length of its first property
/// block, 0 when that block gives none or an unreadable one.
pub open spec fn size_of_part(clean: Seq<char>) -> u64 {
    match find(clean, "<D:propstat>"@) {
        None => 0,
        Some(ps) => {
            let sec = clean.skip(ps);
            match find(sec, "<D:prop>"@) {
                None => 0,
                Some(fp) => {
                    let after = sec.skip(fp + 8);
                    match find(after, "</D:prop>"@) {
                        None => 0,
                        Some(fe) => {
                            let content = after.take(fe);
                            match between(
                                content,
                                "<D:getcontentlength>"@,
                                "</D:getcontentlength>"@,
                            ) {
                                Some(t) => match parse_u64(t) {
                                    Some(v) => v,
                                    None => 0,
                                },
                                None => 0,
                            }
                        },
                    }
                },
            }
        },
    }
}

/// The entry that one `<D:response` part describes, if it is complete and named.
pub open spec fn part_item(part: Seq<char>, base: Seq<char>) -> Seq<ItemView> {
    match find(part, "</D:response>"@) {
        None => Seq::empty(),
        Some(e) => {
            let clean = part.take(e);
            let href = or_empty(between(clean, "<D:href>"@, "</D:href>"@));
            let dn = or_empty(between(clean, "<D:displayname>"@, "</D:displayname>"@));
            let name = if dn.len() > 0 {
                dn
            } else {
                name_from_path(href)
            };
            if href.len() > 0 && href != "/"@ && name.len() > 0 {
                seq![
                    ItemView {
                        name,
                        path: item_path(href, base),
                        is_dir: contains(clean, "<D:collection"@),
                        size: size_of_part(clean),
                        modified: or_empty(
                            between(clean, "<D:getlastmodified>"@, "</D:getlastmodified>"@),
                        ),
                    },
                ]
            } else {
                Seq::empty()
            }
        },
    }
}

pub open spec fn items_of_parts(parts: Seq<Seq<char>>, base: Seq<char>) -> Seq<ItemView>
    decreases parts.len(),
{
    if parts.len() == 0 {
        Seq::empty()
    } else {
        part_item(parts[0], base) + items_of_parts(parts.drop_first(), base)
    }
}

/// The entries of a multi-status listing, in the order of the listing.
pub open spec fn webdav_items(response: Seq<char>, base: Seq<char>) -> Seq<ItemView> {
    items_of_parts(split_pieces(response, "<D:response"@).drop_first(), base)
}

/// A line of the listing without one trailing carriage return.
pub open spec fn strip_cr(l: Seq<char>) -> Seq<char> {
    if l.len() > 0 && l.last() == '\r' {
        l.drop_last()
    } else {
        l
    }
}

/// The file reference on one line: the text after `<D:href>` up to
/// `</D:href>` (or the line's end); kept when non-empty and not a folder.
pub open spec fn line_href(line: Seq<char>) -> Seq<Seq<char>> {
    match find(line, "<D:href>"@) {
        None => Seq::empty(),
        Some(a) => {
            let start = a + 8;
            let end = match find(line, "</D:href>"@) {
                Some(b) => b,
                None => line.len() as int,
            };
            if end < start {
                Seq::empty()
            } else {
                let h = line.subrange(start, end);
                if h.len() > 0 && h.last() != '/' {
                    seq![h]
                } else {
                    Seq::empty()
                }
            }
        },
    }
}

pub open spec fn hrefs_of_lines(lines: Seq<Seq<char>>) -> Seq<Seq<char>>
    decreases lines.len(),
{
    if lines.len() == 0 {
        Seq::empty()
    } else {
        line_href(strip_cr(lines[0])) + hrefs_of_lines(lines.drop_first())
    }
}

/// The file references of a listing, line by line.
pub open spec fn response_hrefs(response: Seq<char>) -> Seq<Seq<char>> {
    hrefs_of_lines(split_pieces(response, "\n"@))
}

pub open spec fn strings_view(v: Seq<String>) -> Seq<Seq<char>> {
    v.map_values(|s: String| s@)
}

fn lit(s: &str) -> (r: Vec<char>)
    ensures
        r@ == s@,
{
    chars_of(s)
}

pub(crate) fn after_last_slash_exec(s: &Vec<char>) -> (r: Vec<char>)
    ensures
        r@ == after_last_slash(s@),
{
    let mut n: usize = s.len();
    while n > 0
        invariant
            n <= s.len(),
            rfind_char(s@, '/') == crate::text::last_index_before(s@, '/', n as int),
        decreases n,
    {
        if s[n - 1] == '/' {
            let r = slice_of(s, n, s.len());
            assert(r@ =~= s@.skip(n as int));
            return r;
        }
        n -= 1;
    }
    slice_of(s, 0, s.len())
}

/// The display name of an entry at `path`.
pub fn extract_name_from_path(path: &str) -> (r: String)
    ensures
        r@ == name_from_path(path@),
{
    let p = chars_of(path);
    proof {
        reveal_strlit("/");
    }
    if p.len() == 0 || same_chars(&p, &lit("/")) {
        return String::new();
    }
    let clean = trim_end_char_exec(&p, '/');
    let clean_s = string_of(&clean);
    match url_decode(clean_s.as_str()) {
        Some(d) => string_of(&after_last_slash_exec(&chars_of(d.as_str()))),
        None => string_of(&after_last_slash_exec(&clean)),
    }
}

fn item_path_exec(href: &Vec<char>, base: &Vec<char>) -> (r: Vec<char>)
    ensures
        r@ == item_path(href@, base@),
{
    proof {
        reveal_strlit("/dav/");
    }
    let dav = lit("/dav/");
    if starts_with_exec(href, &dav) {
        let after_dav = slice_of(href, 5, href.len());
        assert(after_dav@ =~= href@.skip(5));
        let sub = match find_exec(base, &dav) {
            Some(pos) => {
                let t = slice_of(base, pos + 5, base.len());
                assert(t@ =~= base@.skip(pos + 5));
                trim_start_char_exec(&t, '/')
            },
            None => Vec::new(),
        };
        assert(sub@ == (match find(base@, "/dav/"@) {
            Some(pos) => trim_start_char(base@.skip(pos + 5), '/'),
            None => Seq::<char>::empty(),
        }));
        if sub.len() > 0 && starts_with_exec(&after_dav, &sub) {
            let t = slice_of(&after_dav, sub.len(), after_dav.len());
            assert(t@ =~= after_dav@.skip(sub@.len() as int));
            trim_start_char_exec(&t, '/')
        } else {
            after_dav
        }
    } else if starts_with_exec(href, base) {
        let t = slice_of(href, base.len(), href.len());
        assert(t@ =~= href@.skip(base@.len() as int));
        t
    } else {
        trim_start_char_exec(href, '/')
    }
}

fn size_of_part_exec(clean: &Vec<char>) -> (r: u64)
    ensures
        r == size_of_part(clean@),
{
    proof {
        reveal_strlit("<D:propstat>");
        reveal_strlit("<D:prop>");
        reveal_strlit("</D:prop>");
        reveal_strlit("<D:getcontentlength>");
        reveal_strlit("</D:getcontentlength>");
    }
    let ps = match find_exec(clean, &lit("<D:propstat>")) {
        None => return 0,
        Some(k) => k,
    };
    let sec = slice_of(clean, ps, clean.len());
    assert(sec@ =~= clean@.skip(ps as int));
    let fp = match find_exec(&sec, &lit("<D:prop>")) {
        None => return 0,
        Some(k) => k,
    };
    let after = slice_of(&sec, fp + 8, sec.len());
    assert(after@ =~= sec@.skip(fp + 8));
    let fe = match find_exec(&after, &lit("</D:prop>")) {
        None => return 0,
        Some(k) => k,
    };
    let content = slice_of(&after, 0, fe);
    assert(content@ =~= after@.take(fe as int));
    match between_exec(&content, &lit("<D:getcontentlength>"), &lit("</D:getcontentlength>")) {
        Some(t) => match parse_u64_exec(&t) {
            Some(v) => v,
            None => 0,
        },
        None => 0,
    }
}

fn text_between(s: &Vec<char>, open: &str, close: &str) -> (r: Vec<char>)
    ensures
        r@ == or_empty(between(s@, open@, close@)),
{
    match between_exec(s, &lit(open), &lit(close)) {
        Some(t) => t,
        None => Vec::new(),
    }
}

fn part_item_exec(part: &Vec<char>, base: &Vec<char>) -> (r: Option<WebDAVItem>)
    ensures
        match r {
            Some(i) => part_item(part@, base@) == seq![i@],
            None => part_item(part@, base@) == Seq::<ItemView>::empty(),
        },
{
    proof {
        reveal_strlit("</D:response>");
        reveal_strlit("<D:collection");
        reveal_strlit("/");
    }
    let e = match find_exec(part, &lit("</D:response>")) {
        None => return None,
        Some(k) => k,
    };
    let clean = slice_of(part, 0, e);
    assert(clean@ =~= part@.take(e as int));
    let href = text_between(&clean, "<D:href>", "</D:href>");
    let dn = text_between(&clean, "<D:displayname>", "</D:displayname>");
    let name: Vec<char> = if dn.len() > 0 {
        dn
    } else {
        chars_of(extract_name_from_path(string_of(&href).as_str()).as_str())
    };
    if href.len() > 0 && !same_chars(&href, &lit("/")) && name.len() > 0 {
        let path = item_path_exec(&href, base);
        let is_dir = find_exec(&clean, &lit("<D:collection")).is_some();
        let size = size_of_part_exec(&clean);
        let modified = text_between(&clean, "<D:getlastmodified>", "</D:getlastmodified>");
        Some(
            WebDAVItem {
                name: string_of(&name),
                path: string_of(&path),
                is_dir,
                size,
                modified: string_of(&modified),
            },
        )
    } else {
        None
    }
}

/// The entries of a multi-status listing from the source configured at `base_url`.
pub fn parse_webdav_items(response: &str, base_url: &str) -> (r: Vec<WebDAVItem>)
    ensures
        items_view(r@) == webdav_items(response@, base_url@),
{
    proof {
        reveal_strlit("<D:response");
    }
    let parts = split_exec(&chars_of(response), &lit("<D:response"));
    let base = chars_of(base_url);
    let ghost pv = pieces_view(parts@);
    let mut out: Vec<WebDAVItem> = Vec::new();
    if parts.len() == 0 {
        return out;
    }
    let mut i: usize = 1;
    assert(pv.drop_first() =~= pv.skip(1));
    while i < parts.len()
        invariant
            1 <= i <= parts.len(),
            pv == pieces_view(parts@),
            base@ == base_url@,
            items_view(out@) + items_of_parts(pv.skip(i as int), base@) == items_of_parts(
                pv.skip(1),
                base@,
            ),
        decreases parts.len() - i,
    {
        let ghost before = items_view(out@);
        assert(pv.skip(i as int).drop_first() =~= pv.skip(i + 1));
        assert(pv.skip(i as int)[0] == parts@[i as int]@);
        match part_item_exec(&parts[i], &base) {
            Some(it) => {
                out.push(it);
                assert(items_view(out@) =~= before + part_item(parts@[i as int]@, base@));
            },
            None => {
                assert(before + part_item(parts@[i as int]@, base@) =~= before);
            },
        }
        assert(items_view(out@) + items_of_parts(pv.skip(i + 1), base@) =~= before + items_of_parts(
            pv.skip(i as int),
            base@,
        ));
        i += 1;
    }
    assert(pv.skip(i as int) =~= Seq::<Seq<char>>::empty());
    assert(items_view(out@) + Seq::<ItemView>::empty() =~= items_view(out@));
    out
}

fn line_href_exec(line: &Vec<char>) -> (r: Option<Vec<char>>)
    ensures
        match r {
            Some(h) => line_href(line@) == seq![h@],
            None => line_href(line@) == Seq::<Seq<char>>::empty(),
        },
{
    proof {
        reveal_strlit("<D:href>");
        reveal_strlit("</D:href>");
    }
    let a = match find_exec(line, &lit("<D:href>")) {
        None => return None,
        Some(k) => k,
    };
    let start = a + 8;
    let end = match find_exec(line, &lit("</D:href>")) {
        Some(b) => b,
        None => line.len(),
    };
    if end < start {
        return None;
    }
    let h = slice_of(line, start, end);
    if h.len() > 0 && h[h.len() - 1] != '/' {
        Some(h)
    } else {
        None
    }
}

/// The file references (`<D:href>` values not ending in `/`) of a listing,
/// one per line at most.
pub fn parse_webdav_response(response: &str) -> (r: Vec<String>)
    ensures
        strings_view(r@) == response_hrefs(response@),
{
    proof {
        reveal_strlit("\n");
    }
    let lines = split_exec(&chars_of(response), &lit("\n"));
    let ghost lv = pieces_view(lines@);
    let mut out: Vec<String> = Vec::new();
    let mut i: usize = 0;
    assert(lv.skip(0) =~= lv);
    while i < lines.len()
        invariant
            i <= lines.len(),
            lv == pieces_view(lines@),
            strings_view(out@) + hrefs_of_lines(lv.skip(i as int)) == hrefs_of_lines(lv),
        decreases lines.len() - i,
    {
        let ghost before = strings_view(out@);
        assert(lv.skip(i as int).drop_first() =~= lv.skip(i + 1));
        assert(lv.skip(i as int)[0] == lines@[i as int]@);
        let l = &lines[i];
        let stripped = if l.len() > 0 && l[l.len() - 1] == '\r' {
            slice_of(l, 0, l.len() - 1)
        } else {
            slice_of(l, 0, l.len())
        };
        assert(stripped@ =~= strip_cr(l@));
        match line_href_exec(&stripped) {
            Some(h) => {
                out.push(string_of(&h));
                assert(strings_view(out@) =~= before + line_href(strip_cr(l@)));
            },
            None => {
                assert(before + line_href(strip_cr(l@)) =~= before);
            },
        }
        assert(strings_view(out@) + hrefs_of_lines(lv.skip(i + 1)) =~= before + hrefs_of_lines(
            lv.skip(i as int),
        ));
        i += 1;
    }
    assert(lv.skip(i as int) =~= Seq::<Seq<char>>::empty());
    assert(strings_view(out@) + Seq::<Seq<char>>::empty() =~= strings_view(out@));
    out
}

fn concat3(a: &Vec<char>, b: &Vec<char>, c: &Vec<char>) -> (r: Vec<char>)
    ensures
        r@ == a@ + b@ + c@,
{
    let mut out = slice_of(a, 0, a.len());
    assert(out@ =~= a@);
    let mut i: usize = 0;
    while i < b.len()
        invariant
            i <= b.len(),
            out@ == a@ + b@.take(i as int),
        decreases b.len() - i,
    {
        out.push(b[i]);
        i += 1;
        assert(out@ =~= a@ + b@.take(i as int));
    }
    assert(b@.take(i as int) =~= b@);
    let mut j: usize = 0;
    while j < c.len()
        invariant
            j <= c.len(),
            out@ == a@ + b@ + c@.take(j as int),
        decreases c.len() - j,
    {
        out.push(c[j]);
        j += 1;
        assert(out@ =~= a@ + b@ + c@.take(j as int));
    }
    assert(c@.take(j as int) =~= c@);
    out
}

/// The opening tags tried, in order, for element `tag`.
pub open spec fn xml_patterns(tag: Seq<char>) -> Seq<Seq<char>> {
    seq![
        "<D:"@ + upper_of(tag) + ">"@,
        "<d:"@ + lower_of(tag) + ">"@,
        "<D:"@ + lower_of(tag) + ">"@,
        "<"@ + tag + ">"@,
    ]
}

/// The text after the first of `pats` from index `i` on that is followed by `end`.
pub open spec fn content_with(xml: Seq<char>, pats: Seq<Seq<char>>, end: Seq<char>, i: int) -> Option<
    Seq<char>,
>
    decreases pats.len() - i,
{
    if i < 0 || i >= pats.len() {
        None
    } else {
        match between(xml, pats[i], end) {
            Some(t) => Some(t),
            None => content_with(xml, pats, end, i + 1),
        }
    }
}

/// The text of element `tag` in `xml`: the opening tag is tried as `<D:TAG>`,
/// `<d:tag>`, `<D:tag>` and `<tag>`, and the element closes with `</TAG>`.
pub open spec fn xml_content(xml: Seq<char>, tag: Seq<char>) -> Option<Seq<char>> {
    content_with(xml, xml_patterns(tag), "</"@ + upper_of(tag) + ">"@, 0)
}

/// The text of element `tag` in `xml`, if one of its spellings is found.
pub fn extract_xml_content(xml: &str, tag: &str) -> (r: Option<String>)
    ensures
        match r {
            Some(t) => xml_content(xml@, tag@) == Some(t@),
            None => xml_content(xml@, tag@) is None,
        },
{
    let x = chars_of(xml);
    let up = chars_of(uppercase(tag).as_str());
    let low = chars_of(lowercase(tag).as_str());
    let t = chars_of(tag);
    let close = lit(">");
    let pats: Vec<Vec<char>> = vec![
        concat3(&lit("<D:"), &up, &close),
        concat3(&lit("<d:"), &low, &close),
        concat3(&lit("<D:"), &low, &close),
        concat3(&lit("<"), &t, &close),
    ];
    let end = concat3(&lit("</"), &up, &close);
    let ghost pv = xml_patterns(tag@);
    assert(pieces_view(pats@) =~= pv);
    let mut i: usize = 0;
    while i < pats.len()
        invariant
            i <= pats.len(),
            pieces_view(pats@) == pv,
            pats.len() == pv.len(),
            x@ == xml@,
            end@ == "</"@ + upper_of(tag@) + ">"@,
            xml_content(xml@, tag@) == content_with(xml@, pv, end@, i as int),
        decreases pats.len() - i,
    {
        assert(pats@[i as int]@ == pv[i as int]);
        match between_exec(&x, &pats[i], &end) {
            Some(c) => return Some(string_of(&c)),
            None => {},
        }
        i += 1;
    }
    None
}

/// How a connectivity probe of a remote source came out.
#[derive(Clone, Copy, Debug, PartialEq, Eq, Structural)]
pub enum ProbeError {
    /// The server asks to slow down (HTTP 429).
    TooManyRequests,
    /// The server answers, but the path does not exist (HTTP 404).
    NotFound,
    /// Any other status.
    Status(u16),
}

/// The verdict on the status of a probe request: success, and also 401
/// (authentication required) and 405 (method not allowed), mean that the
/// server is reachable.
pub open spec fn probe_verdict(status: u16) -> Result<(), ProbeError> {
    if (200 <= status <= 299) || status == 401 || status == 405 {
        Ok(())
    } else if status == 429 {
        Err(ProbeError::TooManyRequests)
    } else if status == 404 {
        Err(ProbeError::NotFound)
    } else {
        Err(ProbeError::Status(status))
    }
}

/// Judges the answer to a connectivity probe by its HTTP status.
pub fn check_probe_status(status: u16) -> (r: Result<(), ProbeError>)
    ensures
        r == probe_verdict(status),
{
    if (200 <= status && status <= 299) || status == 401 || status == 405 {
        Ok(())
    } else if status == 429 {
        Err(ProbeError::TooManyRequests)
    } else if status == 404 {
        Err(ProbeError::NotFound)
    } else {
        Err(ProbeError::Status(status))
    }
}

/// File name endings of the audio formats the player offers.
pub open spec fn audio_suffixes() -> Seq<Seq<char>> {
    seq![".mp3"@, ".wav"@, ".flac"@, ".ogg"@, ".m4a"@]
}

/// Whether a file name, in any letter case, ends like an audio file.
pub open spec fn is_audio_name(name: Seq<char>) -> bool {
    exists|i: int| 0 <= i < audio_suffixes().len() && crate::text::ends_with(lower_of(name), #[trigger] audio_suffixes()[i])
}

/// Whether `filename` names an audio file (`.mp3`, `.wav`, `.flac`, `.ogg`, `.m4a`, any case).
pub fn is_audio_file(filename: &str) -> (r: bool)
    ensures
        r == is_audio_name(filename@),
{
    let low = chars_of(lowercase(filename).as_str());
    let sufs: Vec<Vec<char>> = vec![lit(".mp3"), lit(".wav"), lit(".flac"), lit(".ogg"), lit(".m4a")];
    assert(pieces_view(sufs@) =~= audio_suffixes());
    let mut i: usize = 0;
    while i < sufs.len()
        invariant
            i <= sufs.len(),
            pieces_view(sufs@) == audio_suffixes(),
            sufs.len() == 5,
            low@ == lower_of(filename@),
            forall|k: int| 0 <= k < i ==> !crate::text::ends_with(lower_of(filename@), audio_suffixes()[k]),
        decreases sufs.len() - i,
    {
        assert(sufs@[i as int]@ == audio_suffixes()[i as int]);
        if crate::text::ends_with_exec(&low, &sufs[i]) {
            return true;
        }
        i += 1;
    }
    false
}

} // verus!
