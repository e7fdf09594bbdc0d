//! What the desktop app decides about the text it is handed: a launch argument,
//! a pasted source, a magnet link's display name, and the HTML it writes.
use vstd::prelude::*;
use crate::model::{DownloadKind, DownloadRequest, request_new};
use crate::planner::{first_where, lemma_first_where};
use crate::text::{
    chars_of, ends_with, find_first, find_last, first_occurrence, has_prefix, has_suffix, last_index_of,
    lower_chars, lower_seq, push_char, push_str, starts_with, string_from_chars, string_from_range, trim,
    trim_bounds,
};

verus! {

/// `s` cut at every `c` (`str::split`): always at least one part.
pub open spec fn split_on(s: Seq<char>, c: char) -> Seq<Seq<char>>
    decreases s.len(),
{
    if s.len() == 0 {
        seq![Seq::empty()]
    } else {
        let p = split_on(s.drop_last(), c);
        if s.last() == c {
            p.push(Seq::empty())
        } else {
            p.update(p.len() - 1, p.last().push(s.last()))
        }
    }
}

pub(crate) proof fn lemma_split_nonempty(s: Seq<char>, c: char)
    ensures
        split_on(s, c).len() >= 1,
    decreases s.len(),
{
    if s.len() > 0 {
        lemma_split_nonempty(s.drop_last(), c);
    }
}

pub(crate) fn split_chars(v: &Vec<char>, c: char) -> (r: Vec<Vec<char>>)
    ensures
        r@.len() == split_on(v@, c).len(),
        forall|i: int| 0 <= i < r@.len() ==> (#[trigger] r@[i])@ == split_on(v@, c)[i],
{
    let mut parts: Vec<Vec<char>> = Vec::new();
    parts.push(Vec::new());
    let mut i: usize = 0;
    assert(v@.take(0) =~= Seq::<char>::empty());
    while i < v.len()
        invariant
            i <= v.len(),
            parts@.len() == split_on(v@.take(i as int), c).len(),
            parts@.len() >= 1,
            forall|j: int| 0 <= j < parts@.len() ==> (#[trigger] parts@[j])@ == split_on(v@.take(i as int), c)[j],
        decreases v.len() - i,
    {
        let ghost prev = v@.take(i as int);
        assert(v@.take(i + 1).drop_last() =~= prev);
        proof {
            lemma_split_nonempty(prev, c);
        }
        if v[i] == c {
            parts.push(Vec::new());
            assert(parts@.last()@ =~= Seq::<char>::empty());
        } else {
            let last = parts.len() - 1;
            let ghost before_parts = parts@;
            let mut piece = parts.pop().unwrap();
            piece.push(v[i]);
            parts.push(piece);
            assert forall|j: int| 0 <= j < parts@.len() implies (#[trigger] parts@[j])@ == split_on(v@.take(i + 1), c)[j] by {
                if j < last {
                    assert(parts@[j] == before_parts[j]);
                }
            }
        }
        i += 1;
    }
    assert(v@.take(v.len() as int) =~= v@);
    parts
}

// ---------------------------------------------------------------- magnet names

/// What follows the first `?` of a link.
pub open spec fn query_of(link: Seq<char>) -> Option<Seq<char>> {
    match first_occurrence(link, "?"@) {
        Some(k) => Some(link.subrange(k + 1, link.len() as int)),
        None => None,
    }
}

/// `+` read as a space.
pub open spec fn decode_plus(v: Seq<char>) -> Seq<char> {
    v.map_values(|c: char|
        if c == '+' {
            ' '
        } else {
            c
        })
}

/// A `dn=` parameter whose decoded value is not blank.
pub open spec fn is_display_name_param(part: Seq<char>) -> bool {
    starts_with(part, "dn="@) && trim(decode_plus(part.subrange(3, part.len() as int))).len() > 0
}

/// An `xt=urn:btih:` parameter with a non-empty hash.
pub open spec fn is_hash_param(part: Seq<char>) -> bool {
    starts_with(part, "xt=urn:btih:"@) && part.len() > 12
}

/// A magnet link's display name: its first non-blank `dn=` value with `+` read as
/// a space, else `magnet-` and the first twelve characters of its first info hash
/// and `.torrent`; `None` where it has no query or neither parameter.
pub open spec fn magnet_name_view(link: Seq<char>) -> Option<Seq<char>> {
    match query_of(link) {
        None => None,
        Some(q) => {
            let parts = split_on(q, '&');
            match first_where(parts, |p: Seq<char>| is_display_name_param(p)) {
                Some(i) => Some(decode_plus(parts[i].subrange(3, parts[i].len() as int))),
                None => match first_where(parts, |p: Seq<char>| is_hash_param(p)) {
                    Some(i) => {
                        let value = parts[i].subrange(12, parts[i].len() as int);
                        Some("magnet-"@ + value.subrange(0, if value.len() < 12 { value.len() as int } else { 12 })
                            + ".torrent"@)
                    },
                    None => None,
                },
            }
        },
    }
}

fn decoded_value(part: &Vec<char>, from: usize) -> (r: Vec<char>)
    requires
        from <= part.len(),
    ensures
        r@ == decode_plus(part@.subrange(from as int, part@.len() as int)),
{
    let mut r: Vec<char> = Vec::new();
    let mut i = from;
    while i < part.len()
        invariant
            from <= i <= part.len(),
            r@ == decode_plus(part@.subrange(from as int, i as int)),
        decreases part.len() - i,
    {
        let c = part[i];
        r.push(if c == '+' { ' ' } else { c });
        assert(decode_plus(part@.subrange(from as int, i + 1)) =~= decode_plus(part@.subrange(from as int, i as int)).push(
            if c == '+' { ' ' } else { c },
        ));
        i += 1;
    }
    r
}

pub fn infer_magnet_display_name(magnet_uri: &str) -> (r: Option<String>)
    ensures
        match r {
            Some(s) => magnet_name_view(magnet_uri@) == Some(s@),
            None => magnet_name_view(magnet_uri@) is None,
        },
{
    let chars = chars_of(magnet_uri);
    let question = chars_of("?");
    let k = match find_first(&chars, &question) {
        Some(k) => k,
        None => return None,
    };
    proof {
        reveal_strlit("?");
    }
    let query = chars_of(string_from_range(&chars, k + 1, chars.len()).as_str());
    let parts = split_chars(&query, '&');
    let ghost ps = split_on(query@, '&');
    assert(query_of(magnet_uri@) == Some(query@));
    let dn = chars_of("dn=");
    let xt = chars_of("xt=urn:btih:");
    proof {
        reveal_strlit("dn=");
        reveal_strlit("xt=urn:btih:");
    }
    let mut i: usize = 0;
    while i < parts.len()
        invariant
            i <= parts@.len(),
            parts@.len() == ps.len(),
            forall|j: int| 0 <= j < parts@.len() ==> (#[trigger] parts@[j])@ == ps[j],
            dn@ == "dn="@,
            dn@.len() == 3,
            query_of(magnet_uri@) == Some(query@),
            ps == split_on(query@, '&'),
            forall|j: int| 0 <= j < i ==> !(|p: Seq<char>| is_display_name_param(p))(#[trigger] ps[j]),
        decreases parts@.len() - i,
    {
        let part = &parts[i];
        assert(part@ == ps[i as int]);
        if has_prefix(part, &dn) {
            let decoded = decoded_value(part, 3);
            let (a, b) = trim_bounds(&decoded);
            if a < b {
                proof {
                    lemma_first_where(ps, |p: Seq<char>| is_display_name_param(p), i as int);
                }
                return Some(string_from_chars(&decoded));
            }
        }
        i += 1;
    }
    proof {
        lemma_first_where(ps, |p: Seq<char>| is_display_name_param(p), i as int);
    }
    let mut j: usize = 0;
    while j < parts.len()
        invariant
            j <= parts@.len(),
            parts@.len() == ps.len(),
            forall|t: int| 0 <= t < parts@.len() ==> (#[trigger] parts@[t])@ == ps[t],
            xt@ == "xt=urn:btih:"@,
            xt@.len() == 12,
            query_of(magnet_uri@) == Some(query@),
            ps == split_on(query@, '&'),
            first_where(ps, |p: Seq<char>| is_display_name_param(p)) is None,
            forall|t: int| 0 <= t < j ==> !(|p: Seq<char>| is_hash_param(p))(#[trigger] ps[t]),
        decreases parts@.len() - j,
    {
        let part = &parts[j];
        assert(part@ == ps[j as int]);
        if has_prefix(part, &xt) && part.len() > 12 {
            proof {
                lemma_first_where(ps, |p: Seq<char>| is_hash_param(p), j as int);
            }
            let end = if part.len() - 12 < 12 {
                part.len()
            } else {
                24
            };
            let mut name = "magnet-".to_owned();
            let short = string_from_range(part, 12, end);
            push_str(&mut name, short.as_str());
            push_str(&mut name, ".torrent");
            assert(part@.subrange(12, end as int) =~= part@.subrange(12, part@.len() as int).subrange(
                0,
                if part@.len() - 12 < 12 { part@.len() - 12 } else { 12 },
            ));
            return Some(name);
        }
        j += 1;
    }
    proof {
        lemma_first_where(ps, |p: Seq<char>| is_hash_param(p), j as int);
    }
    None
}

// ---------------------------------------------------------------- sources

/// A source is a torrent when, trimmed and in lower case, it is a magnet link or
/// names a `.torrent` file.
pub open spec fn download_kind_of(source: Seq<char>) -> DownloadKind {
    let n = lower_seq(trim(source));
    if starts_with(n, "magnet:"@) || ends_with(n, ".torrent"@) {
        DownloadKind::Torrent
    } else {
        DownloadKind::Direct
    }
}

pub(crate) fn trimmed_chars(s: &str) -> (r: Vec<char>)
    ensures
        r@ == trim(s@),
{
    let chars = chars_of(s);
    let (a, b) = trim_bounds(&chars);
    chars_of(string_from_range(&chars, a, b).as_str())
}

pub fn infer_download_kind(source: &str) -> (r: DownloadKind)
    ensures
        r == download_kind_of(source@),
{
    let normalized = lower_chars(&trimmed_chars(source));
    if has_prefix(&normalized, &chars_of("magnet:")) || has_suffix(&normalized, &chars_of(".torrent")) {
        DownloadKind::Torrent
    } else {
        DownloadKind::Direct
    }
}

/// A launch argument that is a magnet link (ignoring case and surrounding
/// whitespace) becomes a torrent request named after the link; anything else is ignored.
pub open spec fn launch_request_view(argument: Seq<char>) -> Option<crate::model::DownloadRequestView> {
    let t = trim(argument);
    if !starts_with(lower_seq(t), "magnet:"@) {
        None
    } else {
        Some(request_new(
            match magnet_name_view(t) {
                Some(n) => n,
                None => "magnet-download.torrent"@,
            },
            t,
            DownloadKind::Torrent,
        ))
    }
}

pub fn parse_launch_request(argument: String) -> (r: Option<DownloadRequest>)
    ensures
        match r {
            Some(req) => launch_request_view(argument@) == Some(req@),
            None => launch_request_view(argument@) is None,
        },
{
    let trimmed_vec = trimmed_chars(argument.as_str());
    if !has_prefix(&lower_chars(&trimmed_vec), &chars_of("magnet:")) {
        return None;
    }
    let trimmed = string_from_chars(&trimmed_vec);
    let file_name = match infer_magnet_display_name(trimmed.as_str()) {
        Some(name) => name,
        None => "magnet-download.torrent".to_owned(),
    };
    Some(DownloadRequest::new(file_name, trimmed, DownloadKind::Torrent))
}

/// Whether pasted text looks like something to download: trimmed and in lower
/// case, an `http://`, `https://`, `ftp://` or `magnet:` link.
pub open spec fn looks_like_source_view(value: Seq<char>) -> bool {
    let l = lower_seq(trim(value));
    starts_with(l, "http://"@) || starts_with(l, "https://"@) || starts_with(l, "ftp://"@) || starts_with(l, "magnet:"@)
}

/// A text that begins with an `http://`, `https://` or `ftp://` URL or a
/// `magnet:` link, in any letter case, looks like something to download,
/// whatever follows the scheme.
pub proof fn lemma_links_look_like_sources(scheme: Seq<char>, rest: Seq<char>)
    requires
        lower_seq(scheme) == "http://"@ || lower_seq(scheme) == "https://"@ || lower_seq(scheme) == "ftp://"@
            || lower_seq(scheme) == "magnet:"@,
    ensures
        looks_like_source_view(scheme + rest),
{
    reveal_strlit("http://");
    reveal_strlit("https://");
    reveal_strlit("ftp://");
    reveal_strlit("magnet:");
    let v = scheme + rest;
    let k = scheme.len() as int;
    assert(lower_seq(scheme).len() == scheme.len());
    assert(k >= 6);
    assert(lower_seq(scheme)[0] == crate::text::ascii_lower(scheme[0]));
    assert(lower_seq(scheme)[k - 1] == crate::text::ascii_lower(scheme[k - 1]));
    assert(!crate::text::is_ws(v[0]));
    assert(!crate::text::is_ws(v[k - 1]));
    assert(crate::text::leading_ws(v) == 0);
    crate::direct::lemma_trailing_ws_bound(v);
    let t = trim(v);
    assert(t == v.subrange(0, v.len() - crate::text::trailing_ws(v)));
    assert(t.subrange(0, k) =~= scheme);
    let l = lower_seq(t);
    assert(l.subrange(0, k) =~= lower_seq(scheme));
}

pub fn looks_like_download_source(value: &str) -> (r: bool)
    ensures
        r == looks_like_source_view(value@),
{
    let lower = lower_chars(&trimmed_chars(value));
    has_prefix(&lower, &chars_of("http://")) || has_prefix(&lower, &chars_of("https://")) || has_prefix(
        &lower,
        &chars_of("ftp://"),
    ) || has_prefix(&lower, &chars_of("magnet:"))
}

/// The name a source suggests: for a torrent its magnet name (else
/// `torrent-download.torrent`); for a direct link the last path segment before
/// any query, unless blank (then `download.bin`).
pub open spec fn display_name_view(source: Seq<char>, kind: DownloadKind) -> Seq<char> {
    if kind == DownloadKind::Torrent {
        match magnet_name_view(source) {
            Some(n) => n,
            None => "torrent-download.torrent"@,
        }
    } else {
        let path = match first_occurrence(source, "?"@) {
            Some(k) => source.subrange(0, k),
            None => source,
        };
        let name = path.subrange(last_index_of(path, '/') + 1, path.len() as int);
        if trim(name).len() == 0 {
            "download.bin"@
        } else {
            name
        }
    }
}

pub fn infer_display_name_from_source(source: &str, kind: DownloadKind) -> (r: String)
    ensures
        r@ == display_name_view(source@, kind),
{
    if kind == DownloadKind::Torrent {
        return match infer_magnet_display_name(source) {
            Some(name) => name,
            None => "torrent-download.torrent".to_owned(),
        };
    }
    let chars = chars_of(source);
    let end = match find_first(&chars, &chars_of("?")) {
        Some(k) => k,
        None => chars.len(),
    };
    let path = chars_of(string_from_range(&chars, 0, end).as_str());
    assert(chars@.subrange(0, chars@.len() as int) =~= chars@);
    let from = match find_last(&path, '/') {
        Some(k) => k + 1,
        None => 0,
    };
    let name = string_from_range(&path, from, path.len());
    let name_chars = chars_of(name.as_str());
    let (a, b) = trim_bounds(&name_chars);
    if a == b {
        "download.bin".to_owned()
    } else {
        name
    }
}

// ---------------------------------------------------------------- HTML

pub open spec fn escape_char(c: char) -> Seq<char> {
    if c == '&' {
        "&amp;"@
    } else if c == '<' {
        "&lt;"@
    } else if c == '>' {
        "&gt;"@
    } else if c == '"' {
        "&quot;"@
    } else {
        seq![c]
    }
}

/// Text made safe inside HTML: `&`, `<`, `>` and `"` become entities.
pub open spec fn html_escaped(s: Seq<char>) -> Seq<char>
    decreases s.len(),
{
    if s.len() == 0 {
        Seq::empty()
    } else {
        html_escaped(s.drop_last()) + escape_char(s.last())
    }
}

pub fn html_escape(value: &str) -> (r: String)
    ensures
        r@ == html_escaped(value@),
{
    let chars = chars_of(value);
    let mut r = String::new();
    let mut i: usize = 0;
    while i < chars.len()
        invariant
            i <= chars.len(),
            chars@ == value@,
            r@ == html_escaped(chars@.take(i as int)),
        decreases chars.len() - i,
    {
        let c = chars[i];
        assert(chars@.take(i + 1).drop_last() =~= chars@.take(i as int));
        if c == '&' {
            push_str(&mut r, "&amp;");
        } else if c == '<' {
            push_str(&mut r, "&lt;");
        } else if c == '>' {
            push_str(&mut r, "&gt;");
        } else if c == '"' {
            push_str(&mut r, "&quot;");
        } else {
            push_char(&mut r, c);
            assert(r@ =~= html_escaped(chars@.take(i as int)) + seq![c]);
        }
        i += 1;
    }
    assert(chars@.take(chars.len() as int) =~= chars@);
    r
}

// ---------------------------------------------------------------- tabs

/// The two tabs of the main window.
#[derive(Debug, Clone, Copy, PartialEq, Eq, Structural)]
pub enum DownloadTab {
    Direct,
    Torrent,
}

impl DownloadTab {
    pub const ALL: [DownloadTab; 2] = [DownloadTab::Direct, DownloadTab::Torrent];

    pub fn label(self) -> (r: &'static str)
        ensures
            self == DownloadTab::Direct ==> r@ == "Direct Downloads"@,
            self == DownloadTab::Torrent ==> r@ == "Torrent Downloads"@,
    {
        match self {
            DownloadTab::Direct => "Direct Downloads",
            DownloadTab::Torrent => "Torrent Downloads",
        }
    }

    pub fn kind(self) -> (r: DownloadKind)
        ensures
            self == DownloadTab::Direct ==> r == DownloadKind::Direct,
            self == DownloadTab::Torrent ==> r == DownloadKind::Torrent,
    {
        match self {
            DownloadTab::Direct => DownloadKind::Direct,
            DownloadTab::Torrent => DownloadKind::Torrent,
        }
    }

    pub fn subtitle(self) -> (r: &'static str)
        ensures
            self == DownloadTab::Direct ==> r@
                == "Manage HTTP and HTTPS file transfers with resume support and browser handoff."@,
            self == DownloadTab::Torrent ==> r@
                == "Manage magnet links and torrent sessions with privacy-aware controls."@,
    {
        match self {
            DownloadTab::Direct => "Manage HTTP and HTTPS file transfers with resume support and browser handoff.",
            DownloadTab::Torrent => "Manage magnet links and torrent sessions with privacy-aware controls.",
        }
    }
}

} // verus!
