//! Serving files over HTTP: byte ranges, headers and content types.

use vstd::prelude::*;
use vstd::string::StringExecFns;

use crate::path;
use crate::text;

verus! {

// ---------------------------------------------------------------------------
// Ranges
// ---------------------------------------------------------------------------

/// A byte that a header value may hold as text.
pub open spec fn is_visible(b: u8) -> bool {
    (32 <= b < 127) || b == 9
}

/// The text of a header value; `None` when it holds anything but visible
/// ASCII.
pub open spec fn header_text(value: Seq<u8>) -> Option<Seq<char>> {
    if forall|i: int| 0 <= i < value.len() ==> is_visible(#[trigger] value[i]) {
        Some(Seq::new(value.len(), |i: int| value[i] as char))
    } else {
        None
    }
}

/// The range that one `first-last` specification asks for in a file of
/// `total` bytes: from `first` to `last` or the end, or the last bytes when
/// `first` is left out.
pub open spec fn range_of_spec(first: Seq<char>, last: Seq<char>, total: u64) -> Option<(u64, u64)> {
    let max = u64::MAX as nat;
    if first.len() == 0 && last.len() > 0 {
        match text::unsigned_in(last, max) {
            Some(n) => if n == 0 {
                None
            } else if n >= total {
                Some((0u64, (total - 1) as u64))
            } else {
                Some(((total - n) as u64, (total - 1) as u64))
            },
            None => None,
        }
    } else {
        match text::unsigned_in(first, max) {
            None => None,
            Some(start) => {
                let end = if last.len() == 0 {
                    Some((total - 1) as nat)
                } else {
                    text::unsigned_in(last, max)
                };
                match end {
                    None => None,
                    Some(e) => if start > e || start >= total {
                        None
                    } else if e >= total {
                        Some((start as u64, (total - 1) as u64))
                    } else {
                        Some((start as u64, e as u64))
                    },
                }
            },
        }
    }
}

/// The range that a header value asks for; only its first specification
/// counts.
pub open spec fn range_of_text(s: Seq<char>, total: u64) -> Option<(u64, u64)> {
    if !"bytes="@.is_prefix_of(s) {
        None
    } else {
        let rest = s.skip("bytes="@.len() as int);
        let part = rest.take(text::first_of(rest, ','));
        let dash = text::first_of(part, '-');
        if dash >= part.len() {
            None
        } else {
            range_of_spec(
                text::trimmed(part.take(dash)),
                text::trimmed(part.skip(dash + 1)),
                total,
            )
        }
    }
}

/// The range that a header asks for in a file of `total` bytes.
pub open spec fn range_of(value: Seq<u8>, total: u64) -> Option<(u64, u64)> {
    if total == 0 {
        None
    } else {
        match header_text(value) {
            None => None,
            Some(s) => range_of_text(s, total),
        }
    }
}

/// The text of a header value.
pub fn visible_text(value: &Vec<u8>) -> (r: Option<String>)
    ensures
        text::opt_view(r) == header_text(value@),
{
    let mut out = String::new();
    let ghost whole = Seq::new(value@.len(), |i: int| value@[i] as char);
    for i in 0..value.len()
        invariant
            whole == Seq::new(value@.len(), |j: int| value@[j] as char),
            out@ == whole.take(i as int),
            forall|j: int| 0 <= j < i ==> is_visible(#[trigger] value@[j]),
    {
        let b: u8 = value[i];
        if !((32 <= b && b < 127) || b == 9) {
            assert(!is_visible(value@[i as int]));
            return None;
        }
        out.push(b as char);
        assert(whole.take(i + 1) =~= whole.take(i as int).push(whole[i as int]));
    }
    assert(whole.take(value@.len() as int) =~= whole);
    Some(out)
}

fn spec_range(first: &String, last: &String, total: u64) -> (r: Option<(u64, u64)>)
    requires
        total > 0,
    ensures
        r == range_of_spec(first@, last@, total),
{
    if text::is_blank(first.as_str()) && !text::is_blank(last.as_str()) {
        return match text::parse_u64(last.as_str()) {
            Some(n) => {
                if n == 0 {
                    None
                } else if n >= total {
                    Some((0, total - 1))
                } else {
                    Some((total - n, total - 1))
                }
            },
            None => None,
        };
    }
    match text::parse_u64(first.as_str()) {
        None => None,
        Some(start) => {
            let end = if text::is_blank(last.as_str()) {
                Some(total - 1)
            } else {
                text::parse_u64(last.as_str())
            };
            match end {
                None => None,
                Some(e) => {
                    if start > e || start >= total {
                        None
                    } else if e >= total {
                        Some((start, total - 1))
                    } else {
                        Some((start, e))
                    }
                },
            }
        },
    }
}

/// The first and last byte that a `Range` header asks for in a file of
/// `total` bytes; `None` when it cannot be satisfied.
pub fn parse_range(value: &Vec<u8>, total: u64) -> (r: Option<(u64, u64)>)
    ensures
        r == range_of(value@, total),
{
    if total == 0 {
        return None;
    }
    match visible_text(value) {
        None => None,
        Some(s) => match text::strip_prefix(s.as_str(), "bytes=") {
            None => None,
            Some(rest) => {
                let v = text::chars_of(rest.as_str());
                assert(v@.skip(0) =~= rest@);
                let comma: usize = text::find_char(&v, ',', 0);
                let part = text::text_between(&v, 0, comma);
                assert(part@ =~= rest@.take(comma as int));
                match text::split_once(part.as_str(), '-') {
                    None => None,
                    Some((a, b)) => {
                        let first = text::trim(a.as_str());
                        let last = text::trim(b.as_str());
                        spec_range(&first, &last, total)
                    },
                }
            },
        },
    }
}

/// A range that is served lies within the file and is not empty.
pub proof fn range_is_within_file(value: Seq<u8>, total: u64)
    ensures
        range_of(value, total) matches Some((start, end)) ==> start <= end < total,
{
}

/// `bytes=first-last` as text, for a range that is written out.
pub open spec fn written_range(start: u64, end: u64) -> Seq<char> {
    "bytes="@ + text::decimal(start as nat) + "-"@ + text::decimal(end as nat)
}

proof fn lemma_decimal_is_plain(n: nat)
    ensures
        text::is_trimmed(text::decimal(n)),
        text::lacks(text::decimal(n), '-'),
        text::lacks(text::decimal(n), ','),
{
    text::decimal_denotes(n);
    let s = text::decimal(n);
    assert forall|i: int| 0 <= i < s.len() implies #[trigger] s[i] != '-' && s[i] != ',' by {
        assert(text::is_digit(s[i]));
    }
    assert(text::is_digit(s[0]));
    assert(text::is_digit(s[s.len() - 1]));
}

/// A range within the file that is asked for in so many words is served as
/// asked.
pub proof fn written_range_is_served(start: u64, end: u64, total: u64)
    requires
        start <= end < total,
    ensures
        range_of_text(written_range(start, end), total) == Some((start, end)),
{
    reveal_strlit("bytes=");
    reveal_strlit("-");
    let a = text::decimal(start as nat);
    let b = text::decimal(end as nat);
    let s = written_range(start, end);
    lemma_decimal_is_plain(start as nat);
    lemma_decimal_is_plain(end as nat);
    text::written_number_reads_back(start as nat, u64::MAX as nat);
    text::written_number_reads_back(end as nat, u64::MAX as nat);
    text::decimal_denotes(start as nat);
    text::decimal_denotes(end as nat);
    assert("bytes="@.is_prefix_of(s)) by {
        assert(s.subrange(0, 6) =~= "bytes="@);
    }
    let rest = s.skip(6);
    assert(rest =~= a + seq!['-'] + b);
    assert forall|i: int| 0 <= i < rest.len() implies #[trigger] rest[i] != ',' by {
        if i < a.len() {
            assert(a[i] != ',');
        } else if i > a.len() {
            assert(b[i - a.len() - 1] != ',');
        }
    }
    text::lemma_first_of(rest, ',');
    assert(rest.take(rest.len() as int) =~= rest);
    text::lemma_first_of_joint(a, '-', b);
    assert(rest.take(a.len() as int) =~= a);
    assert(rest.skip(a.len() as int + 1) =~= b);
    text::lemma_trimmed(a);
    text::lemma_trimmed(b);
}

// ---------------------------------------------------------------------------
// Responses
// ---------------------------------------------------------------------------

/// How a request for a file is answered.
#[derive(Debug, Clone, Copy, PartialEq, Eq, Structural)]
pub enum ServePlan {
    /// The whole file.
    Whole { total: u64 },
    /// `len` bytes from `start` to `end`.
    Partial { start: u64, end: u64, len: u64, total: u64 },
    /// Wait until the file has more than `start` bytes, then plan again.
    Await { start: u64, end: u64, total: u64 },
    /// The range makes no sense.
    Invalid { total: u64 },
    /// The range starts behind what is written so far.
    PastEnd { total: u64 },
}

/// The part of a range that is written so far.
pub open spec fn clipped(start: u64, end: u64, total: u64, actual: u64) -> ServePlan {
    let last: u64 = if end < actual - 1 {
        end
    } else {
        (actual - 1) as u64
    };
    ServePlan::Partial { start, end: last, len: (last - start + 1) as u64, total }
}

pub open spec fn larger(a: u64, b: u64) -> u64 {
    if a >= b {
        a
    } else {
        b
    }
}

/// How a request for a file is answered of which `actual` bytes are written
/// and which is expected to have `expected` in the end.
pub open spec fn planned(range: Option<Seq<u8>>, expected: u64, actual: u64) -> ServePlan {
    let total = larger(expected, actual);
    match range {
        None => ServePlan::Whole { total },
        Some(v) => match range_of(v, total) {
            None => ServePlan::Invalid { total },
            Some((start, end)) => if start >= actual {
                ServePlan::Await { start, end, total }
            } else {
                clipped(start, end, total, actual)
            },
        },
    }
}

fn clip(start: u64, end: u64, total: u64, actual: u64) -> (r: ServePlan)
    requires
        start <= end,
        start < actual,
    ensures
        r == clipped(start, end, total, actual),
{
    let last: u64 = if end < actual - 1 {
        end
    } else {
        actual - 1
    };
    ServePlan::Partial { start, end: last, len: last - start + 1, total }
}

/// How a request for a file is answered. `expected_total` is the size that the
/// file will have, or zero when it is complete; `actual` is its size now.
pub fn serve_file_with_range(range: Option<Vec<u8>>, expected_total: u64, actual: u64) -> (r:
    ServePlan)
    ensures
        r == planned(
            match range {
                Some(v) => Some(v@),
                None => None,
            },
            expected_total,
            actual,
        ),
{
    let total: u64 = if expected_total >= actual {
        expected_total
    } else {
        actual
    };
    match range {
        None => ServePlan::Whole { total },
        Some(v) => {
            proof {
                range_is_within_file(v@, total);
            }
            match parse_range(&v, total) {
                None => ServePlan::Invalid { total },
                Some((start, end)) => {
                    if start >= actual {
                        ServePlan::Await { start, end, total }
                    } else {
                        clip(start, end, total, actual)
                    }
                },
            }
        },
    }
}

/// The answer after a wait: what is written by now, or nothing.
pub fn serve_after_wait(start: u64, end: u64, total: u64, actual: u64) -> (r: ServePlan)
    requires
        start <= end,
    ensures
        r == if start >= actual {
            ServePlan::PastEnd { total }
        } else {
            clipped(start, end, total, actual)
        },
{
    if start >= actual {
        ServePlan::PastEnd { total }
    } else {
        clip(start, end, total, actual)
    }
}

/// How a request for a complete stream of `total` bytes is answered.
pub fn serve_stream(range: Option<Vec<u8>>, total: u64) -> (r: ServePlan)
    ensures
        r == planned(
            match range {
                Some(v) => Some(v@),
                None => None,
            },
            0,
            total,
        ),
        r !is Await,
{
    if let Some(v) = &range {
        proof {
            range_is_within_file(v@, total);
        }
    }
    serve_file_with_range(range, 0, total)
}

/// What a wait for a growing file finds: its size when it is large enough or
/// when time is up, nothing yet otherwise.
pub fn wait_for_size(size: u64, min_size: u64, expired: bool) -> (r: Option<u64>)
    ensures
        r == if size >= min_size || expired {
            Some(size)
        } else {
            None
        },
{
    if size >= min_size || expired {
        Some(size)
    } else {
        None
    }
}

/// What is served lies within what is written, and is as long as announced.
pub proof fn served_part_is_written(range: Option<Seq<u8>>, expected: u64, actual: u64)
    ensures
        planned(range, expected, actual) matches ServePlan::Partial { start, end, len, total }
            ==> start <= end < actual <= total && len == end - start + 1,
{
    if let Some(v) = range {
        range_is_within_file(v, larger(expected, actual));
    }
}

/// A complete file is served without waiting, and a range of it in full.
pub proof fn complete_file_is_served_in_full(range: Seq<u8>, actual: u64)
    ensures
        match range_of(range, actual) {
            Some((start, end)) => planned(Some(range), 0, actual) == (ServePlan::Partial {
                start,
                end,
                len: (end - start + 1) as u64,
                total: actual,
            }),
            None => planned(Some(range), 0, actual) == (ServePlan::Invalid { total: actual }),
        },
{
    range_is_within_file(range, actual);
}

/// The model of a list of headers.
pub open spec fn header_views(h: Seq<(String, String)>) -> Seq<(Seq<char>, Seq<char>)> {
    Seq::new(h.len(), |i: int| (h[i].0@, h[i].1@))
}

pub open spec fn content_range(start: u64, end: u64, total: u64) -> Seq<char> {
    "bytes "@ + text::decimal(start as nat) + "-"@ + text::decimal(end as nat) + "/"@
        + text::decimal(total as nat)
}

pub open spec fn media_headers(len: u64, mime: Seq<char>, range: Option<(u64, u64, u64)>) -> Seq<
    (Seq<char>, Seq<char>),
> {
    let base = seq![
        ("content-type"@, mime),
        ("content-length"@, text::decimal(len as nat)),
        ("accept-ranges"@, "bytes"@),
        ("cache-control"@, "no-store"@),
    ];
    match range {
        Some((start, end, total)) => base.push(
            ("content-range"@, content_range(start, end, total)),
        ),
        None => base,
    }
}

fn push_header(h: &mut Vec<(String, String)>, name: &str, value: String)
    ensures
        header_views(final(h)@) == header_views(old(h)@).push((name@, value@)),
{
    let ghost before = header_views(h@);
    let ghost v = value@;
    h.push((name.to_string(), value));
    assert(header_views(h@) =~= before.push((name@, v)));
}

/// The headers of a media response; never to be kept by a cache.
pub fn build_headers(len: u64, mime: &str, range: Option<(u64, u64, u64)>) -> (r: Vec<
    (String, String),
>)
    ensures
        header_views(r@) == media_headers(len, mime@, range),
{
    let mut h: Vec<(String, String)> = Vec::new();
    assert(header_views(h@) =~= seq![]);
    push_header(&mut h, "content-type", mime.to_string());
    push_header(&mut h, "content-length", text::decimal_u64(len));
    push_header(&mut h, "accept-ranges", "bytes".to_string());
    push_header(&mut h, "cache-control", "no-store".to_string());
    assert(header_views(h@) =~= media_headers(len, mime@, None));
    match range {
        Some((start, end, total)) => {
            let mut v = "bytes ".to_string();
            v.append(text::decimal_u64(start).as_str());
            v.append("-");
            v.append(text::decimal_u64(end).as_str());
            v.append("/");
            v.append(text::decimal_u64(total).as_str());
            push_header(&mut h, "content-range", v);
        },
        None => {},
    }
    h
}

/// Status, headers and, for a refused range, the body of a response.
pub struct ResponseHead {
    pub status: u16,
    pub headers: Vec<(String, String)>,
    pub message: Option<String>,
}

pub open spec fn unsatisfiable_headers(total: u64) -> Seq<(Seq<char>, Seq<char>)> {
    seq![("content-range"@, "bytes */"@ + text::decimal(total as nat))]
}

/// The head of the response to a plan; a plan to wait has none yet.
pub fn response_head(plan: ServePlan, mime: &str) -> (r: Option<ResponseHead>)
    ensures
        match plan {
            ServePlan::Await { .. } => r is None,
            ServePlan::Whole { total } => r is Some && r->0.status == 200 && r->0.message is None
                && header_views(r->0.headers@) == media_headers(total, mime@, None),
            ServePlan::Partial { start, end, len, total } => r is Some && r->0.status == 206
                && r->0.message is None && header_views(r->0.headers@) == media_headers(
                len,
                mime@,
                Some((start, end, total)),
            ),
            ServePlan::Invalid { total } => r is Some && r->0.status == 416 && text::opt_view(
                r->0.message,
            ) == Some("invalid range"@) && header_views(r->0.headers@) == unsatisfiable_headers(
                total,
            ),
            ServePlan::PastEnd { total } => r is Some && r->0.status == 416 && text::opt_view(
                r->0.message,
            ) == Some("range past current EOF"@) && header_views(r->0.headers@)
                == unsatisfiable_headers(total),
        },
{
    match plan {
        ServePlan::Await { .. } => None,
        ServePlan::Whole { total } => Some(
            ResponseHead { status: 200, headers: build_headers(total, mime, None), message: None },
        ),
        ServePlan::Partial { start, end, len, total } => Some(
            ResponseHead {
                status: 206,
                headers: build_headers(len, mime, Some((start, end, total))),
                message: None,
            },
        ),
        ServePlan::Invalid { total } => Some(
            ResponseHead {
                status: 416,
                headers: refusal_headers(total),
                message: Some("invalid range".to_string()),
            },
        ),
        ServePlan::PastEnd { total } => Some(
            ResponseHead {
                status: 416,
                headers: refusal_headers(total),
                message: Some("range past current EOF".to_string()),
            },
        ),
    }
}

fn refusal_headers(total: u64) -> (r: Vec<(String, String)>)
    ensures
        header_views(r@) == unsatisfiable_headers(total),
{
    let mut h: Vec<(String, String)> = Vec::new();
    let mut v = "bytes */".to_string();
    v.append(text::decimal_u64(total).as_str());
    push_header(&mut h, "content-range", v);
    assert(header_views(h@) =~= unsatisfiable_headers(total));
    h
}

// ---------------------------------------------------------------------------
// Content types
// ---------------------------------------------------------------------------

/// The extension of a path in lower case.
pub open spec fn lower_extension(p: Seq<char>) -> Option<Seq<char>> {
    match path::extension_of(p) {
        Some(e) => Some(text::lowered(e)),
        None => None,
    }
}

fn extension_lower(p: &str) -> (r: Option<String>)
    ensures
        text::opt_view(r) == lower_extension(p@),
{
    match path::extension(p) {
        Some(e) => Some(text::to_ascii_lowercase(e.as_str())),
        None => None,
    }
}

pub open spec fn hls_mime_of(ext: Option<Seq<char>>) -> Seq<char> {
    match ext {
        None => "application/octet-stream"@,
        Some(e) => if e == "m3u8"@ {
            "application/vnd.apple.mpegurl"@
        } else if e == "ts"@ {
            "video/mp2t"@
        } else if e == "m4s"@ || e == "mp4"@ {
            "video/mp4"@
        } else {
            "application/octet-stream"@
        },
    }
}

/// Content type of a file of a playlist.
pub fn guess_hls_mime(asset: &str) -> (r: &'static str)
    ensures
        r@ == hls_mime_of(lower_extension(asset@)),
{
    match extension_lower(asset) {
        None => "application/octet-stream",
        Some(e) => {
            let x = e.as_str();
            if text::same_text(x, "m3u8") {
                "application/vnd.apple.mpegurl"
            } else if text::same_text(x, "ts") {
                "video/mp2t"
            } else if text::same_text(x, "m4s") || text::same_text(x, "mp4") {
                "video/mp4"
            } else {
                "application/octet-stream"
            }
        },
    }
}

pub open spec fn mime_of(ext: Option<Seq<char>>) -> Seq<char> {
    match ext {
        None => "application/octet-stream"@,
        Some(e) => if e == "mp4"@ || e == "m4v"@ {
            "video/mp4"@
        } else if e == "mkv"@ {
            "video/x-matroska"@
        } else if e == "webm"@ {
            "video/webm"@
        } else if e == "avi"@ {
            "video/x-msvideo"@
        } else if e == "mov"@ {
            "video/quicktime"@
        } else if e == "ts"@ || e == "mts"@ || e == "m2ts"@ {
            "video/mp2t"@
        } else if e == "mp3"@ {
            "audio/mpeg"@
        } else if e == "flac"@ {
            "audio/flac"@
        } else if e == "aac"@ {
            "audio/aac"@
        } else if e == "ogg"@ || e == "oga"@ {
            "audio/ogg"@
        } else if e == "srt"@ {
            "application/x-subrip"@
        } else {
            "application/octet-stream"@
        },
    }
}

/// Content type of a file, by its extension.
pub fn mime_for_filename(p: &str) -> (r: String)
    ensures
        r@ == mime_of(lower_extension(p@)),
{
    match extension_lower(p) {
        None => "application/octet-stream".to_string(),
        Some(e) => {
            let x = e.as_str();
            let m = if text::same_text(x, "mp4") || text::same_text(x, "m4v") {
                "video/mp4"
            } else if text::same_text(x, "mkv") {
                "video/x-matroska"
            } else if text::same_text(x, "webm") {
                "video/webm"
            } else if text::same_text(x, "avi") {
                "video/x-msvideo"
            } else if text::same_text(x, "mov") {
                "video/quicktime"
            } else if text::same_text(x, "ts") || text::same_text(x, "mts") || text::same_text(
                x,
                "m2ts",
            ) {
                "video/mp2t"
            } else if text::same_text(x, "mp3") {
                "audio/mpeg"
            } else if text::same_text(x, "flac") {
                "audio/flac"
            } else if text::same_text(x, "aac") {
                "audio/aac"
            } else if text::same_text(x, "ogg") || text::same_text(x, "oga") {
                "audio/ogg"
            } else if text::same_text(x, "srt") {
                "application/x-subrip"
            } else {
                "application/octet-stream"
            };
            m.to_string()
        },
    }
}

/// Content type of a file of a torrent, of which the path may be unknown.
pub fn guess_mime(p: Option<&str>) -> (r: String)
    ensures
        r@ == mime_of(
            lower_extension(
                match p {
                    Some(s) => s@,
                    None => ""@,
                },
            ),
        ),
{
    match p {
        Some(s) => mime_for_filename(s),
        None => mime_for_filename(""),
    }
}

/// Whether a file of a playlist is itself a playlist.
pub open spec fn is_playlist(asset: Seq<char>) -> bool {
    lower_extension(asset) == Some("m3u8"@)
}

/// How long a file of a playlist may be cached: playlists are rewritten and
/// never, segments do not change and for a week.
pub fn asset_cache_control(asset: &str) -> (r: &'static str)
    ensures
        r@ == if is_playlist(asset@) {
            "no-store"@
        } else {
            "public, max-age=604800, immutable"@
        },
{
    match extension_lower(asset) {
        Some(e) => {
            if text::same_text(e.as_str(), "m3u8") {
                "no-store"
            } else {
                "public, max-age=604800, immutable"
            }
        },
        None => "public, max-age=604800, immutable",
    }
}

// ---------------------------------------------------------------------------
// Laws
// ---------------------------------------------------------------------------

/// A header is text where all its bytes are visible ASCII, blanks or tabs; it is
/// then the text of these bytes.
pub proof fn visible_bytes_are_text(value: &Vec<u8>, r: Option<String>)
    requires
        call_ensures(visible_text, (value,), r),
    ensures
        r is Some == forall|i: int|
            0 <= i < value@.len() ==> (#[trigger] value@[i] == 9) || 32 <= value@[i] <= 126,
        r is Some ==> r->0@.len() == value@.len(),
        forall|i: int|
            r is Some && 0 <= i < value@.len() ==> (#[trigger] r->0@[i]) as u32 == value@[i],
{
    if r is Some {
        assert forall|i: int| 0 <= i < value@.len() implies (#[trigger] value@[i] == 9) || 32
            <= value@[i] <= 126 by {
            assert(is_visible(value@[i]));
        }
    } else {
        let i = choose|i: int| 0 <= i < value@.len() && !is_visible(value@[i]);
        assert(value@[i] == value@[i]);
    }
}

proof fn lemma_first_specification(
    s: Seq<char>,
    a: Seq<char>,
    b: Seq<char>,
    rest: Seq<char>,
    total: u64,
)
    requires
        s == "bytes="@ + (a + seq!['-'] + b + rest),
        !a.contains('-') && !a.contains(',') && !b.contains(','),
        rest.len() == 0 || rest[0] == ',',
    ensures
        range_of_text(s, total) == range_of_spec(text::trimmed(a), text::trimmed(b), total),
{
    let h = "bytes="@;
    let body = a + seq!['-'] + b + rest;
    assert(s.skip(h.len() as int) =~= body);
    assert(s.subrange(0, h.len() as int) =~= h);
    let spec_text = a + seq!['-'] + b;
    text::lemma_first_of(body, ',');
    let c = text::first_of(body, ',');
    assert(text::lacks(spec_text, ',')) by {
        assert forall|i: int| 0 <= i < spec_text.len() implies #[trigger] spec_text[i] != ',' by {
            if i < a.len() {
                assert(a.contains(a[i]));
            } else if i > a.len() {
                assert(b.contains(b[i - a.len() - 1]));
            }
        }
    }
    if rest.len() == 0 {
        assert(body =~= spec_text);
    } else {
        assert(body =~= spec_text + seq![','] + rest.skip(1));
        text::lemma_first_of_joint(spec_text, ',', rest.skip(1));
    }
    assert(c == spec_text.len());
    assert(body.take(c) =~= spec_text);
    assert(text::lacks(a, '-')) by {
        assert forall|i: int| 0 <= i < a.len() implies #[trigger] a[i] != '-' by {
            assert(a.contains(a[i]));
        }
    }
    text::lemma_first_of_joint(a, '-', b);
    assert(spec_text.take(a.len() as int) =~= a);
    assert(spec_text.skip(a.len() as int + 1) =~= b);
}

/// What the first specification of a range asks for. `first` and `last` are
/// what stands before and behind its dash, without white space. A number before
/// the dash is where the range starts, one behind it where it ends, at the end
/// of the file at the latest; with nothing behind it the range goes to the end,
/// and with nothing before it it is of so many bytes from the end, of all where
/// there are fewer. A range that starts behind its end or behind the file, that
/// is of no bytes, or that is not made of numbers cannot be satisfied, nor can
/// any of an empty file.
pub proof fn range_is_read_as_written(
    value: &Vec<u8>,
    total: u64,
    t: Option<String>,
    a: Seq<char>,
    b: Seq<char>,
    rest: Seq<char>,
    x: Option<nat>,
    y: Option<nat>,
    r: Option<(u64, u64)>,
)
    requires
        call_ensures(visible_text, (value,), t),
        call_ensures(parse_range, (value, total), r),
        t is Some,
        t->0@ == "bytes="@ + (a + seq!['-'] + b + rest),
        !a.contains('-') && !a.contains(',') && !b.contains(','),
        rest.len() == 0 || rest[0] == ',',
        x == text::unsigned_in(text::trimmed(a), u64::MAX as nat),
        y == text::unsigned_in(text::trimmed(b), u64::MAX as nat),
    ensures
        total == 0 ==> r is None,
        total > 0 && text::trimmed(a).len() > 0 && text::trimmed(b).len() > 0 ==> {
            &&& r is Some == (x is Some && y is Some && x->0 <= y->0 && x->0 < total)
            &&& r is Some ==> (r->0).0 == x->0 && (y->0 < total ==> (r->0).1 == y->0) && (y->0
                >= total ==> (r->0).1 == total - 1)
        },
        total > 0 && text::trimmed(a).len() > 0 && text::trimmed(b).len() == 0 ==> {
            &&& r is Some == (x is Some && x->0 < total)
            &&& r is Some ==> (r->0).0 == x->0 && (r->0).1 == total - 1
        },
        total > 0 && text::trimmed(a).len() == 0 && text::trimmed(b).len() > 0 ==> {
            &&& r is Some == (y is Some && y->0 > 0)
            &&& r is Some ==> (r->0).1 == total - 1 && (y->0 < total ==> (r->0).0 == total - y->0)
                && (y->0 >= total ==> (r->0).0 == 0)
        },
        text::trimmed(a).len() == 0 && text::trimmed(b).len() == 0 ==> r is None,
{
    lemma_first_specification(t->0@, a, b, rest, total);
    assert(header_text(value@) == Some(t->0@));
    if total > 0 {
        assert(r == range_of_spec(text::trimmed(a), text::trimmed(b), total));
    }
    if text::trimmed(a).len() == 0 {
        assert(x is None);
    }
}

/// A header that is no text, does not ask for bytes, or whose first
/// specification has no dash asks for no range.
pub proof fn only_byte_ranges_are_read(
    value: &Vec<u8>,
    total: u64,
    t: Option<String>,
    body: Seq<char>,
    r: Option<(u64, u64)>,
)
    requires
        call_ensures(visible_text, (value,), t),
        call_ensures(parse_range, (value, total), r),
    ensures
        t is None ==> r is None,
        t is Some && !"bytes="@.is_prefix_of(t->0@) ==> r is None,
        t is Some && t->0@ == "bytes="@ + body && !body.contains('-') ==> r is None,
        r is Some ==> (r->0).0 <= (r->0).1 < total,
{
    range_is_within_file(value@, total);
    if t is Some && t->0@ == "bytes="@ + body && !body.contains('-') && total > 0 {
        let s = t->0@;
        assert(s.skip("bytes="@.len() as int) =~= body);
        let part = body.take(text::first_of(body, ','));
        text::lemma_first_of(body, ',');
        text::lemma_first_of(part, '-');
        assert(text::lacks(part, '-')) by {
            assert forall|i: int| 0 <= i < part.len() implies #[trigger] part[i] != '-' by {
                assert(body.contains(body[i]));
            }
        }
    }
}

/// A request without a range gets the whole file, which is as large as is
/// expected or as is written already. A range that cannot be satisfied is
/// refused; one that starts behind what is written is waited for; of any other
/// what is written of it is served.
pub proof fn what_is_written_is_served(
    range: Option<Vec<u8>>,
    expected: u64,
    actual: u64,
    total: u64,
    asked: Option<(u64, u64)>,
    r: ServePlan,
)
    requires
        total >= expected && total >= actual && (total == expected || total == actual),
        range is Some ==> call_ensures(parse_range, (&range->0, total), asked),
        call_ensures(serve_file_with_range, (range, expected, actual), r),
    ensures
        range is None ==> r == (ServePlan::Whole { total }),
        range is Some && asked is None ==> r == (ServePlan::Invalid { total }),
        range is Some && asked is Some && (asked->0).0 >= actual ==> r == (ServePlan::Await {
            start: (asked->0).0,
            end: (asked->0).1,
            total,
        }),
        range is Some && asked is Some && (asked->0).0 < actual ==> r is Partial
            && r->Partial_start == (asked->0).0 && r->Partial_total == total && r->len
            == r->Partial_end - r->Partial_start + 1 && r->Partial_end <= (asked->0).1
            && r->Partial_end < actual && (r->Partial_end == (asked->0).1 || r->Partial_end
            == actual - 1),
{
    if range is Some {
        range_is_within_file(range->0@, total);
    }
}

/// After a wait what is written by then is served, and nothing where the range
/// starts behind it.
pub proof fn wait_ends_with_what_is_written(
    start: u64,
    end: u64,
    total: u64,
    actual: u64,
    r: ServePlan,
)
    requires
        start <= end,
        call_ensures(serve_after_wait, (start, end, total, actual), r),
    ensures
        start >= actual ==> r == (ServePlan::PastEnd { total }),
        start < actual ==> r is Partial && r->Partial_start == start && r->Partial_total == total
            && r->len == r->Partial_end - r->Partial_start + 1 && r->Partial_end <= end
            && r->Partial_end < actual && (r->Partial_end == end || r->Partial_end == actual - 1),
{
}

/// A complete stream is served like a complete file, without waiting.
pub proof fn stream_is_served_like_a_file(
    range: Option<Vec<u8>>,
    total: u64,
    file: ServePlan,
    r: ServePlan,
)
    requires
        call_ensures(serve_file_with_range, (range, 0u64, total), file),
        call_ensures(serve_stream, (range, total), r),
    ensures
        r == file,
        !(r is Await),
{
}

/// A wait is over where the file is large enough or time is up, and tells how
/// large the file is.
pub proof fn wait_is_over_in_time(size: u64, min: u64, expired: bool, r: Option<u64>)
    requires
        call_ensures(wait_for_size, (size, min, expired), r),
    ensures
        r is Some == (expired || min <= size),
        r is Some ==> r->0 == size,
{
}

/// Headers hold a name with a value.
pub open spec fn tells(h: Seq<(String, String)>, name: Seq<char>, value: Seq<char>) -> bool {
    exists|i: int| 0 <= i < h.len() && (#[trigger] h[i]).0@ == name && h[i].1@ == value
}

proof fn lemma_tells(h: Seq<(String, String)>, i: int, name: Seq<char>, value: Seq<char>)
    requires
        0 <= i < header_views(h).len(),
        header_views(h)[i] == (name, value),
    ensures
        tells(h, name, value),
{
    assert(h[i].0@ == name);
}

/// A response tells its type and its length, that ranges can be asked for and
/// that it is not to be kept; a part tells which, and only a part does.
pub proof fn response_tells_what_it_holds(
    len: u64,
    mime: &str,
    range: Option<(u64, u64, u64)>,
    n: String,
    first: String,
    last: String,
    all: String,
    r: Vec<(String, String)>,
)
    requires
        call_ensures(text::decimal_u64, (len,), n),
        range is Some ==> call_ensures(text::decimal_u64, ((range->0).0,), first) && call_ensures(
            text::decimal_u64,
            ((range->0).1,),
            last,
        ) && call_ensures(text::decimal_u64, ((range->0).2,), all),
        call_ensures(build_headers, (len, mime, range), r),
    ensures
        tells(r@, "content-type"@, mime@),
        tells(r@, "content-length"@, n@),
        tells(r@, "accept-ranges"@, "bytes"@),
        tells(r@, "cache-control"@, "no-store"@),
        range is Some ==> tells(
            r@,
            "content-range"@,
            "bytes "@ + first@ + "-"@ + last@ + "/"@ + all@,
        ),
        range is None ==> r@.len() == 4,
        range is Some ==> r@.len() == 5,
{
    let v = header_views(r@);
    assert(v.len() == r@.len());
    lemma_tells(r@, 0, "content-type"@, mime@);
    lemma_tells(r@, 1, "content-length"@, n@);
    lemma_tells(r@, 2, "accept-ranges"@, "bytes"@);
    lemma_tells(r@, 3, "cache-control"@, "no-store"@);
    if range is Some {
        lemma_tells(r@, 4, "content-range"@, "bytes "@ + first@ + "-"@ + last@ + "/"@ + all@);
    }
}

/// The whole is answered by 200, a part by 206 with its range, a range that
/// cannot be satisfied by 416 with the size of the file; a wait is not answered
/// yet.
pub proof fn answer_tells_what_is_served(
    plan: ServePlan,
    mime: &str,
    headers: Vec<(String, String)>,
    size: String,
    r: Option<ResponseHead>,
)
    requires
        plan is Whole ==> call_ensures(
            build_headers,
            (plan->Whole_total, mime, None::<(u64, u64, u64)>),
            headers,
        ),
        plan is Partial ==> call_ensures(
            build_headers,
            (
                plan->len,
                mime,
                Some((plan->Partial_start, plan->Partial_end, plan->Partial_total)),
            ),
            headers,
        ),
        plan is Invalid ==> call_ensures(text::decimal_u64, (plan->Invalid_total,), size),
        plan is PastEnd ==> call_ensures(text::decimal_u64, (plan->PastEnd_total,), size),
        call_ensures(response_head, (plan, mime), r),
    ensures
        r is None == plan is Await,
        plan is Whole ==> r->0.status == 200 && r->0.message is None,
        plan is Partial ==> r->0.status == 206 && r->0.message is None,
        plan is Whole || plan is Partial ==> header_views(r->0.headers@) == header_views(
            headers@,
        ),
        plan is Invalid || plan is PastEnd ==> r->0.status == 416 && r->0.message is Some && tells(
            r->0.headers@,
            "content-range"@,
            "bytes */"@ + size@,
        ),
{
    if plan is Invalid || plan is PastEnd {
        assert(header_views(r->0.headers@).len() == r->0.headers@.len());
        lemma_tells(r->0.headers@, 0, "content-range"@, "bytes */"@ + size@);
    }
}

proof fn lemma_extension_words()
    ensures
        "m3u8"@ != "ts"@ && "m3u8"@ != "m4s"@ && "m3u8"@ != "mp4"@ && "ts"@ != "m4s"@ && "ts"@
            != "mp4"@,
        "mkv"@ != "mp4"@ && "mkv"@ != "m4v"@,
        "webm"@ != "mp4"@ && "webm"@ != "m4v"@ && "webm"@ != "mkv"@,
        "avi"@ != "mp4"@ && "avi"@ != "m4v"@ && "avi"@ != "mkv"@ && "avi"@ != "webm"@,
        "mov"@ != "mp4"@ && "mov"@ != "m4v"@ && "mov"@ != "mkv"@ && "mov"@ != "webm"@ && "mov"@
            != "avi"@,
        "ts"@ != "m4v"@ && "ts"@ != "mkv"@ && "ts"@ != "webm"@ && "ts"@ != "avi"@ && "ts"@
            != "mov"@,
        "srt"@ != "mp4"@ && "srt"@ != "m4v"@ && "srt"@ != "mkv"@ && "srt"@ != "webm"@ && "srt"@
            != "avi"@ && "srt"@ != "mov"@ && "srt"@ != "ts"@ && "srt"@ != "mts"@ && "srt"@
            != "m2ts"@ && "srt"@ != "mp3"@ && "srt"@ != "flac"@ && "srt"@ != "aac"@ && "srt"@
            != "ogg"@ && "srt"@ != "oga"@,
{
    reveal_strlit("m3u8");
    reveal_strlit("ts");
    reveal_strlit("m4s");
    reveal_strlit("mp4");
    reveal_strlit("mkv");
    reveal_strlit("m4v");
    reveal_strlit("webm");
    reveal_strlit("avi");
    reveal_strlit("mov");
    reveal_strlit("srt");
    reveal_strlit("mts");
    reveal_strlit("m2ts");
    reveal_strlit("mp3");
    reveal_strlit("flac");
    reveal_strlit("aac");
    reveal_strlit("ogg");
    reveal_strlit("oga");
    assert("m3u8"@.len() == 4 && "ts"@.len() == 2 && "m4s"@.len() == 3 && "mp4"@.len() == 3);
    assert("mkv"@.len() == 3 && "m4v"@.len() == 3 && "webm"@.len() == 4 && "avi"@.len() == 3
        && "mov"@.len() == 3 && "srt"@.len() == 3 && "mts"@.len() == 3 && "m2ts"@.len() == 4);
    assert("mp4"@[0] == 'm' && "mp4"@[1] == 'p' && "mkv"@[1] == 'k' && "m4v"@[1] == '4'
        && "mov"@[1] == 'o' && "avi"@[0] == 'a' && "mkv"@[0] == 'm' && "mov"@[0] == 'm'
        && "m4v"@[0] == 'm');
    assert("srt"@[0] == 's' && "mts"@[0] == 'm' && "mp3"@[0] == 'm' && "aac"@[0] == 'a'
        && "ogg"@[0] == 'o' && "oga"@[0] == 'o' && "flac"@.len() == 4);
}

/// The type of a file goes by its extension in either case: the containers of
/// video and the formats of audio have theirs, what has none or another is mere
/// bytes.
pub proof fn type_goes_by_extension(
    p: &str,
    ext: Option<String>,
    low: Seq<char>,
    r: String,
)
    requires
        call_ensures(path::extension, (p,), ext),
        ext is Some ==> low == text::lowered(ext->0@),
        call_ensures(mime_for_filename, (p,), r),
    ensures
        ext is None ==> r@ == "application/octet-stream"@,
        ext is Some && (low == "mp4"@ || low == "m4v"@) ==> r@ == "video/mp4"@,
        ext is Some && low == "mkv"@ ==> r@ == "video/x-matroska"@,
        ext is Some && low == "webm"@ ==> r@ == "video/webm"@,
        ext is Some && low == "avi"@ ==> r@ == "video/x-msvideo"@,
        ext is Some && low == "mov"@ ==> r@ == "video/quicktime"@,
        ext is Some && low == "ts"@ ==> r@ == "video/mp2t"@,
        ext is Some && low == "srt"@ ==> r@ == "application/x-subrip"@,
        r@ == "application/octet-stream"@ || low.len() <= 4,
{
    lemma_extension_words();
    reveal_strlit("mp4");
    reveal_strlit("m4v");
    reveal_strlit("mkv");
    reveal_strlit("webm");
    reveal_strlit("avi");
    reveal_strlit("mov");
    reveal_strlit("ts");
    reveal_strlit("mts");
    reveal_strlit("m2ts");
    reveal_strlit("mp3");
    reveal_strlit("flac");
    reveal_strlit("aac");
    reveal_strlit("ogg");
    reveal_strlit("oga");
    reveal_strlit("srt");
}

/// A file of unknown path is mere bytes; one of a known path has its type.
pub proof fn unknown_path_is_mere_bytes(p: &str, named: String, known: String, unknown: String)
    requires
        call_ensures(mime_for_filename, (p,), named),
        call_ensures(guess_mime, (Some(p),), known),
        call_ensures(guess_mime, (None::<&str>,), unknown),
    ensures
        known@ == named@,
        unknown@ == "application/octet-stream"@,
{
    reveal_strlit("");
    let e = ""@;
    assert(e.len() == 0);
    let segments = text::pieces(e, '/');
    text::lemma_first_of(e, '/');
    assert(segments =~= seq![e]);
    assert(e =~= Seq::empty());
    reveal_with_fuel(path::last_named, 2);
    assert(segments[0] == ""@);
}

/// Of the files of a stream the playlists, the segments of either kind and
/// nothing else have types; playlists are never kept, everything else is for a
/// week.
pub proof fn playlists_are_never_kept(
    asset: &str,
    ext: Option<String>,
    low: Seq<char>,
    mime: &'static str,
    keep: &'static str,
)
    requires
        call_ensures(path::extension, (asset,), ext),
        ext is Some ==> low == text::lowered(ext->0@),
        call_ensures(guess_hls_mime, (asset,), mime),
        call_ensures(asset_cache_control, (asset,), keep),
    ensures
        ext is Some && low == "m3u8"@ ==> mime@ == "application/vnd.apple.mpegurl"@ && keep@
            == "no-store"@,
        ext is None || low != "m3u8"@ ==> keep@ == "public, max-age=604800, immutable"@,
        ext is Some && low == "ts"@ ==> mime@ == "video/mp2t"@,
        ext is Some && (low == "m4s"@ || low == "mp4"@) ==> mime@ == "video/mp4"@,
        ext is None || (low != "m3u8"@ && low != "ts"@ && low != "m4s"@ && low != "mp4"@) ==> mime@
            == "application/octet-stream"@,
{
    lemma_extension_words();
}

} // verus!
