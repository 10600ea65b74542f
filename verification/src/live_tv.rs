//! Live television: channels, and the proxy that every stream plays through.

use vstd::prelude::*;

use crate::api_error;
use crate::api_error::{ApiError, Failure};
use crate::path;
use crate::text;

verus! {

/// How the live television service fails.
#[derive(Debug)]
pub enum LiveTvError {
    UnknownCountry,
    UnknownChannel,
    BadProxyRequest,
    Upstream(String),
}

/// How a request fails with the service.
pub fn live_failure(e: LiveTvError) -> (r: ApiError)
    ensures
        r@ == match e {
            LiveTvError::UnknownCountry => Failure::NotFound,
            LiveTvError::UnknownChannel => Failure::NotFound,
            LiveTvError::BadProxyRequest => Failure::BadRequest("invalid proxy request"@),
            LiveTvError::Upstream(m) => Failure::Upstream(m@),
        },
{
    match e {
        LiveTvError::UnknownCountry => ApiError::NotFound,
        LiveTvError::UnknownChannel => ApiError::NotFound,
        LiveTvError::BadProxyRequest => api_error::bad_request("invalid proxy request"),
        LiveTvError::Upstream(m) => ApiError::Upstream(m),
    }
}

// ---------------------------------------------------------------------------
// Channels
// ---------------------------------------------------------------------------

/// A channel of the catalogue; its sources may tell their vertical resolution.
#[derive(Debug)]
pub struct Channel {
    pub id: String,
    pub name: String,
    pub categories: Vec<String>,
    pub source_qualities: Vec<Option<u32>>,
    pub geo_blocked: bool,
    pub not_24_7: bool,
    /// Number on French terrestrial television.
    pub tnt_number: Option<u16>,
}

/// A channel as a client sees it.
#[derive(Debug)]
pub struct LiveChannel {
    pub id: String,
    pub name: String,
    pub logo_url: Option<String>,
    pub categories: Vec<String>,
    /// The best vertical resolution that is known.
    pub quality: Option<u32>,
    pub geo_blocked: bool,
    pub not_24_7: bool,
    pub tnt_number: Option<u16>,
}

/// The highest of the resolutions that are known.
pub open spec fn best_quality(q: Seq<Option<u32>>) -> Option<u32>
    decreases q.len(),
{
    if q.len() == 0 {
        None
    } else {
        match (best_quality(q.drop_last()), q.last()) {
            (Some(a), Some(b)) => if a > b {
                Some(a)
            } else {
                Some(b)
            },
            (None, b) => b,
            (a, None) => a,
        }
    }
}

fn highest_quality(q: &Vec<Option<u32>>) -> (r: Option<u32>)
    ensures
        r == best_quality(q@),
{
    let mut best: Option<u32> = None;
    for i in 0..q.len()
        invariant
            best == best_quality(q@.take(i as int)),
    {
        proof {
            assert(q@.take(i + 1).drop_last() =~= q@.take(i as int));
        }
        match q[i] {
            Some(b) => {
                best = match best {
                    Some(a) => Some(
                        if a > b {
                            a
                        } else {
                            b
                        },
                    ),
                    None => Some(b),
                };
            },
            None => {},
        }
    }
    assert(q@.take(q@.len() as int) =~= q@);
    best
}

/// No source is known to be better than the quality that is shown.
pub proof fn no_source_is_better(q: Seq<Option<u32>>, i: int)
    requires
        0 <= i < q.len(),
        q[i] is Some,
    ensures
        best_quality(q) is Some,
        q[i]->0 <= best_quality(q)->0,
    decreases q.len(),
{
    if i < q.len() - 1 {
        no_source_is_better(q.drop_last(), i);
    }
}

/// A channel as a client sees it, with the address of its logo.
pub fn live_channel(c: Channel, logo_url: Option<String>) -> (r: LiveChannel)
    ensures
        r == (LiveChannel {
            id: c.id,
            name: c.name,
            logo_url,
            categories: c.categories,
            quality: best_quality(c.source_qualities@),
            geo_blocked: c.geo_blocked,
            not_24_7: c.not_24_7,
            tnt_number: c.tnt_number,
        }),
{
    let quality = highest_quality(&c.source_qualities);
    LiveChannel {
        id: c.id,
        name: c.name,
        logo_url,
        categories: c.categories,
        quality,
        geo_blocked: c.geo_blocked,
        not_24_7: c.not_24_7,
        tnt_number: c.tnt_number,
    }
}

/// The country of a channel list, in lower case.
pub fn country_code(country: &str) -> (r: String)
    ensures
        r@ == text::unicode_lower(country@),
{
    text::to_lowercase(country)
}

// ---------------------------------------------------------------------------
// The proxy
// ---------------------------------------------------------------------------

/// A status of success.
pub open spec fn is_success(status: u16) -> bool {
    200 <= status < 300
}

/// What to do with what came from upstream.
#[derive(Debug)]
pub enum ProxyStep {
    /// Pass the status on, with an empty body that is not to be kept.
    PassStatus(u16),
    /// Read the playlist, and rewrite its addresses.
    Rewrite,
    /// Pass the body on as this type, not to be kept.
    Stream(String),
}

/// The type of a segment that upstream gave none for, by the extension of its
/// address.
pub open spec fn segment_type(url_path: Seq<char>) -> Seq<char> {
    match path::extension_of(url_path) {
        Some(e) => {
            let x = text::lowered(e);
            if x == "ts"@ {
                "video/mp2t"@
            } else if x == "m4s"@ || x == "mp4"@ {
                "video/mp4"@
            } else if x == "aac"@ {
                "audio/aac"@
            } else {
                "application/octet-stream"@
            }
        },
        None => "application/octet-stream"@,
    }
}

fn type_of_segment(url_path: &str) -> (r: String)
    ensures
        r@ == segment_type(url_path@),
{
    match path::extension(url_path) {
        Some(e) => {
            let x = text::to_ascii_lowercase(e.as_str());
            if text::same_text(x.as_str(), "ts") {
                "video/mp2t".to_string()
            } else if text::same_text(x.as_str(), "m4s") || text::same_text(x.as_str(), "mp4") {
                "video/mp4".to_string()
            } else if text::same_text(x.as_str(), "aac") {
                "audio/aac".to_string()
            } else {
                "application/octet-stream".to_string()
            }
        },
        None => "application/octet-stream".to_string(),
    }
}

/// What to do with what came from upstream, and the result to note for the
/// source: segments tell whether it works, playlists do not. A status that is
/// no success is passed on, since a segment may have left the window.
pub fn live_proxy(
    is_playlist: bool,
    status: u16,
    upstream_type: Option<String>,
    url_path: &str,
) -> (r: (Option<bool>, ProxyStep))
    ensures
        r.0 == if is_playlist {
            None
        } else {
            Some(is_success(status))
        },
        if !is_success(status) {
            r.1 == ProxyStep::PassStatus(status)
        } else if is_playlist {
            r.1 == ProxyStep::Rewrite
        } else {
            r.1 matches ProxyStep::Stream(t) && t@ == match upstream_type {
                Some(u) => u@,
                None => segment_type(url_path@),
            }
        },
{
    let success = 200 <= status && status < 300;
    let noted = if is_playlist {
        None
    } else {
        Some(success)
    };
    if !success {
        return (noted, ProxyStep::PassStatus(status));
    }
    if is_playlist {
        return (noted, ProxyStep::Rewrite);
    }
    let content_type = match upstream_type {
        Some(u) => u,
        None => type_of_segment(url_path),
    };
    (noted, ProxyStep::Stream(content_type))
}

/// A playlist has at most so many bytes.
pub fn check_playlist(bytes: usize, max: usize) -> (r: Result<(), ApiError>)
    ensures
        if bytes > max {
            r matches Err(e) && e@ == Failure::Upstream("playlist too large"@)
        } else {
            r is Ok
        },
{
    if bytes > max {
        Err(ApiError::Upstream("playlist too large".to_string()))
    } else {
        Ok(())
    }
}

/// How a logo is answered: its status, how long it may be kept, and its type
/// where there is one.
#[derive(Debug)]
pub struct LogoHead {
    pub status: u16,
    pub cache_control: String,
    pub content_type: Option<String>,
}

/// How a logo is answered. A logo that cannot be had is not found, which a
/// client may remember for five minutes; one that can be is kept for a day.
pub fn live_logo(status: u16, content_type: String) -> (r: LogoHead)
    ensures
        if status == 200 {
            &&& r.status == 200
            &&& r.cache_control@ == "public, max-age=86400"@
            &&& r.content_type == Some(content_type)
        } else {
            &&& r.status == 404
            &&& r.cache_control@ == "public, max-age=300"@
            &&& r.content_type is None
        },
{
    if status == 200 {
        LogoHead {
            status: 200,
            cache_control: "public, max-age=86400".to_string(),
            content_type: Some(content_type),
        }
    } else {
        LogoHead {
            status: 404,
            cache_control: "public, max-age=300".to_string(),
            content_type: None,
        }
    }
}

/// Type and caching of a playlist.
pub fn playlist_head() -> (r: (String, String))
    ensures
        r.0@ == "application/vnd.apple.mpegurl"@,
        r.1@ == "no-store"@,
{
    ("application/vnd.apple.mpegurl".to_string(), "no-store".to_string())
}

// ---------------------------------------------------------------------------
// Laws
// ---------------------------------------------------------------------------

/// The quality that is shown is that of a source, and no source is better;
/// none is shown where no source tells any. The rest is shown as it is.
pub proof fn best_source_tells_the_quality(c: Channel, logo: Option<String>, r: LiveChannel)
    requires
        call_ensures(live_channel, (c, logo), r),
    ensures
        r.quality is Some ==> c.source_qualities@.contains(r.quality),
        forall|i: int|
            0 <= i < c.source_qualities@.len() && (#[trigger] c.source_qualities@[i]) is Some
                ==> r.quality is Some && c.source_qualities@[i]->0 <= r.quality->0,
        r.id == c.id && r.name == c.name && r.categories == c.categories && r.logo_url == logo,
        r.geo_blocked == c.geo_blocked && r.not_24_7 == c.not_24_7 && r.tnt_number == c.tnt_number,
{
    let q = c.source_qualities@;
    assert forall|i: int| 0 <= i < q.len() && (#[trigger] q[i]) is Some implies r.quality is Some
        && q[i]->0 <= r.quality->0 by {
        no_source_is_better(q, i);
    }
    lemma_quality_of_a_source(q);
}

proof fn lemma_quality_of_a_source(q: Seq<Option<u32>>)
    ensures
        best_quality(q) is Some ==> q.contains(best_quality(q)),
    decreases q.len(),
{
    if q.len() > 0 {
        lemma_quality_of_a_source(q.drop_last());
        let b = best_quality(q.drop_last());
        if b is Some {
            let k = q.drop_last().index_of(b);
            assert(q[k] == b);
        }
        assert(q[q.len() - 1] == q.last());
    }
}

/// Who asks for what is not there is told so, who asks wrongly is told so, and
/// what upstream says is passed on.
pub proof fn failures_of_television_are_told(e: LiveTvError, r: ApiError)
    requires
        call_ensures(live_failure, (e,), r),
    ensures
        r@ is NotFound <==> e is UnknownCountry || e is UnknownChannel,
        r@ is BadRequest <==> e is BadProxyRequest,
        r@ is Upstream <==> e is Upstream,
        e is Upstream ==> r@->Upstream_0 == e->Upstream_0@,
{
}

/// A segment tells whether its source works, a playlist never does. Nothing
/// but a status between 200 and 299 gives a body: a playlist's addresses are
/// rewritten, and a segment is streamed as the type that upstream names.
pub proof fn only_success_has_a_body(
    is_playlist: bool,
    status: u16,
    upstream_type: Option<String>,
    url_path: &str,
    r: (Option<bool>, ProxyStep),
)
    requires
        call_ensures(live_proxy, (is_playlist, status, upstream_type, url_path), r),
    ensures
        r.0 is None <==> is_playlist,
        r.0 is Some ==> (r.0->0 <==> 200 <= status <= 299),
        r.1 is PassStatus <==> status < 200 || status >= 300,
        r.1 is PassStatus ==> r.1->PassStatus_0 == status,
        r.1 is Rewrite ==> is_playlist,
        r.1 is Stream ==> !is_playlist,
        r.1 is Stream && upstream_type is Some ==> r.1->Stream_0@ == upstream_type->0@,
{
}

/// A segment of which upstream names no type has the one of its extension, in
/// either case.
pub proof fn segment_type_goes_by_extension(
    url_path: &str,
    e: Option<String>,
    r: (Option<bool>, ProxyStep),
)
    requires
        call_ensures(path::extension, (url_path,), e),
        call_ensures(live_proxy, (false, 200u16, None::<String>, url_path), r),
    ensures
        r.1 is Stream,
        e is Some && (e->0@ == "ts"@ || e->0@ == "TS"@) ==> r.1->Stream_0@ == "video/mp2t"@,
        e is Some && (e->0@ == "m4s"@ || e->0@ == "mp4"@) ==> r.1->Stream_0@ == "video/mp4"@,
        e is Some && e->0@ == "aac"@ ==> r.1->Stream_0@ == "audio/aac"@,
        e is None || e->0@.len() == 0 || e->0@.len() > 3 ==> r.1->Stream_0@
            == "application/octet-stream"@,
{
    reveal_strlit("ts");
    reveal_strlit("TS");
    reveal_strlit("m4s");
    reveal_strlit("mp4");
    reveal_strlit("aac");
    assert(text::lowered("ts"@) =~= "ts"@);
    assert(text::lowered("TS"@) =~= "ts"@);
    assert(text::lowered("m4s"@) =~= "m4s"@);
    assert(text::lowered("mp4"@) =~= "mp4"@);
    assert(text::lowered("aac"@) =~= "aac"@);
    assert("m4s"@[0] != 'a' && "mp4"@[0] != 'a');
    assert("aac"@[0] == 'a');
    assert("ts"@.len() == 2 && "m4s"@.len() == 3 && "mp4"@.len() == 3 && "aac"@.len() == 3);
}

/// A playlist of exactly the limit is taken, and one byte more is too much.
pub proof fn playlist_fits_its_limit(bytes: usize, max: usize, r: Result<(), ApiError>)
    requires
        call_ensures(check_playlist, (bytes, max), r),
    ensures
        r is Ok <==> bytes <= max,
        r is Err ==> r->Err_0@ is Upstream,
{
}

/// A logo that was had is shown as what it is; whatever else came is not
/// found, and is remembered for less time.
pub proof fn logo_is_shown_or_not_found(status: u16, content_type: String, r: LogoHead)
    requires
        call_ensures(live_logo, (status, content_type), r),
    ensures
        r.status == 200 <==> status == 200,
        r.status == 200 || r.status == 404,
        r.content_type is Some <==> status == 200,
        r.content_type is Some ==> r.content_type->0 == content_type,
        status == 200 ==> r.cache_control@ == "public, max-age=86400"@,
        status != 200 ==> r.cache_control@ == "public, max-age=300"@,
{
}

/// Playlists are of the type of playlists and are never kept.
pub proof fn playlists_are_not_kept(r: (String, String))
    requires
        call_ensures(playlist_head, (), r),
    ensures
        r.0@ == "application/vnd.apple.mpegurl"@ && r.1@ == "no-store"@,
{
}

} // verus!
