//! What the server does to a file so that a client can play it.

use vstd::prelude::*;
use vstd::string::StringExecFns;

use crate::api_error;
use crate::caps;
use crate::caps::{Caps, ClientCapabilities};
use crate::config::TranscodeConfig;
use crate::text;

verus! {

#[derive(Debug, Clone, Copy, PartialEq, Eq, Structural)]
pub enum HdrKind {
    Sdr,
    /// Any transfer function beyond the standard one.
    Hdr,
}

#[derive(Debug, Clone)]
pub struct VideoStream {
    pub codec: String,
    pub width: Option<u32>,
    pub height: Option<u32>,
    pub bit_depth: Option<u8>,
    pub hdr: HdrKind,
}

#[derive(Debug, Clone)]
pub struct AudioStream {
    pub index: u32,
    pub language: Option<String>,
    /// Browsers can decode it.
    pub browser_compatible: bool,
}

/// What is known of a media file.
#[derive(Debug, Clone)]
pub struct MediaProbe {
    /// Bits of a double-precision number of seconds.
    pub duration_bits: Option<u64>,
    pub video: Vec<VideoStream>,
    pub audio: Vec<AudioStream>,
}

#[derive(Debug, Clone, Copy, PartialEq, Eq, Structural)]
pub enum VideoCodec {
    H264,
    Hevc,
}

#[derive(Debug, Clone, Copy, PartialEq, Eq, Structural)]
pub enum VideoMode {
    Copy,
    Transcode { codec: VideoCodec, ten_bit: bool, tonemap: bool },
}

#[derive(Debug, Clone, Copy, PartialEq, Eq, Structural)]
pub enum AudioCodec {
    Copy,
    Aac,
}

/// One entry of the audio menu.
#[derive(Debug, Clone)]
pub struct AudioRendition {
    pub source_idx: u32,
    pub codec: AudioCodec,
    pub name: String,
    pub language: String,
    pub default: bool,
}

#[derive(Debug, Clone)]
pub struct RemuxPlan {
    pub audio: Vec<AudioRendition>,
    pub source_video_codec: Option<String>,
    pub source_duration_bits: Option<u64>,
    pub video: VideoMode,
}

// ---------------------------------------------------------------------------
// Video
// ---------------------------------------------------------------------------

/// The picture is larger than 1920 by 1080.
pub open spec fn over_1080p(v: VideoStream) -> bool {
    (v.height matches Some(h) && h > 1080) || (v.width matches Some(w) && w > 1920)
}

/// The client names its video decoders.
pub open spec fn is_live_client(c: Caps) -> bool {
    c.video_decoders.len() > 0
}

/// A ten-bit AV1 stream for a client that can only decode it in software.
pub open spec fn needs_catch_up(v: VideoStream, c: Caps) -> bool {
    &&& text::lowered(v.codec@) == "av1"@
    &&& caps::holds_ci(c.video_decoders, "av1-sw"@)
    &&& v.bit_depth matches Some(d) && d >= 10
}

/// What is done to the video stream: it is copied, unless a client that
/// failed to play it directly needs it smaller or in another codec.
pub open spec fn video_mode(video: Seq<VideoStream>, c: Caps, t: TranscodeConfig) -> VideoMode {
    if video.len() == 0 {
        VideoMode::Copy
    } else {
        let v = video[0];
        let downscale = is_live_client(c) && over_1080p(v);
        if !downscale && !needs_catch_up(v, c) {
            VideoMode::Copy
        } else {
            let hevc = needs_catch_up(v, c) && text::lowered(t.codec@) == text::lowered("hevc"@);
            VideoMode::Transcode {
                codec: if hevc {
                    VideoCodec::Hevc
                } else {
                    VideoCodec::H264
                },
                ten_bit: hevc && t.ten_bit,
                tonemap: v.hdr != HdrKind::Sdr,
            }
        }
    }
}

/// What is done to the video stream.
pub fn decide_video_mode(
    probe: &MediaProbe,
    caps: &ClientCapabilities,
    transcode: &TranscodeConfig,
) -> (r: VideoMode)
    ensures
        r == video_mode(probe.video@, caps@, *transcode),
{
    if probe.video.len() == 0 {
        return VideoMode::Copy;
    }
    let v = &probe.video[0];
    let codec = text::to_ascii_lowercase(v.codec.as_str());
    let ten_bit_source = match v.bit_depth {
        Some(d) => d >= 10,
        None => false,
    };
    let live_client = caps.video_decoders.len() != 0;
    let tall = match v.height {
        Some(h) => h > 1080,
        None => false,
    };
    let wide = match v.width {
        Some(w) => w > 1920,
        None => false,
    };
    let downscale = live_client && (tall || wide);
    let av1_sw_catchup = text::same_text(codec.as_str(), "av1") && caps.has_video_decoder("av1-sw")
        && ten_bit_source;
    if !downscale && !av1_sw_catchup {
        return VideoMode::Copy;
    }
    let hevc = av1_sw_catchup && text::eq_ignore_ascii_case(transcode.codec.as_str(), "hevc");
    VideoMode::Transcode {
        codec: if hevc {
            VideoCodec::Hevc
        } else {
            VideoCodec::H264
        },
        ten_bit: hevc && transcode.ten_bit,
        tonemap: v.hdr != HdrKind::Sdr,
    }
}

/// Without a client, as when a file is prepared in advance, the video is
/// copied whatever it is.
pub proof fn without_client_video_is_copied(video: Seq<VideoStream>, t: TranscodeConfig)
    ensures
        video_mode(video, caps::no_caps(), t) == VideoMode::Copy,
{
}

/// A client that names its decoders never gets a picture over 1080p copied.
pub proof fn large_picture_is_never_copied(video: Seq<VideoStream>, c: Caps, t: TranscodeConfig)
    requires
        video.len() > 0,
        over_1080p(video[0]),
        is_live_client(c),
    ensures
        video_mode(video, c, t) is Transcode,
{
}

/// Ten bits are only kept in HEVC.
pub proof fn ten_bits_only_in_hevc(video: Seq<VideoStream>, c: Caps, t: TranscodeConfig)
    ensures
        video_mode(video, c, t) matches VideoMode::Transcode { codec, ten_bit, tonemap } ==> ten_bit
            ==> codec == VideoCodec::Hevc,
{
}

/// Only an HDR picture is flattened, and every HDR picture that is transcoded
/// is.
pub proof fn only_hdr_is_tone_mapped(
    probe: &MediaProbe,
    caps: &ClientCapabilities,
    transcode: &TranscodeConfig,
    r: VideoMode,
)
    requires
        call_ensures(decide_video_mode, (probe, caps, transcode), r),
    ensures
        r matches VideoMode::Transcode { codec, ten_bit, tonemap } ==> tonemap
            == !(probe.video@[0].hdr is Sdr),
{
}

// ---------------------------------------------------------------------------
// Audio
// ---------------------------------------------------------------------------

/// Language of an audio stream in lower case; `und` when it has none.
pub open spec fn language_of(a: AudioStream) -> Seq<char> {
    match a.language {
        Some(l) => if l@.len() > 0 {
            text::lowered(l@)
        } else {
            text::lowered("und"@)
        },
        None => text::lowered("und"@),
    }
}

pub open spec fn languages_of(audio: Seq<AudioStream>) -> Seq<Seq<char>> {
    Seq::new(audio.len(), |i: int| language_of(audio[i]))
}

/// How many of the first `n` are `l`.
pub open spec fn count_of(langs: Seq<Seq<char>>, l: Seq<char>, n: int) -> nat
    decreases n,
{
    if n <= 0 || n > langs.len() {
        0
    } else {
        count_of(langs, l, n - 1) + if langs[n - 1] == l {
            1nat
        } else {
            0nat
        }
    }
}

/// Name of the `i`-th entry: its language, numbered from the second of that
/// language on.
pub open spec fn rendition_name(langs: Seq<Seq<char>>, i: int) -> Seq<char> {
    let n = count_of(langs, langs[i], i + 1);
    if n == 1 {
        langs[i]
    } else {
        langs[i] + text::decimal(n)
    }
}

/// The first stream, from `from` on, that browsers can decode.
pub open spec fn first_compatible(audio: Seq<AudioStream>, from: int) -> Option<int>
    decreases audio.len() - from,
{
    if from < 0 || from >= audio.len() {
        None
    } else if audio[from].browser_compatible {
        Some(from)
    } else {
        first_compatible(audio, from + 1)
    }
}

/// The entry that plays first: the first that needs no transcoding, else the
/// first.
pub open spec fn default_rendition(audio: Seq<AudioStream>) -> int {
    match first_compatible(audio, 0) {
        Some(i) => i,
        None => 0,
    }
}

pub open spec fn is_rendition(r: AudioRendition, audio: Seq<AudioStream>, i: int) -> bool {
    &&& r.source_idx == audio[i].index
    &&& r.codec == if audio[i].browser_compatible {
        AudioCodec::Copy
    } else {
        AudioCodec::Aac
    }
    &&& r.language@ == language_of(audio[i])
    &&& r.name@ == rendition_name(languages_of(audio), i)
    &&& r.default == (i == default_rendition(audio))
}

proof fn lemma_count_bound(langs: Seq<Seq<char>>, l: Seq<char>, n: int)
    ensures
        0 <= n ==> count_of(langs, l, n) <= n,
    decreases n,
{
    if 0 < n <= langs.len() {
        lemma_count_bound(langs, l, n - 1);
    }
}

fn stream_language(a: &AudioStream) -> (r: String)
    ensures
        r@ == language_of(*a),
{
    match &a.language {
        Some(l) => {
            if text::is_blank(l.as_str()) {
                text::to_ascii_lowercase("und")
            } else {
                text::to_ascii_lowercase(l.as_str())
            }
        },
        None => text::to_ascii_lowercase("und"),
    }
}

fn find_compatible(audio: &Vec<AudioStream>) -> (r: usize)
    ensures
        r == default_rendition(audio@),
{
    let mut i: usize = 0;
    while i < audio.len()
        invariant
            i <= audio.len(),
            first_compatible(audio@, 0) == first_compatible(audio@, i as int),
        decreases audio.len() - i,
    {
        if audio[i].browser_compatible {
            return i;
        }
        i = i + 1;
    }
    0
}

/// What the server makes of a file for a client: one audio entry per stream,
/// transcoded where browsers cannot decode it, and the video.
pub fn build_remux_plan(
    probe: &MediaProbe,
    caps: &ClientCapabilities,
    transcode: &TranscodeConfig,
) -> (r: RemuxPlan)
    requires
        probe.audio.len() < u64::MAX,
    ensures
        r.audio@.len() == probe.audio@.len(),
        forall|i: int|
            0 <= i < r.audio@.len() ==> is_rendition(#[trigger] r.audio@[i], probe.audio@, i),
        text::opt_view(r.source_video_codec) == if probe.video@.len() > 0 {
            Some(probe.video@[0].codec@)
        } else {
            None
        },
        r.source_duration_bits == probe.duration_bits,
        r.video == video_mode(probe.video@, caps@, *transcode),
{
    let chosen: usize = find_compatible(&probe.audio);
    let ghost langs = languages_of(probe.audio@);
    let mut out: Vec<AudioRendition> = Vec::new();
    for i in 0..probe.audio.len()
        invariant
            probe.audio.len() < u64::MAX,
            langs == languages_of(probe.audio@),
            chosen == default_rendition(probe.audio@),
            out@.len() == i,
            forall|k: int| 0 <= k < i ==> is_rendition(#[trigger] out@[k], probe.audio@, k),
    {
        let a = &probe.audio[i];
        let language = stream_language(a);
        let mut n: u64 = 1;
        assert(langs[i as int] == language@);
        for k in 0..i
            invariant
                i < probe.audio.len() < u64::MAX,
                langs == languages_of(probe.audio@),
                out@.len() == i,
                forall|m: int| 0 <= m < i ==> is_rendition(#[trigger] out@[m], probe.audio@, m),
                n == count_of(langs, language@, k as int) + 1,
                n <= k + 1,
        {
            assert(is_rendition(out@[k as int], probe.audio@, k as int));
            assert(langs[k as int] == out@[k as int].language@);
            if text::same_text(out[k].language.as_str(), language.as_str()) {
                n = n + 1;
            }
        }
        assert(count_of(langs, language@, i + 1) == n);
        let mut name = language.clone();
        if n != 1 {
            name.append(text::decimal_u64(n).as_str());
        }
        let codec = if a.browser_compatible {
            AudioCodec::Copy
        } else {
            AudioCodec::Aac
        };
        out.push(
            AudioRendition { source_idx: a.index, codec, name, language, default: i == chosen },
        );
    }
    let source_video_codec = if probe.video.len() > 0 {
        Some(probe.video[0].codec.clone())
    } else {
        None
    };
    RemuxPlan {
        audio: out,
        source_video_codec,
        source_duration_bits: probe.duration_bits,
        video: decide_video_mode(probe, caps, transcode),
    }
}

proof fn lemma_count_grows(langs: Seq<Seq<char>>, l: Seq<char>, i: int, j: int)
    requires
        0 <= i < j <= langs.len(),
        langs[j - 1] == l,
    ensures
        count_of(langs, l, i) < count_of(langs, l, j),
    decreases j,
{
    lemma_count_monotone(langs, l, i, j - 1);
}

proof fn lemma_count_monotone(langs: Seq<Seq<char>>, l: Seq<char>, i: int, j: int)
    requires
        0 <= i <= j <= langs.len(),
    ensures
        count_of(langs, l, i) <= count_of(langs, l, j),
    decreases j,
{
    if i < j {
        lemma_count_monotone(langs, l, i, j - 1);
    }
}

/// Two entries of one language have different names.
pub proof fn same_language_names_differ(langs: Seq<Seq<char>>, i: int, j: int)
    requires
        0 <= i < j < langs.len(),
        langs[i] == langs[j],
    ensures
        rendition_name(langs, i) != rendition_name(langs, j),
{
    let l = langs[i];
    let a = count_of(langs, l, i + 1);
    let b = count_of(langs, l, j + 1);
    lemma_count_grows(langs, l, i + 1, j + 1);
    lemma_count_grows(langs, l, i, i + 1);
    assert(1 <= a < b);
    text::decimal_denotes(a);
    text::decimal_denotes(b);
    let x = rendition_name(langs, i);
    let y = rendition_name(langs, j);
    assert(y == l + text::decimal(b));
    if x == y {
        if a == 1 {
            assert(x.len() == l.len());
        } else {
            assert(x.skip(l.len() as int) =~= text::decimal(a));
            assert(y.skip(l.len() as int) =~= text::decimal(b));
        }
    }
}

/// Exactly one entry plays first, where there is any, and it is one that needs
/// no transcoding where there is one.
pub proof fn one_default_rendition(audio: Seq<AudioStream>, renditions: Seq<AudioRendition>)
    requires
        audio.len() > 0,
        renditions.len() == audio.len(),
        forall|i: int|
            0 <= i < renditions.len() ==> is_rendition(#[trigger] renditions[i], audio, i),
    ensures
        exists|i: int| 0 <= i < renditions.len() && (#[trigger] renditions[i]).default,
        forall|i: int, j: int|
            0 <= i < renditions.len() && 0 <= j < renditions.len() && (
            #[trigger] renditions[i]).default && (#[trigger] renditions[j]).default ==> i == j,
        forall|i: int, k: int|
            0 <= i < renditions.len() && (#[trigger] renditions[i]).default && 0 <= k
                < audio.len() && (#[trigger] audio[k]).browser_compatible ==> renditions[i].codec
                == AudioCodec::Copy,
{
    lemma_first_compatible(audio, 0);
    let d = default_rendition(audio);
    assert(is_rendition(renditions[d], audio, d));
    assert(renditions[d].default);
}

proof fn lemma_first_compatible(audio: Seq<AudioStream>, from: int)
    requires
        0 <= from,
    ensures
        match first_compatible(audio, from) {
            Some(i) => from <= i < audio.len() && audio[i].browser_compatible,
            None => forall|k: int|
                from <= k < audio.len() ==> !(#[trigger] audio[k]).browser_compatible,
        },
    decreases audio.len() - from,
{
    if from < audio.len() && !audio[from].browser_compatible {
        lemma_first_compatible(audio, from + 1);
    }
}

// ---------------------------------------------------------------------------
// Cache keys and readiness
// ---------------------------------------------------------------------------

/// `infohash_index` and the suffix of the variant.
pub open spec fn cache_key(infohash: Seq<char>, idx: usize, suffix: Seq<char>) -> Seq<char> {
    infohash + "_"@ + text::decimal(idx as nat) + suffix
}

/// The name of a prepared variant of a file in the cache.
pub fn remux_key(infohash: &str, idx: usize, suffix: &str) -> (r: String)
    ensures
        r@ == cache_key(infohash@, idx, suffix@),
{
    let mut s = infohash.to_string();
    s.append("_");
    s.append(text::decimal_u64(idx as u64).as_str());
    s.append(suffix);
    s
}

/// Whether a file can be played yet.
#[derive(Debug, Clone)]
pub struct PlayStatus {
    pub ready: bool,
    /// `downloading` or `remuxing`.
    pub reason: Option<String>,
    /// Bits of a double-precision fraction.
    pub progress_bits: Option<u64>,
    pub error: Option<String>,
}

/// What is known when the status is asked for.
pub struct PlayState {
    /// Bits of the downloaded fraction, while the torrent is not complete.
    pub downloading: Option<u64>,
    /// The server has to build a variant for this client.
    pub transcode: bool,
    /// Why the last build failed.
    pub failure: Option<String>,
    /// Bits of the encoded fraction, while a build runs.
    pub building: Option<u64>,
    /// The variant's playlist is on disk.
    pub master_ready: bool,
}

pub open spec fn is_ready(s: PlayStatus) -> bool {
    s.ready && s.reason is None && s.progress_bits is None && s.error is None
}

pub open spec fn is_pending(s: PlayStatus, reason: Seq<char>, progress: Option<u64>) -> bool {
    &&& !s.ready
    &&& text::opt_view(s.reason) == Some(reason)
    &&& s.progress_bits == progress
    &&& s.error is None
}

pub open spec fn is_failed(s: PlayStatus, message: Option<String>) -> bool {
    &&& !s.ready
    &&& s.reason is None
    &&& s.progress_bits is None
    &&& s.error == message
}

fn ready() -> (r: PlayStatus)
    ensures
        is_ready(r),
{
    PlayStatus { ready: true, reason: None, progress_bits: None, error: None }
}

fn pending(reason: &str, progress_bits: Option<u64>) -> (r: PlayStatus)
    ensures
        is_pending(r, reason@, progress_bits),
{
    PlayStatus { ready: false, reason: Some(reason.to_string()), progress_bits, error: None }
}

fn failed(message: String) -> (r: PlayStatus)
    ensures
        is_failed(r, Some(message)),
{
    PlayStatus { ready: false, reason: None, progress_bits: None, error: Some(message) }
}

/// Whether a file can be played yet, and whether to start building the
/// variant for the client. A variant that is being built is never reported
/// ready, though its playlist is on disk early.
pub fn play_status(s: PlayState) -> (r: (PlayStatus, bool))
    ensures
        r.1 == (s.downloading is None && s.transcode && s.failure is None && s.building is None
            && !s.master_ready),
        if s.downloading is Some {
            is_pending(r.0, "downloading"@, s.downloading)
        } else if s.transcode {
            if s.failure is Some {
                is_failed(r.0, s.failure)
            } else if s.building is Some {
                is_pending(r.0, "remuxing"@, s.building)
            } else if s.master_ready {
                is_ready(r.0)
            } else {
                is_pending(r.0, "remuxing"@, None)
            }
        } else if !s.master_ready && s.failure is Some {
            is_failed(r.0, s.failure)
        } else {
            is_ready(r.0)
        },
{
    if s.downloading.is_some() {
        return (pending("downloading", s.downloading), false);
    }
    if s.transcode {
        match s.failure {
            Some(m) => (failed(m), false),
            None => {
                if s.building.is_some() {
                    (pending("remuxing", s.building), false)
                } else if s.master_ready {
                    (ready(), false)
                } else {
                    (pending("remuxing", None), true)
                }
            },
        }
    } else if s.master_ready {
        (ready(), false)
    } else {
        match s.failure {
            Some(m) => (failed(m), false),
            None => (ready(), false),
        }
    }
}

/// The tier that a client falls back to, and where to find it.
pub struct PlaybackErrorResponse {
    pub fallback_tier: String,
    pub fallback_url: String,
}

/// What a client reports when playing fails.
#[derive(Debug, Clone)]
pub struct PlaybackErrorBody {
    pub tier: String,
    pub reason: String,
    pub codec: Option<String>,
    pub browser: Option<String>,
    pub details: Option<String>,
}

/// Where a client that cannot play a file is sent.
pub fn playback_error(infohash: &str, idx: usize) -> (r: PlaybackErrorResponse)
    ensures
        r.fallback_tier@ == "F"@,
        r.fallback_url@ == "/api/torrents/"@ + infohash@ + "/files/"@ + text::decimal(idx as nat)
            + "/play/master.m3u8"@,
{
    let mut url = api_error::glued("/api/torrents/", infohash, "/files/");
    url.append(text::decimal_u64(idx as u64).as_str());
    url.append("/play/master.m3u8");
    PlaybackErrorResponse { fallback_tier: "F".to_string(), fallback_url: url }
}

// ---------------------------------------------------------------------------
// Laws
// ---------------------------------------------------------------------------

/// The video is transcoded for a client that names its decoders where the
/// picture is higher than 1080 or wider than 1920, and for one that decodes AV1
/// in software alone where the stream is ten-bit AV1; it is copied otherwise.
/// HEVC is made only in the second case and where the configuration asks for
/// it, and ten bits only in HEVC and where it asks for these too.
pub proof fn video_is_transcoded_on_need(
    probe: &MediaProbe,
    caps: &ClientCapabilities,
    transcode: &TranscodeConfig,
    codec: &str,
    asked: &str,
    av1: bool,
    software: bool,
    hevc: bool,
    r: VideoMode,
)
    requires
        probe.video@.len() > 0,
        codec@ == probe.video@[0].codec@,
        asked@ == transcode.codec@,
        call_ensures(text::eq_ignore_ascii_case, (codec, "av1"), av1),
        call_ensures(text::eq_ignore_ascii_case, (asked, "hevc"), hevc),
        call_ensures(ClientCapabilities::has_video_decoder, (caps, "av1-sw"), software),
        call_ensures(decide_video_mode, (probe, caps, transcode), r),
    ensures
        ({
            let v = probe.video@[0];
            let large = caps.video_decoders@.len() > 0 && ((v.height is Some && v.height->0 >= 1081)
                || (v.width is Some && v.width->0 >= 1921));
            let slow = av1 && software && v.bit_depth is Some && v.bit_depth->0 >= 10;
            &&& r is Transcode == (large || slow)
            &&& r is Transcode ==> (r->codec is Hevc == (slow && hevc))
            &&& r is Transcode ==> r->ten_bit == (slow && hevc && transcode.ten_bit)
            &&& r is Transcode ==> r->tonemap == (v.hdr is Hdr)
        }),
{
    reveal_strlit("av1");
    assert(text::is_lower("av1"@));
    text::lemma_lowered("av1"@);
    text::models_are_the_texts(caps.video_decoders@, None, None);
}

/// A file without a picture is never transcoded.
pub proof fn nothing_to_transcode_without_video(
    probe: &MediaProbe,
    caps: &ClientCapabilities,
    transcode: &TranscodeConfig,
    r: VideoMode,
)
    requires
        probe.video@.len() == 0,
        call_ensures(decide_video_mode, (probe, caps, transcode), r),
    ensures
        r is Copy,
{
}

/// What earlier entries of the language of an entry there are, with it.
pub open spec fn of_its_language(audio: Seq<AudioRendition>, i: int) -> Seq<AudioRendition> {
    audio.take(i + 1).filter(in_language(audio[i].language@))
}

pub open spec fn in_language(l: Seq<char>) -> spec_fn(AudioRendition) -> bool {
    |x: AudioRendition| x.language@ == l
}

proof fn lemma_count_is_filter(
    audio: Seq<AudioRendition>,
    langs: Seq<Seq<char>>,
    l: Seq<char>,
    n: int,
)
    requires
        0 <= n <= audio.len(),
        audio.len() == langs.len(),
        forall|i: int| 0 <= i < audio.len() ==> (#[trigger] audio[i]).language@ == langs[i],
    ensures
        count_of(langs, l, n) == audio.take(n).filter(in_language(l)).len(),
    decreases n,
{
    reveal(Seq::filter);
    if n > 0 {
        lemma_count_is_filter(audio, langs, l, n - 1);
        assert(audio.take(n).drop_last() =~= audio.take(n - 1));
        assert(audio.take(n).last() == audio[n - 1]);
    }
}

/// Every audio stream has one entry, in order: copied where browsers decode it
/// and else transcoded, in its language in lower case, `und` where it tells
/// none. The first entry of a language has its name, the others have their
/// number behind it. The entry that plays first is the first that is copied,
/// and the very first where none is.
pub proof fn every_stream_has_its_entry(
    probe: &MediaProbe,
    caps: &ClientCapabilities,
    transcode: &TranscodeConfig,
    r: RemuxPlan,
    i: int,
)
    requires
        probe.audio.len() < u64::MAX,
        call_ensures(build_remux_plan, (probe, caps, transcode), r),
        0 <= i < probe.audio@.len(),
    ensures
        r.audio@.len() == probe.audio@.len(),
        r.audio@[i].source_idx == probe.audio@[i].index,
        r.audio@[i].codec is Copy == probe.audio@[i].browser_compatible,
        probe.audio@[i].language is Some && probe.audio@[i].language->0@.len() > 0
            ==> r.audio@[i].language@ == text::lowered(probe.audio@[i].language->0@),
        probe.audio@[i].language is None || probe.audio@[i].language->0@.len() == 0
            ==> r.audio@[i].language@ == "und"@,
        of_its_language(r.audio@, i).len() == 1 ==> r.audio@[i].name@ == r.audio@[i].language@,
        of_its_language(r.audio@, i).len() > 1 ==> r.audio@[i].name@ == r.audio@[i].language@
            + text::decimal(of_its_language(r.audio@, i).len()),
        r.audio@[i].default ==> (r.audio@[i].codec is Copy || i == 0) && forall|k: int|
            0 <= k < i ==> !(#[trigger] r.audio@[k].codec is Copy),
        r.audio@[i].default && !(r.audio@[i].codec is Copy) ==> forall|k: int|
            0 <= k < r.audio@.len() ==> !(#[trigger] r.audio@[k].codec is Copy),
        exists|k: int| 0 <= k < r.audio@.len() && (#[trigger] r.audio@[k]).default,
{
    let langs = languages_of(probe.audio@);
    assert forall|k: int| 0 <= k < r.audio@.len() implies (#[trigger] r.audio@[k]).language@
        == langs[k] && (r.audio@[k].codec is Copy == probe.audio@[k].browser_compatible) by {
        assert(is_rendition(r.audio@[k], probe.audio@, k));
    }
    assert(is_rendition(r.audio@[i], probe.audio@, i));
    reveal_strlit("und");
    assert(text::is_lower("und"@));
    text::lemma_lowered("und"@);
    lemma_count_is_filter(r.audio@, langs, langs[i], i + 1);
    lemma_count_grows(langs, langs[i], i, i + 1);
    assert(r.audio@[i].language@ == langs[i]);
    lemma_first_is_first(probe.audio@, 0);
    lemma_first_compatible(probe.audio@, 0);
    let d = default_rendition(probe.audio@);
    assert(is_rendition(r.audio@[d], probe.audio@, d));
}

proof fn lemma_first_is_first(audio: Seq<AudioStream>, from: int)
    requires
        0 <= from,
    ensures
        first_compatible(audio, from) matches Some(i) ==> forall|k: int|
            from <= k < i ==> !(#[trigger] audio[k]).browser_compatible,
    decreases audio.len() - from,
{
    if from < audio.len() && !audio[from].browser_compatible {
        lemma_first_is_first(audio, from + 1);
    }
}

/// A plan does to the video what was decided, and tells the codec and the
/// length that the file had.
pub proof fn plan_tells_of_the_source(
    probe: &MediaProbe,
    caps: &ClientCapabilities,
    transcode: &TranscodeConfig,
    video: VideoMode,
    r: RemuxPlan,
)
    requires
        probe.audio.len() < u64::MAX,
        call_ensures(decide_video_mode, (probe, caps, transcode), video),
        call_ensures(build_remux_plan, (probe, caps, transcode), r),
    ensures
        r.video == video,
        r.source_duration_bits == probe.duration_bits,
        r.source_video_codec is Some == (probe.video@.len() > 0),
        r.source_video_codec is Some ==> r.source_video_codec->0@ == probe.video@[0].codec@,
{
}

/// A key starts with the torrent and ends with what was asked to stand behind
/// it, and the files of a torrent have different keys.
pub proof fn files_have_their_own_keys(
    infohash: &str,
    a: usize,
    b: usize,
    suffix: &str,
    x: String,
    y: String,
)
    requires
        call_ensures(remux_key, (infohash, a, suffix), x),
        call_ensures(remux_key, (infohash, b, suffix), y),
    ensures
        x@ == y@ <==> a == b,
        infohash@.is_prefix_of(x@),
        x@.len() >= suffix@.len() && x@.skip(x@.len() - suffix@.len()) == suffix@,
        x@.len() > infohash@.len() && x@[infohash@.len() as int] == '_',
{
    reveal_strlit("_");
    let h = infohash@ + "_"@;
    text::decimal_denotes(a as nat);
    text::decimal_denotes(b as nat);
    let da = text::decimal(a as nat);
    let db = text::decimal(b as nat);
    assert(x@ =~= h + da + suffix@);
    assert(x@.subrange(0, infohash@.len() as int) =~= infohash@);
    assert(x@.skip(x@.len() - suffix@.len()) =~= suffix@);
    assert(x@.subrange(h.len() as int, x@.len() - suffix@.len()) =~= da);
    assert(y@.subrange(h.len() as int, y@.len() - suffix@.len()) =~= db);
}

/// A variant is ready only once nothing is downloaded or built for it, and a
/// transcoded one only once its playlist is there and nothing failed. Whatever
/// is not ready says what it waits for or what failed, a download before a
/// failure. A build is started exactly for a transcoded variant of which
/// nothing is there, nothing is under way and nothing has failed.
pub proof fn variant_is_ready_or_says_why(s: PlayState, r: (PlayStatus, bool))
    requires
        call_ensures(play_status, (s,), r),
    ensures
        r.0.ready ==> s.downloading is None && r.0.reason is None && r.0.error is None
            && r.0.progress_bits is None && (s.transcode ==> s.master_ready && s.failure is None
            && s.building is None),
        r.0.ready ==> s.master_ready || s.failure is None,
        s.downloading is None && !s.transcode && (s.master_ready || s.failure is None)
            ==> r.0.ready,
        s.downloading is None && s.transcode && s.master_ready && s.failure is None && s.building
            is None ==> r.0.ready,
        !r.0.ready ==> (r.0.reason is Some) != (r.0.error is Some),
        s.downloading is Some ==> r.0.reason is Some && r.0.reason->0@ == "downloading"@
            && r.0.progress_bits == s.downloading,
        s.downloading is None && r.0.reason is Some ==> s.transcode && r.0.reason->0@
            == "remuxing"@ && r.0.progress_bits == s.building,
        r.0.error is Some ==> r.0.error == s.failure && s.downloading is None && r.0.progress_bits
            is None,
        s.downloading is None && s.failure is Some && (s.transcode || !s.master_ready)
            ==> r.0.error is Some,
        r.1 == (s.transcode && s.downloading is None && s.building is None && s.failure is None
            && !s.master_ready),
{
}

/// A client that fails to play a file is sent to the prepared variant of that
/// very file.
pub proof fn fallback_is_of_the_file(
    infohash: &str,
    a: usize,
    b: usize,
    x: PlaybackErrorResponse,
    y: PlaybackErrorResponse,
)
    requires
        call_ensures(playback_error, (infohash, a), x),
        call_ensures(playback_error, (infohash, b), y),
    ensures
        x.fallback_tier@ == "F"@,
        x.fallback_url@ == y.fallback_url@ <==> a == b,
        ("/api/torrents/"@ + infohash@ + "/files/"@).is_prefix_of(x.fallback_url@),
        "/play/master.m3u8"@.len() <= x.fallback_url@.len(),
        x.fallback_url@.skip(x.fallback_url@.len() - "/play/master.m3u8"@.len())
            == "/play/master.m3u8"@,
{
    let h = "/api/torrents/"@ + infohash@ + "/files/"@;
    let t = "/play/master.m3u8"@;
    text::decimal_denotes(a as nat);
    text::decimal_denotes(b as nat);
    let da = text::decimal(a as nat);
    let db = text::decimal(b as nat);
    let u = x.fallback_url@;
    let v = y.fallback_url@;
    assert(u =~= h + da + t);
    assert(u.subrange(0, h.len() as int) =~= h);
    assert(u.skip(u.len() - t.len()) =~= t);
    assert(u.subrange(h.len() as int, u.len() - t.len()) =~= da);
    assert(v.subrange(h.len() as int, v.len() - t.len()) =~= db);
}

} // verus!
