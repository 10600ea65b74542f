//! The `Iris-Caps` header: what a client says it can play.
//!
//! A header is a list of `key=value` pairs separated by `;`. A value is a
//! comma-separated list, a flag or a free-form word, depending on the key.
//! White space around `;`, `,` and `=` is tolerated, malformed pairs are
//! dropped, and unknown keys are kept in [`ClientCapabilities::extras`].

use vstd::prelude::*;
use vstd::string::StringExecFns;

use crate::text;
use crate::text_map;
use crate::text_map::TextMap;

verus! {

/// The parsed header. Comma-separated values are in lower case; unknown keys
/// are kept with their values.
#[derive(Debug, Clone)]
pub struct ClientCapabilities {
    /// Containers the client can demux or play directly (`fmp4`, `mkv`).
    pub containers: Vec<String>,
    /// Video decoders; `hevc-hw` or `av1-sw` tell hardware from software.
    pub video_decoders: Vec<String>,
    /// Audio decoders.
    pub audio_decoders: Vec<String>,
    /// Subtitle renderers (`webvtt`, `ass-overlay`, `pgs-overlay`).
    pub subtitles: Vec<String>,
    /// HDR transfer functions the client can render.
    pub hdr: Vec<String>,
    pub webcodecs: bool,
    pub webgpu: bool,
    pub mse: bool,
    /// Managed Media Source of iOS Safari.
    pub mms: bool,
    /// Set when the client wants the server-side HLS pipeline.
    pub legacy: bool,
    /// Free-form platform (`web-chromium-134`, `android-tv-14`).
    pub platform: Option<String>,
    /// Free-form bandwidth hint (`auto`, `unmetered`, `metered`, a byte rate).
    pub bandwidth: Option<String>,
    /// Every key that is none of the above.
    pub extras: TextMap<String>,
}

/// The model of [`ClientCapabilities`].
pub struct Caps {
    pub containers: Seq<Seq<char>>,
    pub video_decoders: Seq<Seq<char>>,
    pub audio_decoders: Seq<Seq<char>>,
    pub subtitles: Seq<Seq<char>>,
    pub hdr: Seq<Seq<char>>,
    pub webcodecs: bool,
    pub webgpu: bool,
    pub mse: bool,
    pub mms: bool,
    pub legacy: bool,
    pub platform: Option<Seq<char>>,
    pub bandwidth: Option<Seq<char>>,
    pub extras: Seq<(Seq<char>, Seq<char>)>,
}

impl View for ClientCapabilities {
    type V = Caps;

    open spec fn view(&self) -> Caps {
        Caps {
            containers: text::views(self.containers@),
            video_decoders: text::views(self.video_decoders@),
            audio_decoders: text::views(self.audio_decoders@),
            subtitles: text::views(self.subtitles@),
            hdr: text::views(self.hdr@),
            webcodecs: self.webcodecs,
            webgpu: self.webgpu,
            mse: self.mse,
            mms: self.mms,
            legacy: self.legacy,
            platform: text::opt_view(self.platform),
            bandwidth: text::opt_view(self.bandwidth),
            extras: self.extras@,
        }
    }
}

/// The capabilities of a client that declares none.
pub open spec fn no_caps() -> Caps {
    Caps {
        containers: seq![],
        video_decoders: seq![],
        audio_decoders: seq![],
        subtitles: seq![],
        hdr: seq![],
        webcodecs: false,
        webgpu: false,
        mse: false,
        mms: false,
        legacy: false,
        platform: None,
        bandwidth: None,
        extras: seq![],
    }
}

/// The non-empty items among `parts`, each trimmed and in lower case.
pub open spec fn lower_items(parts: Seq<Seq<char>>) -> Seq<Seq<char>>
    decreases parts.len(),
{
    if parts.len() == 0 {
        seq![]
    } else {
        let item = text::lowered(text::trimmed(parts.last()));
        let before = lower_items(parts.drop_last());
        if item.len() == 0 {
            before
        } else {
            before.push(item)
        }
    }
}

/// The items of a comma-separated value.
pub open spec fn csv_items(s: Seq<char>) -> Seq<Seq<char>> {
    lower_items(text::pieces(s, ','))
}

/// Whether a flag's value switches it on.
pub open spec fn is_truthy(s: Seq<char>) -> bool {
    let v = text::lowered(text::trimmed(s));
    v == "1"@ || v == "true"@ || v == "yes"@ || v == "on"@
}

/// `c` after the pair `key=value`; a later pair overrides an earlier one.
pub open spec fn with_pair(c: Caps, key: Seq<char>, value: Seq<char>) -> Caps {
    if key == "container"@ {
        Caps { containers: csv_items(value), ..c }
    } else if key == "vdec"@ {
        Caps { video_decoders: csv_items(value), ..c }
    } else if key == "adec"@ {
        Caps { audio_decoders: csv_items(value), ..c }
    } else if key == "subs"@ {
        Caps { subtitles: csv_items(value), ..c }
    } else if key == "hdr"@ {
        Caps { hdr: csv_items(value), ..c }
    } else if key == "webcodecs"@ {
        Caps { webcodecs: is_truthy(value), ..c }
    } else if key == "webgpu"@ {
        Caps { webgpu: is_truthy(value), ..c }
    } else if key == "mse"@ {
        Caps { mse: is_truthy(value), ..c }
    } else if key == "mms"@ {
        Caps { mms: is_truthy(value), ..c }
    } else if key == "legacy"@ {
        Caps { legacy: is_truthy(value), ..c }
    } else if key == "platform"@ {
        Caps { platform: Some(value), ..c }
    } else if key == "bandwidth"@ {
        Caps { bandwidth: Some(value), ..c }
    } else {
        Caps { extras: text_map::put(c.extras, key, value), ..c }
    }
}

/// The key and value of one stretch of the header between semicolons; `None`
/// for one that is no pair: without an equals sign, without a key, or without a
/// value.
pub open spec fn pair_in(stretch: Seq<char>) -> Option<(Seq<char>, Seq<char>)> {
    let p = text::trimmed(stretch);
    let i = text::first_of(p, '=');
    let key = text::lowered(text::trimmed(p.take(i)));
    let value = text::trimmed(p.skip(i + 1));
    if i < p.len() && key.len() > 0 && value.len() > 0 {
        Some((key, value))
    } else {
        None
    }
}

/// `c` after one stretch of the header; one that is no pair has no effect.
pub open spec fn with_stretch(c: Caps, stretch: Seq<char>) -> Caps {
    match pair_in(stretch) {
        Some((key, value)) => with_pair(c, key, value),
        None => c,
    }
}

/// `c` after every stretch in turn.
pub open spec fn with_stretches(c: Caps, stretches: Seq<Seq<char>>) -> Caps
    decreases stretches.len(),
{
    if stretches.len() == 0 {
        c
    } else {
        with_stretch(with_stretches(c, stretches.drop_last()), stretches.last())
    }
}

/// The capabilities that a header declares.
pub open spec fn parsed(header: Seq<char>) -> Caps {
    with_stretches(no_caps(), text::pieces(header, ';'))
}

/// `key=value`.
pub open spec fn pair(key: Seq<char>, value: Seq<char>) -> Seq<char> {
    key + "="@ + value
}

pub open spec fn csv_part(key: Seq<char>, items: Seq<Seq<char>>) -> Seq<Seq<char>> {
    if items.len() == 0 {
        seq![]
    } else {
        seq![pair(key, text::joined(items, ","@))]
    }
}

pub open spec fn flag_part(key: Seq<char>, value: bool) -> Seq<Seq<char>> {
    if value {
        seq![pair(key, "1"@)]
    } else {
        seq![]
    }
}

pub open spec fn word_part(key: Seq<char>, value: Option<Seq<char>>) -> Seq<Seq<char>> {
    match value {
        Some(v) => seq![pair(key, v)],
        None => seq![],
    }
}

pub open spec fn extra_parts(extras: Seq<(Seq<char>, Seq<char>)>) -> Seq<Seq<char>> {
    Seq::new(extras.len(), |i: int| pair(extras[i].0, extras[i].1))
}

/// The pairs that declare `c`, in the order in which they are written.
pub open spec fn header_parts(c: Caps) -> Seq<Seq<char>> {
    csv_part("container"@, c.containers) + csv_part("vdec"@, c.video_decoders) + csv_part(
        "adec"@,
        c.audio_decoders,
    ) + csv_part("subs"@, c.subtitles) + csv_part("hdr"@, c.hdr) + flag_part(
        "webcodecs"@,
        c.webcodecs,
    ) + flag_part("webgpu"@, c.webgpu) + flag_part("mse"@, c.mse) + flag_part("mms"@, c.mms)
        + flag_part("legacy"@, c.legacy) + word_part("platform"@, c.platform) + word_part(
        "bandwidth"@,
        c.bandwidth,
    ) + extra_parts(c.extras)
}

/// The header that declares `c`.
pub open spec fn header(c: Caps) -> Seq<char> {
    text::joined(header_parts(c), "; "@)
}

impl Default for ClientCapabilities {
    fn default() -> (r: Self)
        ensures
            r@ == no_caps(),
    {
        let r = ClientCapabilities {
            containers: Vec::new(),
            video_decoders: Vec::new(),
            audio_decoders: Vec::new(),
            subtitles: Vec::new(),
            hdr: Vec::new(),
            webcodecs: false,
            webgpu: false,
            mse: false,
            mms: false,
            legacy: false,
            platform: None,
            bandwidth: None,
            extras: TextMap::new(),
        };
        proof {
            assert(text::views(r.containers@) =~= seq![]);
            assert(text::views(r.video_decoders@) =~= seq![]);
            assert(text::views(r.audio_decoders@) =~= seq![]);
            assert(text::views(r.subtitles@) =~= seq![]);
            assert(text::views(r.hdr@) =~= seq![]);
            assert(r.extras@ =~= seq![]);
        }
        r
    }
}

impl ClientCapabilities {
    /// Parses a header. Malformed pairs are dropped; the rest counts.
    pub fn parse(input: &str) -> (r: Self)
        ensures
            r@ == parsed(input@),
            forall|i: int|
                0 <= i < r@.extras.len() ==> (#[trigger] r@.extras[i]).0.len() > 0
                    && r@.extras[i].1.len() > 0,
    {
        let stretches = text::split(input, ';');
        let mut caps = ClientCapabilities::default();
        let ghost all = text::pieces(input@, ';');
        assert(all.take(0) =~= seq![]);
        for i in 0..stretches.len()
            invariant
                text::views(stretches@) == all,
                caps@ == with_stretches(no_caps(), all.take(i as int)),
        {
            let ghost upto = all.take(i + 1);
            assert(upto.drop_last() =~= all.take(i as int));
            assert(upto.last() == stretches[i as int]@);
            caps.add_stretch(stretches[i].as_str());
        }
        assert(all.take(stretches.len() as int) =~= all);
        proof {
            parsed_is_expressible(input@);
        }
        caps
    }

    fn add_stretch(&mut self, stretch: &str)
        ensures
            final(self)@ == with_stretch(old(self)@, stretch@),
    {
        let p = text::trim(stretch);
        match text::split_once(p.as_str(), '=') {
            Some((k, v)) => {
                let key_text = text::trim(k.as_str());
                let key = text::to_ascii_lowercase(key_text.as_str());
                let value = text::trim(v.as_str());
                if !text::is_blank(key.as_str()) && !text::is_blank(value.as_str()) {
                    self.add_pair(key, value);
                }
            },
            None => {},
        }
    }

    fn add_pair(&mut self, key: String, value: String)
        ensures
            final(self)@ == with_pair(old(self)@, key@, value@),
    {
        let k = key.as_str();
        let v = value.as_str();
        if text::same_text(k, "container") {
            self.containers = csv_lower(v);
        } else if text::same_text(k, "vdec") {
            self.video_decoders = csv_lower(v);
        } else if text::same_text(k, "adec") {
            self.audio_decoders = csv_lower(v);
        } else if text::same_text(k, "subs") {
            self.subtitles = csv_lower(v);
        } else if text::same_text(k, "hdr") {
            self.hdr = csv_lower(v);
        } else if text::same_text(k, "webcodecs") {
            self.webcodecs = parse_bool(v);
        } else if text::same_text(k, "webgpu") {
            self.webgpu = parse_bool(v);
        } else if text::same_text(k, "mse") {
            self.mse = parse_bool(v);
        } else if text::same_text(k, "mms") {
            self.mms = parse_bool(v);
        } else if text::same_text(k, "legacy") {
            self.legacy = parse_bool(v);
        } else if text::same_text(k, "platform") {
            self.platform = Some(value);
        } else if text::same_text(k, "bandwidth") {
            self.bandwidth = Some(value);
        } else {
            self.extras.insert(key, value);
        }
    }

    /// Whether the client takes the container `c`.
    pub fn has_container(&self, c: &str) -> (r: bool)
        ensures
            r == holds_ci(self@.containers, c@),
    {
        contains_ci(&self.containers, c)
    }

    /// Whether the client decodes the video codec `c`.
    pub fn has_video_decoder(&self, c: &str) -> (r: bool)
        ensures
            r == holds_ci(self@.video_decoders, c@),
    {
        contains_ci(&self.video_decoders, c)
    }

    /// Whether the client decodes the audio codec `c`.
    pub fn has_audio_decoder(&self, c: &str) -> (r: bool)
        ensures
            r == holds_ci(self@.audio_decoders, c@),
    {
        contains_ci(&self.audio_decoders, c)
    }

    /// Whether the client renders the subtitle format `c`.
    pub fn supports_subtitle(&self, c: &str) -> (r: bool)
        ensures
            r == holds_ci(self@.subtitles, c@),
    {
        contains_ci(&self.subtitles, c)
    }

    /// Writes the header that declares these capabilities.
    pub fn to_header(&self) -> (r: String)
        ensures
            r@ == header(self@),
    {
        let mut parts: Vec<String> = Vec::new();
        assert(text::views(parts@) =~= seq![]);
        push_csv(&mut parts, "container", &self.containers);
        push_csv(&mut parts, "vdec", &self.video_decoders);
        push_csv(&mut parts, "adec", &self.audio_decoders);
        push_csv(&mut parts, "subs", &self.subtitles);
        push_csv(&mut parts, "hdr", &self.hdr);
        push_bool(&mut parts, "webcodecs", self.webcodecs);
        push_bool(&mut parts, "webgpu", self.webgpu);
        push_bool(&mut parts, "mse", self.mse);
        push_bool(&mut parts, "mms", self.mms);
        push_bool(&mut parts, "legacy", self.legacy);
        push_word(&mut parts, "platform", &self.platform);
        push_word(&mut parts, "bandwidth", &self.bandwidth);
        let ghost before = text::views(parts@);
        let ghost extras = extra_parts(self.extras@);
        assert(before + extras.take(0) =~= before);
        let n: usize = self.extras.len();
        for i in 0..n
            invariant
                n == self.extras@.len(),
                extras == extra_parts(self.extras@),
                text::views(parts@) == before + extras.take(i as int),
        {
            let s = write_pair(self.extras.key_at(i), self.extras.value_at(i).as_str());
            push_part(&mut parts, s);
            assert(before + extras.take(i + 1) =~= (before + extras.take(i as int)).push(
                extras[i as int],
            ));
        }
        assert(extras.take(n as int) =~= extras);
        assert(text::views(parts@) =~= header_parts(self@));
        text::join(&parts, "; ")
    }
}

/// Whether `needle` is among `haystack`, up to ASCII case.
pub open spec fn holds_ci(haystack: Seq<Seq<char>>, needle: Seq<char>) -> bool {
    exists|i: int|
        0 <= i < haystack.len() && text::lowered(#[trigger] haystack[i]) == text::lowered(needle)
}

fn csv_lower(s: &str) -> (r: Vec<String>)
    ensures
        text::views(r@) == csv_items(s@),
{
    let parts = text::split(s, ',');
    let ghost all = text::pieces(s@, ',');
    let mut out: Vec<String> = Vec::new();
    assert(text::views(out@) =~= lower_items(all.take(0)));
    for i in 0..parts.len()
        invariant
            text::views(parts@) == all,
            text::views(out@) == lower_items(all.take(i as int)),
    {
        let ghost upto = all.take(i + 1);
        assert(upto.drop_last() =~= all.take(i as int));
        assert(upto.last() == parts[i as int]@);
        let t = text::trim(parts[i].as_str());
        let item = text::to_ascii_lowercase(t.as_str());
        if !text::is_blank(item.as_str()) {
            let ghost before = text::views(out@);
            let ghost item_view = item@;
            out.push(item);
            assert(text::views(out@) =~= before.push(item_view));
        }
    }
    assert(all.take(parts.len() as int) =~= all);
    out
}

fn parse_bool(s: &str) -> (r: bool)
    ensures
        r == is_truthy(s@),
{
    let t = text::trim(s);
    let v = text::to_ascii_lowercase(t.as_str());
    text::same_text(v.as_str(), "1") || text::same_text(v.as_str(), "true") || text::same_text(
        v.as_str(),
        "yes",
    ) || text::same_text(v.as_str(), "on")
}

fn write_pair(key: &str, value: &str) -> (r: String)
    ensures
        r@ == pair(key@, value@),
{
    let mut s = key.to_string();
    s.append("=");
    s.append(value);
    s
}

fn push_part(parts: &mut Vec<String>, part: String)
    ensures
        text::views(final(parts)@) == text::views(old(parts)@).push(part@),
{
    let ghost before = text::views(parts@);
    let ghost p = part@;
    parts.push(part);
    assert(text::views(parts@) =~= before.push(p));
}

fn push_csv(parts: &mut Vec<String>, name: &str, items: &Vec<String>)
    ensures
        text::views(final(parts)@) == text::views(old(parts)@) + csv_part(
            name@,
            text::views(items@),
        ),
{
    if items.len() != 0 {
        let value = text::join(items, ",");
        let s = write_pair(name, value.as_str());
        push_part(parts, s);
    }
}

fn push_bool(parts: &mut Vec<String>, name: &str, value: bool)
    ensures
        text::views(final(parts)@) == text::views(old(parts)@) + flag_part(name@, value),
{
    if value {
        let s = write_pair(name, "1");
        push_part(parts, s);
    }
}

fn push_word(parts: &mut Vec<String>, name: &str, value: &Option<String>)
    ensures
        text::views(final(parts)@) == text::views(old(parts)@) + word_part(
            name@,
            text::opt_view(*value),
        ),
{
    match value {
        Some(v) => {
            let s = write_pair(name, v.as_str());
            push_part(parts, s);
        },
        None => {},
    }
}

fn contains_ci(haystack: &Vec<String>, needle: &str) -> (r: bool)
    ensures
        r == holds_ci(text::views(haystack@), needle@),
{
    let ghost all = text::views(haystack@);
    for i in 0..haystack.len()
        invariant
            all == text::views(haystack@),
            forall|j: int| 0 <= j < i ==> text::lowered(#[trigger] all[j]) != text::lowered(needle@),
    {
        if text::eq_ignore_ascii_case(haystack[i].as_str(), needle) {
            assert(text::lowered(all[i as int]) == text::lowered(needle@));
            return true;
        }
    }
    false
}

// ---------------------------------------------------------------------------
// Laws
// ---------------------------------------------------------------------------

/// The key is one of those with a field of its own.
pub open spec fn known_key(key: Seq<char>) -> bool {
    key == "container"@ || key == "vdec"@ || key == "adec"@ || key == "subs"@ || key == "hdr"@
        || key == "webcodecs"@ || key == "webgpu"@ || key == "mse"@ || key == "mms"@ || key
        == "legacy"@ || key == "platform"@ || key == "bandwidth"@
}

/// An item of a comma-separated value, as a header can carry it.
pub open spec fn plain_item(s: Seq<char>) -> bool {
    &&& s.len() > 0
    &&& text::is_trimmed(s)
    &&& text::is_lower(s)
    &&& text::lacks(s, ',')
    &&& text::lacks(s, ';')
}

pub open spec fn plain_items(items: Seq<Seq<char>>) -> bool {
    forall|i: int| 0 <= i < items.len() ==> plain_item(#[trigger] items[i])
}

/// A free-form value, as a header can carry it.
pub open spec fn plain_value(s: Seq<char>) -> bool {
    s.len() > 0 && text::is_trimmed(s) && text::lacks(s, ';')
}

/// An unknown key, as a header can carry it.
pub open spec fn plain_key(s: Seq<char>) -> bool {
    &&& s.len() > 0
    &&& text::is_trimmed(s)
    &&& text::is_lower(s)
    &&& text::lacks(s, ';')
    &&& text::lacks(s, '=')
    &&& !known_key(s)
}

/// What a header can express: exactly the results of parsing one.
pub open spec fn expressible(c: Caps) -> bool {
    &&& plain_items(c.containers)
    &&& plain_items(c.video_decoders)
    &&& plain_items(c.audio_decoders)
    &&& plain_items(c.subtitles)
    &&& plain_items(c.hdr)
    &&& c.platform matches Some(v) ==> plain_value(v)
    &&& c.bandwidth matches Some(v) ==> plain_value(v)
    &&& text_map::in_order(c.extras)
    &&& forall|i: int|
        0 <= i < c.extras.len() ==> plain_key((#[trigger] c.extras[i]).0) && plain_value(
            c.extras[i].1,
        )
}

proof fn lemma_lower_items_plain(parts: Seq<Seq<char>>)
    requires
        forall|i: int|
            0 <= i < parts.len() ==> text::lacks(#[trigger] parts[i], ',') && text::lacks(
                parts[i],
                ';',
            ),
    ensures
        plain_items(lower_items(parts)),
    decreases parts.len(),
{
    if parts.len() > 0 {
        let last = parts.last();
        assert(text::lacks(parts[parts.len() - 1], ','));
        lemma_lower_items_plain(parts.drop_last());
        text::lemma_trimmed(last);
        text::lemma_lowered(text::trimmed(last));
        assert(text::lacks(text::trimmed(last), ','));
        assert(text::lacks(text::trimmed(last), ';'));
        assert(text::lacks(text::lowered(text::trimmed(last)), ','));
        assert(text::lacks(text::lowered(text::trimmed(last)), ';'));
    }
}

proof fn lemma_pieces_keep_lacking(s: Seq<char>, c: char, d: char)
    requires
        text::lacks(s, d),
    ensures
        forall|i: int|
            0 <= i < text::pieces(s, c).len() ==> text::lacks(#[trigger] text::pieces(s, c)[i], d),
    decreases s.len(),
{
    text::lemma_first_of(s, c);
    let i = text::first_of(s, c);
    if i < s.len() {
        let rest = s.skip(i + 1);
        assert forall|k: int| 0 <= k < rest.len() implies #[trigger] rest[k] != d by {
            assert(s[i + 1 + k] != d);
        }
        lemma_pieces_keep_lacking(rest, c, d);
        assert forall|k: int| 0 <= k < text::pieces(s, c).len() implies text::lacks(
            #[trigger] text::pieces(s, c)[k],
            d,
        ) by {
            if k == 0 {
                assert forall|m: int| 0 <= m < s.take(i).len() implies #[trigger] s.take(i)[m]
                    != d by {
                    assert(s[m] != d);
                }
            } else {
                assert(text::pieces(s, c)[k] == text::pieces(rest, c)[k - 1]);
            }
        }
    }
}

proof fn lemma_stretch_expressible(c: Caps, stretch: Seq<char>)
    requires
        expressible(c),
        text::lacks(stretch, ';'),
    ensures
        expressible(with_stretch(c, stretch)),
{
    let p = text::trimmed(stretch);
    text::lemma_trimmed(stretch);
    assert(text::lacks(p, ';'));
    let i = text::first_of(p, '=');
    text::lemma_first_of(p, '=');
    if i < p.len() {
        let k0 = p.take(i);
        let v0 = p.skip(i + 1);
        assert forall|m: int| 0 <= m < k0.len() implies #[trigger] k0[m] != ';' by {
            assert(p[m] != ';');
        }
        assert forall|m: int| 0 <= m < v0.len() implies #[trigger] v0[m] != ';' by {
            assert(p[i + 1 + m] != ';');
        }
        text::lemma_trimmed(k0);
        text::lemma_trimmed(v0);
        text::lemma_lowered(text::trimmed(k0));
        let key = text::lowered(text::trimmed(k0));
        let value = text::trimmed(v0);
        assert(text::lacks(text::trimmed(k0), ';'));
        assert(text::lacks(text::trimmed(k0), '='));
        assert(text::lacks(key, ';'));
        assert(text::lacks(key, '='));
        assert(text::lacks(value, ';'));
        text::lemma_pieces_lack(value, ',');
        lemma_pieces_keep_lacking(value, ',', ';');
        lemma_lower_items_plain(text::pieces(value, ','));
        text_map::put_keeps_order(c.extras, key, value);
        if !known_key(key) && key.len() > 0 && value.len() > 0 {
            lemma_put_plain(c.extras, key, value);
        }
    }
}

proof fn lemma_put_plain(l: Seq<(Seq<char>, Seq<char>)>, k: Seq<char>, v: Seq<char>)
    requires
        plain_key(k),
        plain_value(v),
        forall|i: int|
            0 <= i < l.len() ==> plain_key((#[trigger] l[i]).0) && plain_value(l[i].1),
    ensures
        forall|i: int|
            0 <= i < text_map::put(l, k, v).len() ==> plain_key(
                (#[trigger] text_map::put(l, k, v)[i]).0,
            ) && plain_value(text_map::put(l, k, v)[i].1),
    decreases l.len(),
{
    if l.len() > 0 {
        let t = l.drop_first();
        assert forall|i: int| 0 <= i < t.len() implies plain_key((#[trigger] t[i]).0)
            && plain_value(t[i].1) by {
            assert(t[i] == l[i + 1]);
        }
        lemma_put_plain(t, k, v);
        let m = text_map::put(l, k, v);
        assert forall|i: int| 0 <= i < m.len() implies plain_key((#[trigger] m[i]).0)
            && plain_value(m[i].1) by {
            assert(plain_key(l[0].0));
            if i > 0 {
                if l[0].0 == k {
                    assert(m[i] == l[i]);
                } else if text::text_lt(k, l[0].0) {
                    assert(m[i] == l[i - 1]);
                } else {
                    assert(m[i] == text_map::put(t, k, v)[i - 1]);
                }
            }
        }
    }
}

proof fn lemma_stretches_expressible(stretches: Seq<Seq<char>>)
    requires
        forall|i: int| 0 <= i < stretches.len() ==> text::lacks(#[trigger] stretches[i], ';'),
    ensures
        expressible(with_stretches(no_caps(), stretches)),
    decreases stretches.len(),
{
    if stretches.len() > 0 {
        lemma_stretches_expressible(stretches.drop_last());
        assert(text::lacks(stretches[stretches.len() - 1], ';'));
        lemma_stretch_expressible(
            with_stretches(no_caps(), stretches.drop_last()),
            stretches.last(),
        );
    }
}

/// Parsing any header gives capabilities that a header can express.
pub proof fn parsed_is_expressible(s: Seq<char>)
    ensures
        expressible(parsed(s)),
{
    text::lemma_pieces_lack(s, ';');
    lemma_stretches_expressible(text::pieces(s, ';'));
}

/// A pair whose key and value are trimmed reads back as that pair.
proof fn lemma_pair_stretch(c: Caps, pre: Seq<char>, key: Seq<char>, value: Seq<char>)
    requires
        pre == Seq::<char>::empty() || pre == seq![' '],
        key.len() > 0,
        value.len() > 0,
        text::is_trimmed(key),
        text::is_lower(key),
        text::lacks(key, '='),
        text::is_trimmed(value),
    ensures
        with_stretch(c, pre + pair(key, value)) == with_pair(c, key, value),
{
    reveal_strlit("=");
    let p = pair(key, value);
    assert(p =~= key + seq!['='] + value);
    if pre.len() == 0 {
        assert(pre + p =~= p);
    } else {
        text::lemma_trimmed_after_space(p);
    }
    assert(text::is_trimmed(p)) by {
        if key.len() > 0 {
            assert(p[0] == key[0]);
        }
        if value.len() > 0 {
            assert(p.last() == value.last());
        }
    }
    text::lemma_trimmed(p);
    text::lemma_first_of_joint(key, '=', value);
    assert(p.take(key.len() as int) =~= key);
    assert(p.skip(key.len() as int + 1) =~= value);
    text::lemma_trimmed(key);
    text::lemma_lowered(key);
    text::lemma_trimmed(value);
}

proof fn lemma_lower_items_fixed(parts: Seq<Seq<char>>)
    requires
        plain_items(parts),
    ensures
        lower_items(parts) == parts,
    decreases parts.len(),
{
    if parts.len() > 0 {
        let last = parts.last();
        assert(plain_item(parts[parts.len() - 1]));
        assert forall|i: int| 0 <= i < parts.drop_last().len() implies plain_item(
            #[trigger] parts.drop_last()[i],
        ) by {
            assert(plain_item(parts[i]));
        }
        lemma_lower_items_fixed(parts.drop_last());
        text::lemma_trimmed(last);
        text::lemma_lowered(last);
        assert(parts.drop_last().push(last) =~= parts);
    } else {
        assert(lower_items(parts) =~= parts);
    }
}

proof fn lemma_joined_ends(items: Seq<Seq<char>>)
    requires
        items.len() > 0,
        plain_items(items),
    ensures
        text::joined(items, ","@).len() > 0,
        text::joined(items, ","@)[0] == items[0][0],
        text::joined(items, ","@).last() == items.last().last(),
        text::lacks(text::joined(items, ","@), ';'),
    decreases items.len(),
{
    reveal_strlit(",");
    assert(plain_item(items[0]));
    if items.len() > 1 {
        let rest = items.drop_first();
        assert forall|i: int| 0 <= i < rest.len() implies plain_item(#[trigger] rest[i]) by {
            assert(plain_item(items[i + 1]));
        }
        lemma_joined_ends(rest);
        let j = text::joined(items, ","@);
        let jr = text::joined(rest, ","@);
        assert(j == items[0] + ","@ + jr);
        assert forall|i: int| 0 <= i < j.len() implies #[trigger] j[i] != ';' by {
            if i < items[0].len() {
                assert(items[0][i] != ';');
            } else if i > items[0].len() {
                assert(j[i] == jr[i - items[0].len() - 1]);
            }
        }
    }
}

/// Reading back a written comma-separated list gives the list.
proof fn lemma_csv_round_trip(items: Seq<Seq<char>>)
    requires
        items.len() > 0,
        plain_items(items),
    ensures
        csv_items(text::joined(items, ","@)) == items,
        text::joined(items, ","@).len() > 0,
        text::is_trimmed(text::joined(items, ","@)),
        text::lacks(text::joined(items, ","@), ';'),
{
    reveal_strlit(",");
    lemma_joined_ends(items);
    assert(plain_item(items[0]));
    assert(plain_item(items[items.len() - 1]));
    assert(","@ =~= seq![','] + Seq::<char>::empty());
    let j = text::joined(items, ","@);
    assert forall|i: int| 0 <= i < items.len() implies text::lacks(#[trigger] items[i], ',') by {
        assert(plain_item(items[i]));
    }
    text::lemma_pieces_of_joined(Seq::empty(), items, ',', Seq::empty());
    assert(Seq::<char>::empty() + j =~= j);
    let ps = text::pieces(j, ',');
    assert forall|i: int| 0 <= i < items.len() implies ps[i] == items[i] by {
        assert(Seq::<char>::empty() + items[i] =~= items[i]);
    }
    assert(ps =~= items);
    lemma_lower_items_fixed(items);
}

/// The stretches that a written header splits into: every pair but the first
/// behind a space.
spec fn spaced(parts: Seq<Seq<char>>) -> Seq<Seq<char>> {
    Seq::new(
        parts.len(),
        |i: int|
            if i == 0 {
                Seq::<char>::empty() + parts[i]
            } else {
                seq![' '] + parts[i]
            },
    )
}

proof fn lemma_stretches_split(c: Caps, a: Seq<Seq<char>>, b: Seq<Seq<char>>)
    ensures
        with_stretches(c, a + b) == with_stretches(with_stretches(c, a), b),
    decreases b.len(),
{
    if b.len() == 0 {
        assert(a + b =~= a);
    } else {
        assert((a + b).drop_last() =~= a + b.drop_last());
        lemma_stretches_split(c, a, b.drop_last());
    }
}

/// `c` after the pairs `parts`, however each is spaced.
proof fn lemma_spacing_is_free(c: Caps, parts: Seq<Seq<char>>)
    ensures
        with_stretches(c, spaced(parts)) == with_stretches(c, parts),
    decreases parts.len(),
{
    if parts.len() > 0 {
        let sp = spaced(parts);
        assert(sp.drop_last() =~= spaced(parts.drop_last()));
        lemma_spacing_is_free(c, parts.drop_last());
        let last = parts.last();
        if parts.len() == 1 {
            assert(Seq::<char>::empty() + last =~= last);
        } else {
            text::lemma_trimmed_after_space(last);
        }
    }
}

proof fn lemma_one_stretch(c: Caps, s: Seq<char>)
    ensures
        with_stretches(c, seq![s]) == with_stretch(c, s),
{
    assert(seq![s].drop_last() =~= seq![]);
    assert(with_stretches(c, seq![s].drop_last()) == c);
}

proof fn lemma_pair_part(c: Caps, key: Seq<char>, value: Seq<char>)
    requires
        key.len() > 0,
        value.len() > 0,
        text::is_trimmed(key),
        text::is_lower(key),
        text::lacks(key, '='),
        text::is_trimmed(value),
    ensures
        with_stretches(c, seq![pair(key, value)]) == with_pair(c, key, value),
{
    lemma_one_stretch(c, pair(key, value));
    lemma_pair_stretch(c, Seq::empty(), key, value);
    assert(Seq::<char>::empty() + pair(key, value) =~= pair(key, value));
}

proof fn lemma_csv_part(c: Caps, key: Seq<char>, items: Seq<Seq<char>>)
    requires
        key.len() > 0,
        text::is_trimmed(key),
        text::is_lower(key),
        text::lacks(key, '='),
        plain_items(items),
    ensures
        with_stretches(c, csv_part(key, items)) == if items.len() == 0 {
            c
        } else {
            with_pair(c, key, text::joined(items, ","@))
        },
        items.len() > 0 ==> csv_items(text::joined(items, ","@)) == items,
{
    if items.len() > 0 {
        lemma_csv_round_trip(items);
        lemma_pair_part(c, key, text::joined(items, ","@));
    }
}

proof fn lemma_flag_part(c: Caps, key: Seq<char>, value: bool)
    requires
        key.len() > 0,
        text::is_trimmed(key),
        text::is_lower(key),
        text::lacks(key, '='),
    ensures
        with_stretches(c, flag_part(key, value)) == if value {
            with_pair(c, key, "1"@)
        } else {
            c
        },
        is_truthy("1"@),
{
    reveal_strlit("1");
    text::lemma_trimmed("1"@);
    text::lemma_lowered("1"@);
    if value {
        lemma_pair_part(c, key, "1"@);
    }
}

proof fn lemma_word_part(c: Caps, key: Seq<char>, value: Option<Seq<char>>)
    requires
        key.len() > 0,
        text::is_trimmed(key),
        text::is_lower(key),
        text::lacks(key, '='),
        value matches Some(v) ==> plain_value(v),
    ensures
        with_stretches(c, word_part(key, value)) == match value {
            Some(v) => with_pair(c, key, v),
            None => c,
        },
{
    if let Some(v) = value {
        lemma_pair_part(c, key, v);
    }
}

proof fn lemma_extra_parts(c: Caps, extras: Seq<(Seq<char>, Seq<char>)>)
    requires
        c.extras.len() == 0,
        text_map::in_order(extras),
        forall|i: int|
            0 <= i < extras.len() ==> plain_key((#[trigger] extras[i]).0) && plain_value(
                extras[i].1,
            ),
    ensures
        with_stretches(c, extra_parts(extras)) == (Caps { extras, ..c }),
    decreases extras.len(),
{
    let parts = extra_parts(extras);
    if extras.len() == 0 {
        assert(c.extras =~= extras);
    } else {
        let e = extras.drop_last();
        let (k, v) = extras.last();
        assert(plain_key(extras[extras.len() - 1].0));
        assert forall|i: int, j: int| 0 <= i < j < e.len() implies text::text_lt(
            (#[trigger] e[i]).0,
            (#[trigger] e[j]).0,
        ) by {
            assert(e[i] == extras[i] && e[j] == extras[j]);
        }
        assert forall|i: int| 0 <= i < e.len() implies plain_key((#[trigger] e[i]).0)
            && plain_value(e[i].1) by {
            assert(e[i] == extras[i]);
        }
        lemma_extra_parts(c, e);
        assert(parts.drop_last() =~= extra_parts(e));
        let before = with_stretches(c, extra_parts(e));
        lemma_pair_stretch(before, Seq::empty(), k, v);
        assert(Seq::<char>::empty() + pair(k, v) =~= pair(k, v));
        assert forall|i: int| 0 <= i < e.len() implies text::text_lt((#[trigger] e[i]).0, k) by {
            assert(text::text_lt(extras[i].0, extras[extras.len() - 1].0));
        }
        text_map::put_at_end(e, k, v);
        assert(e.push((k, v)) =~= extras);
    }
}

/// The names of the known keys, letter by letter.
proof fn lemma_key_names()
    ensures
        "container"@.len() > 0 && text::is_trimmed("container"@) && text::is_lower("container"@) && text::lacks("container"@, '=') && text::lacks("container"@, ';'),
        "vdec"@.len() > 0 && text::is_trimmed("vdec"@) && text::is_lower("vdec"@) && text::lacks("vdec"@, '=') && text::lacks("vdec"@, ';'),
        "adec"@.len() > 0 && text::is_trimmed("adec"@) && text::is_lower("adec"@) && text::lacks("adec"@, '=') && text::lacks("adec"@, ';'),
        "subs"@.len() > 0 && text::is_trimmed("subs"@) && text::is_lower("subs"@) && text::lacks("subs"@, '=') && text::lacks("subs"@, ';'),
        "hdr"@.len() > 0 && text::is_trimmed("hdr"@) && text::is_lower("hdr"@) && text::lacks("hdr"@, '=') && text::lacks("hdr"@, ';'),
        "webcodecs"@.len() > 0 && text::is_trimmed("webcodecs"@) && text::is_lower("webcodecs"@) && text::lacks("webcodecs"@, '=') && text::lacks("webcodecs"@, ';'),
        "webgpu"@.len() > 0 && text::is_trimmed("webgpu"@) && text::is_lower("webgpu"@) && text::lacks("webgpu"@, '=') && text::lacks("webgpu"@, ';'),
        "mse"@.len() > 0 && text::is_trimmed("mse"@) && text::is_lower("mse"@) && text::lacks("mse"@, '=') && text::lacks("mse"@, ';'),
        "mms"@.len() > 0 && text::is_trimmed("mms"@) && text::is_lower("mms"@) && text::lacks("mms"@, '=') && text::lacks("mms"@, ';'),
        "legacy"@.len() > 0 && text::is_trimmed("legacy"@) && text::is_lower("legacy"@) && text::lacks("legacy"@, '=') && text::lacks("legacy"@, ';'),
        "platform"@.len() > 0 && text::is_trimmed("platform"@) && text::is_lower("platform"@) && text::lacks("platform"@, '=') && text::lacks("platform"@, ';'),
        "bandwidth"@.len() > 0 && text::is_trimmed("bandwidth"@) && text::is_lower("bandwidth"@) && text::lacks("bandwidth"@, '=') && text::lacks("bandwidth"@, ';'),
        "container"@ != "vdec"@,
        "container"@ != "adec"@,
        "container"@ != "subs"@,
        "container"@ != "hdr"@,
        "container"@ != "webcodecs"@,
        "container"@ != "webgpu"@,
        "container"@ != "mse"@,
        "container"@ != "mms"@,
        "container"@ != "legacy"@,
        "container"@ != "platform"@,
        "container"@ != "bandwidth"@,
        "vdec"@ != "adec"@,
        "vdec"@ != "subs"@,
        "vdec"@ != "hdr"@,
        "vdec"@ != "webcodecs"@,
        "vdec"@ != "webgpu"@,
        "vdec"@ != "mse"@,
        "vdec"@ != "mms"@,
        "vdec"@ != "legacy"@,
        "vdec"@ != "platform"@,
        "vdec"@ != "bandwidth"@,
        "adec"@ != "subs"@,
        "adec"@ != "hdr"@,
        "adec"@ != "webcodecs"@,
        "adec"@ != "webgpu"@,
        "adec"@ != "mse"@,
        "adec"@ != "mms"@,
        "adec"@ != "legacy"@,
        "adec"@ != "platform"@,
        "adec"@ != "bandwidth"@,
        "subs"@ != "hdr"@,
        "subs"@ != "webcodecs"@,
        "subs"@ != "webgpu"@,
        "subs"@ != "mse"@,
        "subs"@ != "mms"@,
        "subs"@ != "legacy"@,
        "subs"@ != "platform"@,
        "subs"@ != "bandwidth"@,
        "hdr"@ != "webcodecs"@,
        "hdr"@ != "webgpu"@,
        "hdr"@ != "mse"@,
        "hdr"@ != "mms"@,
        "hdr"@ != "legacy"@,
        "hdr"@ != "platform"@,
        "hdr"@ != "bandwidth"@,
        "webcodecs"@ != "webgpu"@,
        "webcodecs"@ != "mse"@,
        "webcodecs"@ != "mms"@,
        "webcodecs"@ != "legacy"@,
        "webcodecs"@ != "platform"@,
        "webcodecs"@ != "bandwidth"@,
        "webgpu"@ != "mse"@,
        "webgpu"@ != "mms"@,
        "webgpu"@ != "legacy"@,
        "webgpu"@ != "platform"@,
        "webgpu"@ != "bandwidth"@,
        "mse"@ != "mms"@,
        "mse"@ != "legacy"@,
        "mse"@ != "platform"@,
        "mse"@ != "bandwidth"@,
        "mms"@ != "legacy"@,
        "mms"@ != "platform"@,
        "mms"@ != "bandwidth"@,
        "legacy"@ != "platform"@,
        "legacy"@ != "bandwidth"@,
        "platform"@ != "bandwidth"@,
{
    reveal_strlit("container");
    assert("container"@.len() == 9);
    reveal_strlit("vdec");
    assert("vdec"@.len() == 4);
    reveal_strlit("adec");
    assert("adec"@.len() == 4);
    reveal_strlit("subs");
    assert("subs"@.len() == 4);
    reveal_strlit("hdr");
    assert("hdr"@.len() == 3);
    reveal_strlit("webcodecs");
    assert("webcodecs"@.len() == 9);
    reveal_strlit("webgpu");
    assert("webgpu"@.len() == 6);
    reveal_strlit("mse");
    assert("mse"@.len() == 3);
    reveal_strlit("mms");
    assert("mms"@.len() == 3);
    reveal_strlit("legacy");
    assert("legacy"@.len() == 6);
    reveal_strlit("platform");
    assert("platform"@.len() == 8);
    reveal_strlit("bandwidth");
    assert("bandwidth"@.len() == 9);
    assert("container"@[0] != "webcodecs"@[0]);
    assert("container"@[0] != "bandwidth"@[0]);
    assert("vdec"@[0] != "adec"@[0]);
    assert("vdec"@[0] != "subs"@[0]);
    assert("adec"@[0] != "subs"@[0]);
    assert("hdr"@[0] != "mse"@[0]);
    assert("hdr"@[0] != "mms"@[0]);
    assert("webcodecs"@[0] != "bandwidth"@[0]);
    assert("webgpu"@[0] != "legacy"@[0]);
    assert("mse"@[1] != "mms"@[1]);
}

proof fn lemma_containers_part(c: Caps, items: Seq<Seq<char>>)
    requires
        plain_items(items),
        c.containers.len() == 0,
    ensures
        with_stretches(c, csv_part("container"@, items)) == (Caps { containers: items, ..c }),
{
    lemma_key_names();
    lemma_csv_part(c, "container"@, items);
    if items.len() == 0 {
        assert(items =~= c.containers);
    }
}

proof fn lemma_video_decoders_part(c: Caps, items: Seq<Seq<char>>)
    requires
        plain_items(items),
        c.video_decoders.len() == 0,
    ensures
        with_stretches(c, csv_part("vdec"@, items)) == (Caps { video_decoders: items, ..c }),
{
    lemma_key_names();
    lemma_csv_part(c, "vdec"@, items);
    if items.len() == 0 {
        assert(items =~= c.video_decoders);
    }
}

proof fn lemma_audio_decoders_part(c: Caps, items: Seq<Seq<char>>)
    requires
        plain_items(items),
        c.audio_decoders.len() == 0,
    ensures
        with_stretches(c, csv_part("adec"@, items)) == (Caps { audio_decoders: items, ..c }),
{
    lemma_key_names();
    lemma_csv_part(c, "adec"@, items);
    if items.len() == 0 {
        assert(items =~= c.audio_decoders);
    }
}

proof fn lemma_subtitles_part(c: Caps, items: Seq<Seq<char>>)
    requires
        plain_items(items),
        c.subtitles.len() == 0,
    ensures
        with_stretches(c, csv_part("subs"@, items)) == (Caps { subtitles: items, ..c }),
{
    lemma_key_names();
    lemma_csv_part(c, "subs"@, items);
    if items.len() == 0 {
        assert(items =~= c.subtitles);
    }
}

proof fn lemma_hdr_part(c: Caps, items: Seq<Seq<char>>)
    requires
        plain_items(items),
        c.hdr.len() == 0,
    ensures
        with_stretches(c, csv_part("hdr"@, items)) == (Caps { hdr: items, ..c }),
{
    lemma_key_names();
    lemma_csv_part(c, "hdr"@, items);
    if items.len() == 0 {
        assert(items =~= c.hdr);
    }
}

proof fn lemma_webcodecs_part(c: Caps, value: bool)
    requires
        !c.webcodecs,
    ensures
        with_stretches(c, flag_part("webcodecs"@, value)) == (Caps { webcodecs: value, ..c }),
{
    lemma_key_names();
    lemma_flag_part(c, "webcodecs"@, value);
}

proof fn lemma_webgpu_part(c: Caps, value: bool)
    requires
        !c.webgpu,
    ensures
        with_stretches(c, flag_part("webgpu"@, value)) == (Caps { webgpu: value, ..c }),
{
    lemma_key_names();
    lemma_flag_part(c, "webgpu"@, value);
}

proof fn lemma_mse_part(c: Caps, value: bool)
    requires
        !c.mse,
    ensures
        with_stretches(c, flag_part("mse"@, value)) == (Caps { mse: value, ..c }),
{
    lemma_key_names();
    lemma_flag_part(c, "mse"@, value);
}

proof fn lemma_mms_part(c: Caps, value: bool)
    requires
        !c.mms,
    ensures
        with_stretches(c, flag_part("mms"@, value)) == (Caps { mms: value, ..c }),
{
    lemma_key_names();
    lemma_flag_part(c, "mms"@, value);
}

proof fn lemma_legacy_part(c: Caps, value: bool)
    requires
        !c.legacy,
    ensures
        with_stretches(c, flag_part("legacy"@, value)) == (Caps { legacy: value, ..c }),
{
    lemma_key_names();
    lemma_flag_part(c, "legacy"@, value);
}

proof fn lemma_platform_part(c: Caps, value: Option<Seq<char>>)
    requires
        c.platform is None,
        value matches Some(v) ==> plain_value(v),
    ensures
        with_stretches(c, word_part("platform"@, value)) == (Caps { platform: value, ..c }),
{
    lemma_key_names();
    lemma_word_part(c, "platform"@, value);
}

proof fn lemma_bandwidth_part(c: Caps, value: Option<Seq<char>>)
    requires
        c.bandwidth is None,
        value matches Some(v) ==> plain_value(v),
    ensures
        with_stretches(c, word_part("bandwidth"@, value)) == (Caps { bandwidth: value, ..c }),
{
    lemma_key_names();
    lemma_word_part(c, "bandwidth"@, value);
}

proof fn lemma_step(c: Caps, a: Seq<Seq<char>>, d: Caps, b: Seq<Seq<char>>, e: Caps)
    requires
        with_stretches(c, a) == d,
        with_stretches(d, b) == e,
    ensures
        with_stretches(c, a + b) == e,
{
    lemma_stretches_split(c, a, b);
}

proof fn lemma_parts_declare(c: Caps)
    requires
        expressible(c),
    ensures
        with_stretches(no_caps(), header_parts(c)) == c,
{
    let c0 = no_caps();
    let p0 = Seq::<Seq<char>>::empty();
    let x1 = csv_part("container"@, c.containers);
    let p1 = p0 + x1;
    let c1 = Caps { containers: c.containers, ..c0 };
    lemma_containers_part(c0, c.containers);
    lemma_step(c0, p0, c0, x1, c1);
    let x2 = csv_part("vdec"@, c.video_decoders);
    let p2 = p1 + x2;
    let c2 = Caps { video_decoders: c.video_decoders, ..c1 };
    lemma_video_decoders_part(c1, c.video_decoders);
    lemma_step(c0, p1, c1, x2, c2);
    let x3 = csv_part("adec"@, c.audio_decoders);
    let p3 = p2 + x3;
    let c3 = Caps { audio_decoders: c.audio_decoders, ..c2 };
    lemma_audio_decoders_part(c2, c.audio_decoders);
    lemma_step(c0, p2, c2, x3, c3);
    let x4 = csv_part("subs"@, c.subtitles);
    let p4 = p3 + x4;
    let c4 = Caps { subtitles: c.subtitles, ..c3 };
    lemma_subtitles_part(c3, c.subtitles);
    lemma_step(c0, p3, c3, x4, c4);
    let x5 = csv_part("hdr"@, c.hdr);
    let p5 = p4 + x5;
    let c5 = Caps { hdr: c.hdr, ..c4 };
    lemma_hdr_part(c4, c.hdr);
    lemma_step(c0, p4, c4, x5, c5);
    let x6 = flag_part("webcodecs"@, c.webcodecs);
    let p6 = p5 + x6;
    let c6 = Caps { webcodecs: c.webcodecs, ..c5 };
    lemma_webcodecs_part(c5, c.webcodecs);
    lemma_step(c0, p5, c5, x6, c6);
    let x7 = flag_part("webgpu"@, c.webgpu);
    let p7 = p6 + x7;
    let c7 = Caps { webgpu: c.webgpu, ..c6 };
    lemma_webgpu_part(c6, c.webgpu);
    lemma_step(c0, p6, c6, x7, c7);
    let x8 = flag_part("mse"@, c.mse);
    let p8 = p7 + x8;
    let c8 = Caps { mse: c.mse, ..c7 };
    lemma_mse_part(c7, c.mse);
    lemma_step(c0, p7, c7, x8, c8);
    let x9 = flag_part("mms"@, c.mms);
    let p9 = p8 + x9;
    let c9 = Caps { mms: c.mms, ..c8 };
    lemma_mms_part(c8, c.mms);
    lemma_step(c0, p8, c8, x9, c9);
    let x10 = flag_part("legacy"@, c.legacy);
    let p10 = p9 + x10;
    let c10 = Caps { legacy: c.legacy, ..c9 };
    lemma_legacy_part(c9, c.legacy);
    lemma_step(c0, p9, c9, x10, c10);
    let x11 = word_part("platform"@, c.platform);
    let p11 = p10 + x11;
    let c11 = Caps { platform: c.platform, ..c10 };
    lemma_platform_part(c10, c.platform);
    lemma_step(c0, p10, c10, x11, c11);
    let x12 = word_part("bandwidth"@, c.bandwidth);
    let p12 = p11 + x12;
    let c12 = Caps { bandwidth: c.bandwidth, ..c11 };
    lemma_bandwidth_part(c11, c.bandwidth);
    lemma_step(c0, p11, c11, x12, c12);
    let x13 = extra_parts(c.extras);
    lemma_extra_parts(c12, c.extras);
    lemma_step(c0, p12, c12, x13, c);
    assert(p0 + x1 =~= x1);
}

/// What a header can express survives being written and parsed.
pub proof fn expressible_round_trips(c: Caps)
    requires
        expressible(c),
    ensures
        parsed(header(c)) == c,
{
    let c0 = no_caps();
    let parts = header_parts(c);
    lemma_parts_declare(c);
    lemma_parts_lack(c);
    reveal_strlit("; ");
    assert("; "@ =~= seq![';'] + seq![' ']);
    let h = header(c);
    if parts.len() == 0 {
        text::lemma_first_of(h, ';');
        assert(text::pieces(h, ';') =~= seq![h]);
        lemma_one_stretch(c0, h);
        text::lemma_trimmed(h);
    } else {
        text::lemma_pieces_of_joined(Seq::empty(), parts, ';', seq![' ']);
        assert(Seq::<char>::empty() + h =~= h);
        assert(text::pieces(h, ';') =~= spaced(parts));
        lemma_spacing_is_free(c0, parts);
    }
}

proof fn lemma_pair_lacks(key: Seq<char>, value: Seq<char>)
    requires
        text::lacks(key, ';'),
        text::lacks(value, ';'),
    ensures
        text::lacks(pair(key, value), ';'),
{
    reveal_strlit("=");
    let p = pair(key, value);
    assert forall|i: int| 0 <= i < p.len() implies #[trigger] p[i] != ';' by {
        if i < key.len() {
            assert(key[i] != ';');
        } else if i > key.len() {
            assert(value[i - key.len() - 1] != ';');
        }
    }
}

spec fn none_split(parts: Seq<Seq<char>>) -> bool {
    forall|i: int| 0 <= i < parts.len() ==> text::lacks(#[trigger] parts[i], ';')
}

proof fn lemma_none_split(a: Seq<Seq<char>>, b: Seq<Seq<char>>)
    requires
        none_split(a),
        none_split(b),
    ensures
        none_split(a + b),
{
    assert forall|i: int| 0 <= i < (a + b).len() implies text::lacks(#[trigger] (a + b)[i], ';') by {
        if i < a.len() {
            assert(text::lacks(a[i], ';'));
        } else {
            assert(text::lacks(b[i - a.len()], ';'));
        }
    }
}

proof fn lemma_csv_part_whole(key: Seq<char>, items: Seq<Seq<char>>)
    requires
        text::lacks(key, ';'),
        plain_items(items),
    ensures
        none_split(csv_part(key, items)),
{
    if items.len() > 0 {
        lemma_csv_round_trip(items);
        lemma_pair_lacks(key, text::joined(items, ","@));
    }
}

proof fn lemma_flag_part_whole(key: Seq<char>, value: bool)
    requires
        text::lacks(key, ';'),
    ensures
        none_split(flag_part(key, value)),
{
    reveal_strlit("1");
    assert(text::lacks("1"@, ';'));
    lemma_pair_lacks(key, "1"@);
}

proof fn lemma_word_part_whole(key: Seq<char>, value: Option<Seq<char>>)
    requires
        text::lacks(key, ';'),
        value matches Some(v) ==> plain_value(v),
    ensures
        none_split(word_part(key, value)),
{
    if let Some(v) = value {
        lemma_pair_lacks(key, v);
    }
}

proof fn lemma_parts_lack(c: Caps)
    requires
        expressible(c),
    ensures
        none_split(header_parts(c)),
{
    lemma_key_names();
    let p0 = Seq::<Seq<char>>::empty();
    let x1 = csv_part("container"@, c.containers);
    let p1 = p0 + x1;
    lemma_csv_part_whole("container"@, c.containers);
    lemma_none_split(p0, x1);
    let x2 = csv_part("vdec"@, c.video_decoders);
    let p2 = p1 + x2;
    lemma_csv_part_whole("vdec"@, c.video_decoders);
    lemma_none_split(p1, x2);
    let x3 = csv_part("adec"@, c.audio_decoders);
    let p3 = p2 + x3;
    lemma_csv_part_whole("adec"@, c.audio_decoders);
    lemma_none_split(p2, x3);
    let x4 = csv_part("subs"@, c.subtitles);
    let p4 = p3 + x4;
    lemma_csv_part_whole("subs"@, c.subtitles);
    lemma_none_split(p3, x4);
    let x5 = csv_part("hdr"@, c.hdr);
    let p5 = p4 + x5;
    lemma_csv_part_whole("hdr"@, c.hdr);
    lemma_none_split(p4, x5);
    let x6 = flag_part("webcodecs"@, c.webcodecs);
    let p6 = p5 + x6;
    lemma_flag_part_whole("webcodecs"@, c.webcodecs);
    lemma_none_split(p5, x6);
    let x7 = flag_part("webgpu"@, c.webgpu);
    let p7 = p6 + x7;
    lemma_flag_part_whole("webgpu"@, c.webgpu);
    lemma_none_split(p6, x7);
    let x8 = flag_part("mse"@, c.mse);
    let p8 = p7 + x8;
    lemma_flag_part_whole("mse"@, c.mse);
    lemma_none_split(p7, x8);
    let x9 = flag_part("mms"@, c.mms);
    let p9 = p8 + x9;
    lemma_flag_part_whole("mms"@, c.mms);
    lemma_none_split(p8, x9);
    let x10 = flag_part("legacy"@, c.legacy);
    let p10 = p9 + x10;
    lemma_flag_part_whole("legacy"@, c.legacy);
    lemma_none_split(p9, x10);
    let x11 = word_part("platform"@, c.platform);
    let p11 = p10 + x11;
    lemma_word_part_whole("platform"@, c.platform);
    lemma_none_split(p10, x11);
    let x12 = word_part("bandwidth"@, c.bandwidth);
    let p12 = p11 + x12;
    lemma_word_part_whole("bandwidth"@, c.bandwidth);
    lemma_none_split(p11, x12);
    let x13 = extra_parts(c.extras);
    assert forall|i: int| 0 <= i < x13.len() implies text::lacks(#[trigger] x13[i], ';') by {
        assert(plain_key(c.extras[i].0));
        lemma_pair_lacks(c.extras[i].0, c.extras[i].1);
    }
    lemma_none_split(p12, x13);
    assert(p0 + x1 =~= x1);
}

/// Writing what was parsed and parsing it again changes nothing, whatever
/// the header was.
pub proof fn header_round_trips(s: Seq<char>)
    ensures
        parsed(header(parsed(s))) == parsed(s),
{
    parsed_is_expressible(s);
    expressible_round_trips(parsed(s));
}

/// What capabilities hold under a key.
pub enum Field {
    Items(Seq<Seq<char>>),
    Flag(bool),
    Word(Option<Seq<char>>),
}

/// What `c` holds under a key.
pub open spec fn field(c: Caps, key: Seq<char>) -> Field {
    if key == "container"@ {
        Field::Items(c.containers)
    } else if key == "vdec"@ {
        Field::Items(c.video_decoders)
    } else if key == "adec"@ {
        Field::Items(c.audio_decoders)
    } else if key == "subs"@ {
        Field::Items(c.subtitles)
    } else if key == "hdr"@ {
        Field::Items(c.hdr)
    } else if key == "webcodecs"@ {
        Field::Flag(c.webcodecs)
    } else if key == "webgpu"@ {
        Field::Flag(c.webgpu)
    } else if key == "mse"@ {
        Field::Flag(c.mse)
    } else if key == "mms"@ {
        Field::Flag(c.mms)
    } else if key == "legacy"@ {
        Field::Flag(c.legacy)
    } else if key == "platform"@ {
        Field::Word(c.platform)
    } else if key == "bandwidth"@ {
        Field::Word(c.bandwidth)
    } else {
        Field::Word(text_map::lookup(c.extras, key))
    }
}

/// One of the stretches is a pair with the key.
pub open spec fn has_key(stretches: Seq<Seq<char>>, key: Seq<char>) -> bool {
    exists|i: int|
        0 <= i < stretches.len() && (pair_in(#[trigger] stretches[i]) matches Some(p) && p.0 == key)
}

/// A header has a pair with the key.
pub open spec fn declares(header: Seq<char>, key: Seq<char>) -> bool {
    has_key(text::pieces(header, ';'), key)
}

/// A pair changes what is held under its key and nothing else, and what it
/// changes that to does not depend on what was there.
proof fn lemma_field_after_pair(c: Caps, d: Caps, key: Seq<char>, value: Seq<char>, q: Seq<char>)
    ensures
        q != key ==> field(with_pair(c, key, value), q) == field(c, q),
        q == key ==> field(with_pair(c, key, value), q) == field(with_pair(d, key, value), q),
{
    lemma_key_names();
    text_map::lookup_after_put(c.extras, key, value, q);
    text_map::lookup_after_put(d.extras, key, value, q);
}

/// What is held under a key after some stretches: what the last pair with the
/// key says, or what was there where there is none.
proof fn lemma_field_after_stretches(c: Caps, d: Caps, stretches: Seq<Seq<char>>, q: Seq<char>)
    ensures
        !has_key(stretches, q) ==> field(with_stretches(c, stretches), q) == field(c, q),
        has_key(stretches, q) ==> field(with_stretches(c, stretches), q) == field(
            with_stretches(d, stretches),
            q,
        ),
    decreases stretches.len(),
{
    if stretches.len() > 0 {
        let before = stretches.drop_last();
        let last = stretches.last();
        lemma_field_after_stretches(c, d, before, q);
        if has_key(before, q) {
            let i = choose|i: int|
                0 <= i < before.len() && (pair_in(#[trigger] before[i]) matches Some(p) && p.0
                    == q);
            assert(stretches[i] == before[i]);
            assert(has_key(stretches, q));
        }
        if let Some((key, value)) = pair_in(last) {
            let (cb, db) = (with_stretches(c, before), with_stretches(d, before));
            lemma_field_after_pair(cb, db, key, value, q);
            lemma_field_after_pair(db, cb, key, value, q);
            if key == q {
                assert(stretches[stretches.len() - 1] == last);
                assert(has_key(stretches, q));
            }
        }
        if has_key(stretches, q) && !has_key(before, q) {
            let i = choose|i: int|
                0 <= i < stretches.len() && (pair_in(#[trigger] stretches[i]) matches Some(p)
                    && p.0 == q);
            if i < before.len() {
                assert(before[i] == stretches[i]);
            }
        }
    }
}

/// Capabilities that hold the same under every key are the same.
proof fn lemma_same_fields(a: Caps, b: Caps)
    requires
        expressible(a),
        expressible(b),
        forall|q: Seq<char>| #[trigger] field(a, q) == field(b, q),
    ensures
        a == b,
{
    lemma_key_names();
    assert(field(a, "container"@) == field(b, "container"@));
    assert(field(a, "vdec"@) == field(b, "vdec"@));
    assert(field(a, "adec"@) == field(b, "adec"@));
    assert(field(a, "subs"@) == field(b, "subs"@));
    assert(field(a, "hdr"@) == field(b, "hdr"@));
    assert(field(a, "webcodecs"@) == field(b, "webcodecs"@));
    assert(field(a, "webgpu"@) == field(b, "webgpu"@));
    assert(field(a, "mse"@) == field(b, "mse"@));
    assert(field(a, "mms"@) == field(b, "mms"@));
    assert(field(a, "legacy"@) == field(b, "legacy"@));
    assert(field(a, "platform"@) == field(b, "platform"@));
    assert(field(a, "bandwidth"@) == field(b, "bandwidth"@));
    assert forall|q: Seq<char>| #[trigger] text_map::lookup(a.extras, q) == text_map::lookup(
        b.extras,
        q,
    ) by {
        if known_key(q) {
            assert forall|i: int| 0 <= i < a.extras.len() implies (#[trigger] a.extras[i]).0
                != q by {
                assert(plain_key(a.extras[i].0));
            }
            assert forall|i: int| 0 <= i < b.extras.len() implies (#[trigger] b.extras[i]).0
                != q by {
                assert(plain_key(b.extras[i].0));
            }
            text_map::absent_key_is_not_found(a.extras, q);
            text_map::absent_key_is_not_found(b.extras, q);
        } else {
            assert(field(a, q) == field(b, q));
        }
    }
    text_map::same_lookups_same_entries(a.extras, b.extras);
}

/// Headers with no key in common declare the same in either order.
pub proof fn headers_with_other_keys_commute(x: Seq<char>, y: Seq<char>)
    requires
        forall|k: Seq<char>| !(#[trigger] declares(x, k) && declares(y, k)),
    ensures
        parsed(x + ";"@ + y) == parsed(y + ";"@ + x),
{
    reveal_strlit(";");
    assert(";"@ =~= seq![';']);
    let a = parsed(x + ";"@ + y);
    let b = parsed(y + ";"@ + x);
    let xs = text::pieces(x, ';');
    let ys = text::pieces(y, ';');
    let c = no_caps();
    text::lemma_pieces_of_two(x, ';', y);
    text::lemma_pieces_of_two(y, ';', x);
    lemma_stretches_split(c, xs, ys);
    lemma_stretches_split(c, ys, xs);
    assert forall|q: Seq<char>| #[trigger] field(a, q) == field(b, q) by {
        assert(!(declares(x, q) && declares(y, q)));
        lemma_field_after_stretches(with_stretches(c, xs), c, ys, q);
        lemma_field_after_stretches(with_stretches(c, ys), c, xs, q);
        lemma_field_after_stretches(c, c, xs, q);
        lemma_field_after_stretches(c, c, ys, q);
    }
    parsed_is_expressible(x + ";"@ + y);
    parsed_is_expressible(y + ";"@ + x);
    lemma_same_fields(a, b);
}

/// The last pair of a repeated key wins: behind any header, a pair sets its key
/// to what it says alone, and leaves the other keys as they are. A stretch that
/// is no pair leaves everything as it is.
pub proof fn last_pair_wins(x: Seq<char>, p: Seq<char>)
    requires
        text::lacks(p, ';'),
    ensures
        match pair_in(p) {
            Some((k, _)) => {
                &&& field(parsed(x + ";"@ + p), k) == field(parsed(p), k)
                &&& forall|q: Seq<char>|
                    q != k ==> #[trigger] field(parsed(x + ";"@ + p), q) == field(parsed(x), q)
            },
            None => parsed(x + ";"@ + p) == parsed(x),
        },
{
    reveal_strlit(";");
    assert(";"@ =~= seq![';']);
    text::lemma_pieces_of_two(x, ';', p);
    text::lemma_first_of(p, ';');
    let ps = text::pieces(p, ';');
    assert(ps =~= seq![p]);
    lemma_stretches_split(no_caps(), text::pieces(x, ';'), ps);
    lemma_one_stretch(parsed(x), p);
    lemma_one_stretch(no_caps(), p);
    if let Some((k, v)) = pair_in(p) {
        assert forall|q: Seq<char>| q != k implies #[trigger] field(parsed(x + ";"@ + p), q)
            == field(parsed(x), q) by {
            lemma_field_after_pair(parsed(x), no_caps(), k, v, q);
        }
        lemma_field_after_pair(parsed(x), no_caps(), k, v, k);
    }
}

/// What a header of one pair declares.
proof fn lemma_single_pair(input: Seq<char>, key: Seq<char>, value: Seq<char>)
    requires
        input == key + seq!['='] + value,
        known_key(key),
        plain_value(value),
    ensures
        parsed(input) == with_pair(no_caps(), key, value),
{
    lemma_key_names();
    reveal_strlit("=");
    assert(input =~= pair(key, value));
    assert forall|i: int| 0 <= i < input.len() implies #[trigger] input[i] != ';' by {
        if i < key.len() {
            assert(key[i] != ';');
        } else if i > key.len() {
            assert(value[i - key.len() - 1] != ';');
        }
    }
    text::lemma_first_of(input, ';');
    assert(text::pieces(input, ';') =~= seq![input]);
    lemma_pair_part(no_caps(), key, value);
}

/// A flag is on where its value is one of four words, in whatever case, and off
/// for any other value; it switches itself alone. A platform and a bandwidth
/// are kept as they are written.
pub proof fn flags_are_switched_by_words(
    key: &str,
    value: &str,
    low: String,
    input: &str,
    r: ClientCapabilities,
)
    requires
        plain_value(value@),
        input@ == key@ + seq!['='] + value@,
        call_ensures(text::to_ascii_lowercase, (value,), low),
        call_ensures(ClientCapabilities::parse, (input,), r),
    ensures
        ({
            let on = low@ == seq!['1'] || low@ == seq!['t', 'r', 'u', 'e'] || low@ == seq![
                'y',
                'e',
                's',
            ] || low@ == seq!['o', 'n'];
            &&& key@ == "webcodecs"@ ==> r.webcodecs == on && !r.webgpu && !r.mse && !r.mms && !r.legacy
            &&& key@ == "webgpu"@ ==> r.webgpu == on && !r.webcodecs && !r.mse && !r.mms && !r.legacy
            &&& key@ == "mse"@ ==> r.mse == on && !r.webcodecs && !r.webgpu && !r.mms && !r.legacy
            &&& key@ == "mms"@ ==> r.mms == on && !r.webcodecs && !r.webgpu && !r.mse && !r.legacy
            &&& key@ == "legacy"@ ==> r.legacy == on && !r.webcodecs && !r.webgpu && !r.mse && !r.mms
        }),
        key@ == "platform"@ ==> r.platform is Some && r.platform->0@ == value@ && r.bandwidth is None,
        key@ == "bandwidth"@ ==> r.bandwidth is Some && r.bandwidth->0@ == value@ && r.platform is None,
{
    if known_key(key@) {
        lemma_single_pair(input@, key@, value@);
        lemma_key_names();
        text::lemma_trimmed(value@);
        reveal_strlit("1");
        reveal_strlit("true");
        reveal_strlit("yes");
        reveal_strlit("on");
        assert("1"@ =~= seq!['1']);
        assert("true"@ =~= seq!['t', 'r', 'u', 'e']);
        assert("yes"@ =~= seq!['y', 'e', 's']);
        assert("on"@ =~= seq!['o', 'n']);
        assert(r@.webcodecs == r.webcodecs && r@.webgpu == r.webgpu && r@.mse == r.mse && r@.mms
            == r.mms && r@.legacy == r.legacy);
    }
}

/// Items that are listed under a key with commas between them are what the
/// client has under it, and nothing is under the other keys.
pub proof fn items_are_listed_under_their_key(
    key: &str,
    items: &Vec<String>,
    sep: &str,
    list: String,
    input: &str,
    r: ClientCapabilities,
)
    requires
        items@.len() > 0,
        plain_items(text::views(items@)),
        sep@ == seq![','],
        call_ensures(text::join, (items, sep), list),
        input@ == key@ + seq!['='] + list@,
        call_ensures(ClientCapabilities::parse, (input,), r),
    ensures
        key@ == "container"@ ==> text::views(r.containers@) == text::views(items@)
            && r.video_decoders@.len() == 0,
        key@ == "vdec"@ ==> text::views(r.video_decoders@) == text::views(items@)
            && r.audio_decoders@.len() == 0,
        key@ == "adec"@ ==> text::views(r.audio_decoders@) == text::views(items@)
            && r.video_decoders@.len() == 0,
        key@ == "subs"@ ==> text::views(r.subtitles@) == text::views(items@) && r.hdr@.len() == 0,
        key@ == "hdr"@ ==> text::views(r.hdr@) == text::views(items@) && r.subtitles@.len() == 0,
{
    if known_key(key@) {
        reveal_strlit(",");
        assert(","@ =~= seq![',']);
        lemma_csv_round_trip(text::views(items@));
        lemma_single_pair(input@, key@, list@);
        lemma_key_names();
        assert(text::views(r.video_decoders@).len() == r.video_decoders@.len());
        assert(text::views(r.audio_decoders@).len() == r.audio_decoders@.len());
        assert(text::views(r.subtitles@).len() == r.subtitles@.len());
        assert(text::views(r.hdr@).len() == r.hdr@.len());
    }
}

/// A client can play what is among the items of its kind, whatever the case of
/// its letters, and nothing else.
pub proof fn listed_items_can_be_played(
    c: &ClientCapabilities,
    x: &str,
    container: bool,
    video: bool,
    audio: bool,
    subtitle: bool,
    i: int,
)
    requires
        call_ensures(ClientCapabilities::has_container, (c, x), container),
        call_ensures(ClientCapabilities::has_video_decoder, (c, x), video),
        call_ensures(ClientCapabilities::has_audio_decoder, (c, x), audio),
        call_ensures(ClientCapabilities::supports_subtitle, (c, x), subtitle),
    ensures
        c.containers@.len() == 0 ==> !container,
        c.video_decoders@.len() == 0 ==> !video,
        c.audio_decoders@.len() == 0 ==> !audio,
        c.subtitles@.len() == 0 ==> !subtitle,
        0 <= i < c.containers@.len() && c.containers@[i]@ == x@ ==> container,
        0 <= i < c.video_decoders@.len() && c.video_decoders@[i]@ == x@ ==> video,
        0 <= i < c.audio_decoders@.len() && c.audio_decoders@[i]@ == x@ ==> audio,
        0 <= i < c.subtitles@.len() && c.subtitles@[i]@ == x@ ==> subtitle,
        (forall|k: int| 0 <= k < c.containers@.len() ==> (#[trigger] c.containers@[k]@).len()
            != x@.len()) ==> !container,
        (forall|k: int| 0 <= k < c.video_decoders@.len() ==> (#[trigger] c.video_decoders@[k]@).len()
            != x@.len()) ==> !video,
        (forall|k: int| 0 <= k < c.audio_decoders@.len() ==> (#[trigger] c.audio_decoders@[k]@).len()
            != x@.len()) ==> !audio,
        (forall|k: int| 0 <= k < c.subtitles@.len() ==> (#[trigger] c.subtitles@[k]@).len()
            != x@.len()) ==> !subtitle,
{
    lemma_held(c.containers@, x@, i);
    lemma_held(c.video_decoders@, x@, i);
    lemma_held(c.audio_decoders@, x@, i);
    lemma_held(c.subtitles@, x@, i);
}

proof fn lemma_held(v: Seq<String>, x: Seq<char>, i: int)
    ensures
        v.len() == 0 ==> !holds_ci(text::views(v), x),
        0 <= i < v.len() && v[i]@ == x ==> holds_ci(text::views(v), x),
        (forall|k: int| 0 <= k < v.len() ==> (#[trigger] v[k]@).len() != x.len()) ==> !holds_ci(
            text::views(v),
            x,
        ),
{
    let s = text::views(v);
    assert(s.len() == v.len());
    if 0 <= i < v.len() && v[i]@ == x {
        assert(s[i] == x);
    }
    if holds_ci(s, x) {
        let k = choose|k: int|
            0 <= k < s.len() && text::lowered(#[trigger] s[k]) == text::lowered(x);
        assert(s[k] == v[k]@);
        assert(text::lowered(s[k]).len() == s[k].len());
        assert(text::lowered(x).len() == x.len());
    }
}

/// The case of the letters makes no difference to what a client can play.
pub proof fn case_of_an_item_is_free(
    c: &ClientCapabilities,
    x: &str,
    y: &str,
    same: bool,
    a: bool,
    b: bool,
)
    requires
        call_ensures(text::eq_ignore_ascii_case, (x, y), same),
        same,
        call_ensures(ClientCapabilities::has_video_decoder, (c, x), a),
        call_ensures(ClientCapabilities::has_video_decoder, (c, y), b),
    ensures
        a == b,
{
}

/// What a client declares survives being written and read.
pub proof fn written_capabilities_read_back(
    input: &str,
    c: ClientCapabilities,
    written: String,
    w: &str,
    back: ClientCapabilities,
)
    requires
        call_ensures(ClientCapabilities::parse, (input,), c),
        call_ensures(ClientCapabilities::to_header, (&c,), written),
        w@ == written@,
        call_ensures(ClientCapabilities::parse, (w,), back),
    ensures
        back@ == c@,
{
    header_round_trips(input@);
}

/// A pair behind a header takes the place of an earlier one of its key, and a
/// stretch without an equals sign changes nothing.
pub proof fn later_pair_counts(
    x: &str,
    p: &str,
    both: &str,
    a: ClientCapabilities,
    b: ClientCapabilities,
    r: ClientCapabilities,
)
    requires
        text::lacks(p@, ';'),
        both@ == x@ + seq![';'] + p@,
        call_ensures(ClientCapabilities::parse, (x,), a),
        call_ensures(ClientCapabilities::parse, (p,), b),
        call_ensures(ClientCapabilities::parse, (both,), r),
    ensures
        text::lacks(p@, '=') ==> r@ == a@ && b@ == no_caps(),
        b.mse ==> r.mse,
        b.legacy ==> r.legacy,
        b.platform is Some ==> r.platform is Some && r.platform->0@ == b.platform->0@,
        b.platform is None ==> text::opt_view(r.platform) == text::opt_view(a.platform),
{
    reveal_strlit(";");
    assert(";"@ =~= seq![';']);
    last_pair_wins(x@, p@);
    lemma_key_names();
    text::lemma_first_of(p@, ';');
    assert(text::pieces(p@, ';') =~= seq![p@]);
    lemma_one_stretch(no_caps(), p@);
    let t = text::trimmed(p@);
    text::lemma_trimmed(p@);
    text::lemma_first_of(t, '=');
    assert(field(r@, "mse"@) == Field::Flag(r.mse) && field(b@, "mse"@) == Field::Flag(b.mse));
    assert(field(r@, "legacy"@) == Field::Flag(r.legacy) && field(b@, "legacy"@) == Field::Flag(
        b.legacy,
    ));
    assert(field(r@, "platform"@) == Field::Word(text::opt_view(r.platform)));
    assert(field(b@, "platform"@) == Field::Word(text::opt_view(b.platform)));
    assert(field(a@, "platform"@) == Field::Word(text::opt_view(a.platform)));
    if text::lacks(p@, '=') {
        assert(text::lacks(t, '='));
        let i = text::first_of(t, '=');
        if i < t.len() {
            assert(t[i] != '=');
        }
    }
}

} // verus!
