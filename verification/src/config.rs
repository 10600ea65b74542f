//! The configuration of the service and its defaults.

use vstd::prelude::*;
use vstd::string::StringExecFns;

use crate::text;
use crate::text_map;
use crate::text_map::TextMap;

verus! {

#[derive(Debug)]
pub enum ConfigError {
    NotFound(String),
    Parse(String),
    Io(String),
}

/// What a configuration error says.
pub open spec fn message_of(e: ConfigError) -> Seq<char> {
    match e {
        ConfigError::NotFound(p) => "config file not found: "@ + p@,
        ConfigError::Parse(m) => "failed to parse config: "@ + m@,
        ConfigError::Io(m) => "io error: "@ + m@,
    }
}

impl ConfigError {
    pub fn message(&self) -> (r: String)
        ensures
            r@ == message_of(*self),
    {
        let (head, tail) = match self {
            ConfigError::NotFound(p) => ("config file not found: ", p),
            ConfigError::Parse(m) => ("failed to parse config: ", m),
            ConfigError::Io(m) => ("io error: ", m),
        };
        let mut s = head.to_string();
        s.append(tail.as_str());
        s
    }
}

#[derive(Debug, Clone)]
pub struct AppConfig {
    pub server: ServerConfig,
    pub storage: StorageConfig,
    pub auth: AuthConfig,
    pub tmdb: Option<TmdbConfig>,
    pub discovery: DiscoveryConfig,
    pub transcode: TranscodeConfig,
    pub reco: RecoConfig,
    pub live_tv: LiveTvConfig,
    /// Path of the file that lists the providers.
    pub providers_file: Option<String>,
}

/// Live television: playlists per country, played through this service.
#[derive(Debug, Clone)]
pub struct LiveTvConfig {
    pub enabled: bool,
    /// Country that clients select first, as a two-letter code.
    pub default_country: String,
    /// Playlist of a country; `{code}` stands for its code.
    pub playlist_url_template: String,
    /// The list of countries.
    pub countries_url: String,
    /// The database of all streams; each extra feed is a fallback.
    pub streams_url: String,
    /// The database of channel names, countries and logos.
    pub channels_url: String,
    /// More playlists per country, merged in as fallbacks.
    pub extra_playlists: TextMap<Vec<String>>,
    /// Programme guide per country.
    pub epg_urls: TextMap<String>,
    pub playlist_refresh_hours: u64,
    pub epg_refresh_hours: u64,
    /// Channel number by channel id, over the built-in table.
    pub tnt_overrides: TextMap<u16>,
    /// Guide id by channel id.
    pub epg_id_overrides: TextMap<String>,
    pub vavoo_enabled: bool,
    /// Groups of the aggregator to fold into a country's list.
    pub vavoo_countries: TextMap<Vec<String>>,
    pub tuner: TunerConfig,
}

/// The household's own network tuner.
#[derive(Debug, Clone)]
pub struct TunerConfig {
    pub enabled: bool,
    pub base_url: String,
    /// Channels whose sessions are kept warm.
    pub prewarm: Vec<String>,
}

/// The recommendation engine.
#[derive(Debug, Clone)]
pub struct RecoConfig {
    pub enabled: bool,
    pub model: String,
    /// Taste centroids per user.
    pub centroids: usize,
    /// Most items embedded per ingest slice.
    pub embed_batch: i64,
}

/// How the server re-encodes video for clients that cannot decode it.
#[derive(Debug, Clone)]
pub struct TranscodeConfig {
    /// `hevc` or `h264`.
    pub codec: String,
    pub preset: String,
    /// Lower is better and larger.
    pub crf: u8,
    /// Keep ten bits per sample; `hevc` only.
    pub ten_bit: bool,
}

#[derive(Debug, Clone)]
pub struct TmdbConfig {
    pub api_key: String,
}

/// The rolling window of fresh releases.
#[derive(Debug, Clone, Copy, PartialEq, Eq, Structural)]
pub struct DiscoveryConfig {
    /// How old a release may be to enter the window.
    pub poll_window_weeks: i64,
    /// How long a release stays in it.
    pub retain_weeks: i64,
    pub slice_interval_minutes: u64,
    /// How old the content of a movie may be to enter the window.
    pub max_content_age_years: i64,
}

#[derive(Debug, Clone)]
pub struct ServerConfig {
    pub bind: String,
    pub public_url: String,
    /// Path of the built web client.
    pub web_dist: Option<String>,
}

#[derive(Debug, Clone)]
pub struct StorageConfig {
    pub data_dir: String,
    pub download_dir: String,
    pub max_storage_gb: u64,
    pub cleanup_threshold_pct: u8,
    pub cleanup_target_pct: u8,
    pub torrent_port: u16,
}

#[derive(Debug, Clone)]
pub struct AuthConfig {
    pub jwt_secret: String,
    pub access_ttl_secs: i64,
    pub refresh_ttl_secs: i64,
    /// Lifetime of the refresh token of a paired device; every refresh starts
    /// it anew.
    pub device_refresh_ttl_secs: i64,
    pub invitation_ttl_secs: i64,
    /// Whether session cookies are withheld over plain HTTP; by the public
    /// address when unset.
    pub cookie_secure: Option<bool>,
    pub bootstrap_admin: Option<BootstrapAdmin>,
}

#[derive(Debug, Clone)]
pub struct BootstrapAdmin {
    pub email: String,
    pub password: String,
}

/// A provider: `kind` selects the implementation, which gets the remaining
/// fields.
#[derive(Debug, Clone)]
pub struct ProviderEntry {
    pub id: String,
    pub kind: String,
    pub enabled: bool,
    /// The remaining fields, each value in TOML notation.
    pub fields: TextMap<String>,
}

#[derive(Debug, Clone)]
pub struct ProvidersConfig {
    pub providers: Vec<ProviderEntry>,
}

impl Default for ProvidersConfig {
    fn default() -> (r: Self)
        ensures
            r.providers@.len() == 0,
    {
        ProvidersConfig { providers: Vec::new() }
    }
}

// ---------------------------------------------------------------------------
// Defaults
// ---------------------------------------------------------------------------

pub fn default_livetv_country() -> (r: String)
    ensures
        r@ == "fr"@,
{
    "fr".to_string()
}

pub fn default_livetv_playlist_template() -> (r: String)
    ensures
        r@ == "https://iptv-org.github.io/iptv/countries/{code}.m3u"@,
{
    "https://iptv-org.github.io/iptv/countries/{code}.m3u".to_string()
}

pub fn default_livetv_countries_url() -> (r: String)
    ensures
        r@ == "https://iptv-org.github.io/api/countries.json"@,
{
    "https://iptv-org.github.io/api/countries.json".to_string()
}

pub fn default_livetv_streams_url() -> (r: String)
    ensures
        r@ == "https://iptv-org.github.io/api/streams.json"@,
{
    "https://iptv-org.github.io/api/streams.json".to_string()
}

pub fn default_livetv_channels_url() -> (r: String)
    ensures
        r@ == "https://iptv-org.github.io/api/channels.json"@,
{
    "https://iptv-org.github.io/api/channels.json".to_string()
}

/// A curated list of free television, by its slug.
pub open spec fn free_tv_url(slug: Seq<char>) -> Seq<char> {
    "https://raw.githubusercontent.com/Free-TV/IPTV/master/playlists/playlist_"@ + slug + ".m3u8"@
}

fn free_tv(slug: &str) -> (r: String)
    ensures
        r@ == free_tv_url(slug@),
{
    let mut s =
        "https://raw.githubusercontent.com/Free-TV/IPTV/master/playlists/playlist_".to_string();
    s.append(slug);
    s.append(".m3u8");
    s
}

fn one(s: String) -> (r: Vec<String>)
    ensures
        r.deep_view() == seq![s@],
{
    let mut v: Vec<String> = Vec::new();
    v.push(s);
    assert(v.deep_view() =~= seq![s@]);
    v
}

fn two(a: String, b: String) -> (r: Vec<String>)
    ensures
        r.deep_view() == seq![a@, b@],
{
    let mut v: Vec<String> = Vec::new();
    v.push(a);
    v.push(b);
    assert(v.deep_view() =~= seq![a@, b@]);
    v
}

fn three(a: String, b: String, c: String) -> (r: Vec<String>)
    ensures
        r.deep_view() == seq![a@, b@, c@],
{
    let mut v: Vec<String> = Vec::new();
    v.push(a);
    v.push(b);
    v.push(c);
    assert(v.deep_view() =~= seq![a@, b@, c@]);
    v
}

/// The extra playlists that come with the service.
pub open spec fn curated_playlists() -> Seq<(Seq<char>, Seq<Seq<char>>)> {
    let none = Seq::<(Seq<char>, Seq<Seq<char>>)>::empty();
    let fr = text_map::put(
        none,
        "fr"@,
        seq![
            "https://raw.githubusercontent.com/Paradise-91/ParaTV/main/playlists/paratv/group/france/france.m3u"@,
            "https://raw.githubusercontent.com/schumijo/iptv/main/fr.m3u8"@,
            free_tv_url("france"@),
        ],
    );
    let us = text_map::put(fr, "us"@, seq![free_tv_url("usa"@)]);
    text_map::put(us, "ie"@, seq![free_tv_url("ireland"@)])
}

pub fn default_livetv_extra_playlists() -> (r: TextMap<Vec<String>>)
    ensures
        r@ == curated_playlists(),
{
    let mut m: TextMap<Vec<String>> = TextMap::new();
    m.insert(
        "fr".to_string(),
        three(
            "https://raw.githubusercontent.com/Paradise-91/ParaTV/main/playlists/paratv/group/france/france.m3u".to_string(),
            "https://raw.githubusercontent.com/schumijo/iptv/main/fr.m3u8".to_string(),
            free_tv("france"),
        ),
    );
    m.insert("us".to_string(), one(free_tv("usa")));
    m.insert("ie".to_string(), one(free_tv("ireland")));
    m
}

/// The groups of the aggregator that come with the service, by country.
pub open spec fn aggregator_groups() -> Seq<(Seq<char>, Seq<Seq<char>>)> {
    let m = Seq::<(Seq<char>, Seq<Seq<char>>)>::empty();
    let m = text_map::put(m, "fr"@, seq!["France"@, "France Sport"@]);
    let m = text_map::put(m, "de"@, seq!["Germany"@]);
    let m = text_map::put(m, "it"@, seq!["Italy"@]);
    let m = text_map::put(m, "es"@, seq!["Spain"@]);
    let m = text_map::put(m, "gb"@, seq!["United Kingdom"@]);
    let m = text_map::put(m, "nl"@, seq!["Netherlands"@]);
    let m = text_map::put(m, "pl"@, seq!["Poland"@]);
    let m = text_map::put(m, "pt"@, seq!["Portugal"@]);
    let m = text_map::put(m, "ru"@, seq!["Russia"@]);
    let m = text_map::put(m, "tr"@, seq!["Turkey"@]);
    let m = text_map::put(m, "ro"@, seq!["Romania"@]);
    let m = text_map::put(m, "bg"@, seq!["Bulgaria"@]);
    let m = text_map::put(m, "hr"@, seq!["Croatia"@]);
    let m = text_map::put(m, "al"@, seq!["Albania"@]);
    let m = text_map::put(m, "sa"@, seq!["Arabia"@]);
    let m = text_map::put(m, "rs"@, seq!["Balkans"@]);
    m
}

pub fn default_livetv_vavoo_countries() -> (r: TextMap<Vec<String>>)
    ensures
        r@ == aggregator_groups(),
{
    let mut m: TextMap<Vec<String>> = TextMap::new();
    m.insert("fr".to_string(), two("France".to_string(), "France Sport".to_string()));
    m.insert("de".to_string(), one("Germany".to_string()));
    m.insert("it".to_string(), one("Italy".to_string()));
    m.insert("es".to_string(), one("Spain".to_string()));
    m.insert("gb".to_string(), one("United Kingdom".to_string()));
    m.insert("nl".to_string(), one("Netherlands".to_string()));
    m.insert("pl".to_string(), one("Poland".to_string()));
    m.insert("pt".to_string(), one("Portugal".to_string()));
    m.insert("ru".to_string(), one("Russia".to_string()));
    m.insert("tr".to_string(), one("Turkey".to_string()));
    m.insert("ro".to_string(), one("Romania".to_string()));
    m.insert("bg".to_string(), one("Bulgaria".to_string()));
    m.insert("hr".to_string(), one("Croatia".to_string()));
    m.insert("al".to_string(), one("Albania".to_string()));
    m.insert("sa".to_string(), one("Arabia".to_string()));
    m.insert("rs".to_string(), one("Balkans".to_string()));
    m
}

pub open spec fn guide_urls() -> Seq<(Seq<char>, Seq<char>)> {
    text_map::put(
        Seq::<(Seq<char>, Seq<char>)>::empty(),
        "fr"@,
        "https://xmltvfr.fr/xmltv/xmltv_tnt.xml.gz"@,
    )
}

pub fn default_livetv_epg_urls() -> (r: TextMap<String>)
    ensures
        r@ == guide_urls(),
{
    let mut m: TextMap<String> = TextMap::new();
    m.insert("fr".to_string(), "https://xmltvfr.fr/xmltv/xmltv_tnt.xml.gz".to_string());
    m
}

pub fn default_livetv_playlist_refresh_hours() -> (r: u64)
    ensures
        r == 6,
{
    6
}

pub fn default_livetv_epg_refresh_hours() -> (r: u64)
    ensures
        r == 6,
{
    6
}

pub fn default_reco_model() -> (r: String)
    ensures
        r@ == "minishlab/potion-retrieval-32M"@,
{
    "minishlab/potion-retrieval-32M".to_string()
}

pub fn default_reco_centroids() -> (r: usize)
    ensures
        r == 3,
{
    3
}

pub fn default_reco_embed_batch() -> (r: i64)
    ensures
        r == 512,
{
    512
}

/// Decoded in hardware by most television chips, and about half the size.
pub fn default_transcode_codec() -> (r: String)
    ensures
        r@ == "hevc"@,
{
    "hevc".to_string()
}

pub fn default_transcode_preset() -> (r: String)
    ensures
        r@ == "superfast"@,
{
    "superfast".to_string()
}

pub fn default_transcode_crf() -> (r: u8)
    ensures
        r == 26,
{
    26
}

pub fn default_poll_window_weeks() -> (r: i64)
    ensures
        r == 8,
{
    8
}

pub fn default_retain_weeks() -> (r: i64)
    ensures
        r == 4,
{
    4
}

pub fn default_slice_interval_minutes() -> (r: u64)
    ensures
        r == 10,
{
    10
}

pub fn default_max_content_age_years() -> (r: i64)
    ensures
        r == 10,
{
    10
}

pub fn default_bind() -> (r: String)
    ensures
        r@ == "0.0.0.0:8080"@,
{
    "0.0.0.0:8080".to_string()
}

pub fn default_public_url() -> (r: String)
    ensures
        r@ == "http://localhost:8080"@,
{
    "http://localhost:8080".to_string()
}

pub fn default_max_storage() -> (r: u64)
    ensures
        r == 500,
{
    500
}

pub fn default_cleanup_threshold() -> (r: u8)
    ensures
        r == 90,
{
    90
}

pub fn default_cleanup_target() -> (r: u8)
    ensures
        r == 75,
{
    75
}

pub fn default_torrent_port() -> (r: u16)
    ensures
        r == 45100,
{
    45100
}

/// One hour: longer than a typical viewing session.
pub fn default_access_ttl() -> (r: i64)
    ensures
        r == 3600,
{
    3600
}

/// Seven days.
pub fn default_refresh_ttl() -> (r: i64)
    ensures
        r == 604_800,
{
    604_800
}

/// One year.
pub fn default_device_refresh_ttl() -> (r: i64)
    ensures
        r == 31_536_000,
{
    31_536_000
}

/// Seven days.
pub fn default_invite_ttl() -> (r: i64)
    ensures
        r == 604_800,
{
    604_800
}

pub fn default_true() -> (r: bool)
    ensures
        r,
{
    true
}

impl Default for TunerConfig {
    fn default() -> (r: Self)
        ensures
            !r.enabled,
            r.base_url@ == ""@,
            r.prewarm@.len() == 0,
    {
        TunerConfig { enabled: false, base_url: "".to_string(), prewarm: Vec::new() }
    }
}

impl Default for RecoConfig {
    fn default() -> (r: Self)
        ensures
            r.enabled,
            r.model@ == "minishlab/potion-retrieval-32M"@,
            r.centroids == 3,
            r.embed_batch == 512,
    {
        RecoConfig {
            enabled: true,
            model: default_reco_model(),
            centroids: default_reco_centroids(),
            embed_batch: default_reco_embed_batch(),
        }
    }
}

impl Default for TranscodeConfig {
    fn default() -> (r: Self)
        ensures
            r.codec@ == "hevc"@,
            r.preset@ == "superfast"@,
            r.crf == 26,
            !r.ten_bit,
    {
        TranscodeConfig {
            codec: default_transcode_codec(),
            preset: default_transcode_preset(),
            crf: default_transcode_crf(),
            ten_bit: false,
        }
    }
}

impl Default for DiscoveryConfig {
    fn default() -> (r: Self)
        ensures
            r.poll_window_weeks == 8,
            r.retain_weeks == 4,
            r.slice_interval_minutes == 10,
            r.max_content_age_years == 10,
    {
        DiscoveryConfig {
            poll_window_weeks: default_poll_window_weeks(),
            retain_weeks: default_retain_weeks(),
            slice_interval_minutes: default_slice_interval_minutes(),
            max_content_age_years: default_max_content_age_years(),
        }
    }
}

/// The live television section as far as it is written down.
pub struct LiveTvOptions {
    pub enabled: Option<bool>,
    pub default_country: Option<String>,
    pub playlist_url_template: Option<String>,
    pub countries_url: Option<String>,
    pub streams_url: Option<String>,
    pub channels_url: Option<String>,
    pub extra_playlists: Option<TextMap<Vec<String>>>,
    pub epg_urls: Option<TextMap<String>>,
    pub playlist_refresh_hours: Option<u64>,
    pub epg_refresh_hours: Option<u64>,
    pub tnt_overrides: Option<TextMap<u16>>,
    pub epg_id_overrides: Option<TextMap<String>>,
    pub vavoo_enabled: Option<bool>,
    pub vavoo_countries: Option<TextMap<Vec<String>>>,
    pub tuner: Option<TunerConfig>,
}

impl Default for LiveTvConfig {
    fn default() -> (r: Self)
        ensures
            r.enabled == true,
            r.default_country@ == "fr"@,
            r.playlist_url_template@ == "https://iptv-org.github.io/iptv/countries/{code}.m3u"@,
            r.countries_url@ == "https://iptv-org.github.io/api/countries.json"@,
            r.streams_url@ == "https://iptv-org.github.io/api/streams.json"@,
            r.channels_url@ == "https://iptv-org.github.io/api/channels.json"@,
            r.extra_playlists@ == curated_playlists(),
            r.epg_urls@ == guide_urls(),
            r.playlist_refresh_hours == 6u64,
            r.epg_refresh_hours == 6u64,
            r.tnt_overrides@ == Seq::<(Seq<char>, u16)>::empty(),
            r.epg_id_overrides@ == Seq::<(Seq<char>, Seq<char>)>::empty(),
            r.vavoo_enabled == true,
            r.vavoo_countries@ == aggregator_groups(),
            !r.tuner.enabled,
            r.tuner.base_url@ == ""@,
            r.tuner.prewarm@.len() == 0,
    {
        LiveTvConfig {
            enabled: true,
            default_country: default_livetv_country(),
            playlist_url_template: default_livetv_playlist_template(),
            countries_url: default_livetv_countries_url(),
            streams_url: default_livetv_streams_url(),
            channels_url: default_livetv_channels_url(),
            extra_playlists: default_livetv_extra_playlists(),
            epg_urls: default_livetv_epg_urls(),
            playlist_refresh_hours: default_livetv_playlist_refresh_hours(),
            epg_refresh_hours: default_livetv_epg_refresh_hours(),
            tnt_overrides: TextMap::new(),
            epg_id_overrides: TextMap::new(),
            vavoo_enabled: true,
            vavoo_countries: default_livetv_vavoo_countries(),
            tuner: TunerConfig::default(),
        }
    }
}

impl LiveTvConfig {
    /// The section with every option that is not written down at its default.
    pub fn from_options(o: LiveTvOptions) -> (r: LiveTvConfig)
        ensures
            r.enabled == match o.enabled {
                Some(v) => v,
                None => true,
            },
            match o.default_country {
                Some(v) => r.default_country == v,
                None => r.default_country@ == "fr"@,
            },
            match o.playlist_url_template {
                Some(v) => r.playlist_url_template == v,
                None => r.playlist_url_template@ == "https://iptv-org.github.io/iptv/countries/{code}.m3u"@,
            },
            match o.countries_url {
                Some(v) => r.countries_url == v,
                None => r.countries_url@ == "https://iptv-org.github.io/api/countries.json"@,
            },
            match o.streams_url {
                Some(v) => r.streams_url == v,
                None => r.streams_url@ == "https://iptv-org.github.io/api/streams.json"@,
            },
            match o.channels_url {
                Some(v) => r.channels_url == v,
                None => r.channels_url@ == "https://iptv-org.github.io/api/channels.json"@,
            },
            match o.extra_playlists {
                Some(v) => r.extra_playlists == v,
                None => r.extra_playlists@ == curated_playlists(),
            },
            match o.epg_urls {
                Some(v) => r.epg_urls == v,
                None => r.epg_urls@ == guide_urls(),
            },
            r.playlist_refresh_hours == match o.playlist_refresh_hours {
                Some(v) => v,
                None => 6,
            },
            r.epg_refresh_hours == match o.epg_refresh_hours {
                Some(v) => v,
                None => 6,
            },
            match o.tnt_overrides {
                Some(v) => r.tnt_overrides == v,
                None => r.tnt_overrides@ == Seq::<(Seq<char>, u16)>::empty(),
            },
            match o.epg_id_overrides {
                Some(v) => r.epg_id_overrides == v,
                None => r.epg_id_overrides@ == Seq::<(Seq<char>, Seq<char>)>::empty(),
            },
            r.vavoo_enabled == match o.vavoo_enabled {
                Some(v) => v,
                None => true,
            },
            match o.vavoo_countries {
                Some(v) => r.vavoo_countries == v,
                None => r.vavoo_countries@ == aggregator_groups(),
            },
            match o.tuner {
                Some(t) => r.tuner == t,
                None => !r.tuner.enabled && r.tuner.base_url@ == ""@ && r.tuner.prewarm@.len()
                    == 0,
            },
    {
        let d = LiveTvConfig::default();
        LiveTvConfig {
            enabled: match o.enabled {
                Some(v) => v,
                None => d.enabled,
            },
            default_country: match o.default_country {
                Some(v) => v,
                None => d.default_country,
            },
            playlist_url_template: match o.playlist_url_template {
                Some(v) => v,
                None => d.playlist_url_template,
            },
            countries_url: match o.countries_url {
                Some(v) => v,
                None => d.countries_url,
            },
            streams_url: match o.streams_url {
                Some(v) => v,
                None => d.streams_url,
            },
            channels_url: match o.channels_url {
                Some(v) => v,
                None => d.channels_url,
            },
            extra_playlists: match o.extra_playlists {
                Some(v) => v,
                None => d.extra_playlists,
            },
            epg_urls: match o.epg_urls {
                Some(v) => v,
                None => d.epg_urls,
            },
            playlist_refresh_hours: match o.playlist_refresh_hours {
                Some(v) => v,
                None => d.playlist_refresh_hours,
            },
            epg_refresh_hours: match o.epg_refresh_hours {
                Some(v) => v,
                None => d.epg_refresh_hours,
            },
            tnt_overrides: match o.tnt_overrides {
                Some(v) => v,
                None => d.tnt_overrides,
            },
            epg_id_overrides: match o.epg_id_overrides {
                Some(v) => v,
                None => d.epg_id_overrides,
            },
            vavoo_enabled: match o.vavoo_enabled {
                Some(v) => v,
                None => d.vavoo_enabled,
            },
            vavoo_countries: match o.vavoo_countries {
                Some(v) => v,
                None => d.vavoo_countries,
            },
            tuner: match o.tuner {
                Some(t) => t,
                None => d.tuner,
            },
        }
    }
}

// ---------------------------------------------------------------------------
// Decisions
// ---------------------------------------------------------------------------

/// Whether session cookies are withheld over plain HTTP.
pub open spec fn secure_cookies(explicit: Option<bool>, public_url: Seq<char>) -> bool {
    match explicit {
        Some(b) => b,
        None => "https://"@.is_prefix_of(text::trimmed_start(public_url)),
    }
}

impl AppConfig {
    /// Whether session cookies are withheld over plain HTTP: as configured, or
    /// when the public address is an HTTPS one.
    pub fn cookie_secure(&self) -> (r: bool)
        ensures
            r == secure_cookies(self.auth.cookie_secure, self.server.public_url@),
    {
        match self.auth.cookie_secure {
            Some(b) => b,
            None => {
                let url = text::trim_start(self.server.public_url.as_str());
                text::starts_with(url.as_str(), "https://")
            },
        }
    }

    /// The file that lists the providers: the configured one, else the
    /// fallback.
    pub fn providers_path(&self, fallback: Option<&str>) -> (r: Option<String>)
        ensures
            text::opt_view(r) == match self.providers_file {
                Some(p) => Some(p@),
                None => text::opt_str_view(fallback),
            },
    {
        match &self.providers_file {
            Some(p) => Some(p.clone()),
            None => match fallback {
                Some(f) => Some(f.to_string()),
                None => None,
            },
        }
    }
}

// ---------------------------------------------------------------------------
// Laws
// ---------------------------------------------------------------------------

/// What is configured decides whether cookies are withheld over plain HTTP;
/// where nothing is, the public address does, whatever white space is before
/// it.
pub proof fn cookies_are_secure_over_https(c: &AppConfig, url: &str, bare: String, r: bool)
    requires
        url@ == c.server.public_url@,
        call_ensures(text::trim_start, (url,), bare),
        call_ensures(AppConfig::cookie_secure, (c,), r),
    ensures
        c.auth.cookie_secure is Some ==> r == c.auth.cookie_secure->0,
        c.auth.cookie_secure is None ==> (r <==> bare@.len() >= 8 && bare@.take(8) == seq![
            'h',
            't',
            't',
            'p',
            's',
            ':',
            '/',
            '/',
        ]),
{
    reveal_strlit("https://");
    let w = "https://"@;
    assert(w =~= seq!['h', 't', 't', 'p', 's', ':', '/', '/']);
    if w.is_prefix_of(bare@) {
        assert(bare@.take(8) =~= w);
    }
}

/// The configured file of providers comes before the fallback.
pub proof fn configured_file_comes_first(c: &AppConfig, fallback: Option<&str>, r: Option<String>)
    requires
        call_ensures(AppConfig::providers_path, (c, fallback), r),
    ensures
        c.providers_file is Some ==> r is Some && r->0@ == c.providers_file->0@,
        c.providers_file is None ==> (r is Some <==> fallback is Some),
        c.providers_file is None && r is Some ==> r->0@ == fallback->0@,
{
}

/// An option that is written down counts as it is, each for its own.
pub proof fn written_options_count(o: LiveTvOptions, r: LiveTvConfig)
    requires
        call_ensures(LiveTvConfig::from_options, (o,), r),
    ensures
        o.enabled is Some ==> r.enabled == o.enabled->0,
        o.default_country is Some ==> r.default_country == o.default_country->0,
        o.playlist_url_template is Some ==> r.playlist_url_template == o.playlist_url_template->0,
        o.countries_url is Some ==> r.countries_url == o.countries_url->0,
        o.streams_url is Some ==> r.streams_url == o.streams_url->0,
        o.channels_url is Some ==> r.channels_url == o.channels_url->0,
        o.extra_playlists is Some ==> r.extra_playlists == o.extra_playlists->0,
        o.epg_urls is Some ==> r.epg_urls == o.epg_urls->0,
        o.playlist_refresh_hours is Some ==> r.playlist_refresh_hours == o.playlist_refresh_hours->0,
        o.epg_refresh_hours is Some ==> r.epg_refresh_hours == o.epg_refresh_hours->0,
        o.tnt_overrides is Some ==> r.tnt_overrides == o.tnt_overrides->0,
        o.epg_id_overrides is Some ==> r.epg_id_overrides == o.epg_id_overrides->0,
        o.vavoo_enabled is Some ==> r.vavoo_enabled == o.vavoo_enabled->0,
        o.vavoo_countries is Some ==> r.vavoo_countries == o.vavoo_countries->0,
        o.tuner is Some ==> r.tuner == o.tuner->0,
{
}

/// An option that is not written down is as its own default says.
pub proof fn unwritten_options_are_defaults(
    o: LiveTvOptions,
    r: LiveTvConfig,
    country: String,
    template: String,
    countries: String,
    streams: String,
    channels: String,
    playlists: TextMap<Vec<String>>,
    guides: TextMap<String>,
    groups: TextMap<Vec<String>>,
    hours: u64,
    guide_hours: u64,
    on: bool,
)
    requires
        call_ensures(LiveTvConfig::from_options, (o,), r),
        call_ensures(default_livetv_country, (), country),
        call_ensures(default_livetv_playlist_template, (), template),
        call_ensures(default_livetv_countries_url, (), countries),
        call_ensures(default_livetv_streams_url, (), streams),
        call_ensures(default_livetv_channels_url, (), channels),
        call_ensures(default_livetv_extra_playlists, (), playlists),
        call_ensures(default_livetv_epg_urls, (), guides),
        call_ensures(default_livetv_vavoo_countries, (), groups),
        call_ensures(default_livetv_playlist_refresh_hours, (), hours),
        call_ensures(default_livetv_epg_refresh_hours, (), guide_hours),
        call_ensures(default_true, (), on),
    ensures
        on,
        o.enabled is None ==> r.enabled == on,
        o.vavoo_enabled is None ==> r.vavoo_enabled == on,
        o.default_country is None ==> r.default_country@ == country@,
        o.playlist_url_template is None ==> r.playlist_url_template@ == template@,
        o.countries_url is None ==> r.countries_url@ == countries@,
        o.streams_url is None ==> r.streams_url@ == streams@,
        o.channels_url is None ==> r.channels_url@ == channels@,
        o.extra_playlists is None ==> r.extra_playlists@ == playlists@,
        o.epg_urls is None ==> r.epg_urls@ == guides@,
        o.vavoo_countries is None ==> r.vavoo_countries@ == groups@,
        o.playlist_refresh_hours is None ==> r.playlist_refresh_hours == hours,
        o.epg_refresh_hours is None ==> r.epg_refresh_hours == guide_hours,
        o.tnt_overrides is None ==> r.tnt_overrides@.len() == 0,
        o.epg_id_overrides is None ==> r.epg_id_overrides@.len() == 0,
        o.tuner is None ==> !r.tuner.enabled && r.tuner.prewarm@.len() == 0,
{
}

/// A session gives access for an hour and can be taken up for a week, that of
/// a device for a year; an invitation is good for a week.
pub proof fn lifetimes_are_an_hour_a_week_and_a_year(a: i64, r: i64, d: i64, i: i64)
    requires
        call_ensures(default_access_ttl, (), a),
        call_ensures(default_refresh_ttl, (), r),
        call_ensures(default_device_refresh_ttl, (), d),
        call_ensures(default_invite_ttl, (), i),
    ensures
        a == 60 * 60,
        r == 7 * 24 * a,
        d == 365 * 24 * a,
        i == r,
{
}

/// A clean-up starts above where it ends, and a release stays in the window
/// for half as long as it may be old to enter it.
pub proof fn cleanup_ends_below_its_start(
    threshold: u8,
    target: u8,
    max: u64,
    poll: i64,
    retain: i64,
    d: DiscoveryConfig,
)
    requires
        call_ensures(default_cleanup_threshold, (), threshold),
        call_ensures(default_cleanup_target, (), target),
        call_ensures(default_max_storage, (), max),
        call_ensures(default_poll_window_weeks, (), poll),
        call_ensures(default_retain_weeks, (), retain),
        call_ensures(DiscoveryConfig::default, (), d),
    ensures
        target < threshold <= 100,
        threshold - target == 15,
        threshold == 90,
        max == 500,
        poll == 2 * retain,
        d.poll_window_weeks == poll && d.retain_weeks == retain,
{
}

/// The settings that nothing is written for are those that their own defaults
/// name.
pub proof fn sections_default_to_their_parts(
    reco: RecoConfig,
    model: String,
    centroids: usize,
    batch: i64,
    transcode: TranscodeConfig,
    codec: String,
    preset: String,
    crf: u8,
    discovery: DiscoveryConfig,
    minutes: u64,
    years: i64,
)
    requires
        call_ensures(RecoConfig::default, (), reco),
        call_ensures(default_reco_model, (), model),
        call_ensures(default_reco_centroids, (), centroids),
        call_ensures(default_reco_embed_batch, (), batch),
        call_ensures(TranscodeConfig::default, (), transcode),
        call_ensures(default_transcode_codec, (), codec),
        call_ensures(default_transcode_preset, (), preset),
        call_ensures(default_transcode_crf, (), crf),
        call_ensures(DiscoveryConfig::default, (), discovery),
        call_ensures(default_slice_interval_minutes, (), minutes),
        call_ensures(default_max_content_age_years, (), years),
    ensures
        reco.enabled && reco.model@ == model@ && reco.centroids == centroids && reco.embed_batch
            == batch,
        transcode.codec@ == codec@ && transcode.preset@ == preset@ && transcode.crf == crf
            && !transcode.ten_bit,
        discovery.slice_interval_minutes == minutes && discovery.max_content_age_years == years,
        centroids == 3 && batch == 512 && crf == 26 && minutes == 10 && years == 10,
        codec@ == seq!['h', 'e', 'v', 'c'],
{
    reveal_strlit("hevc");
    assert("hevc"@ =~= seq!['h', 'e', 'v', 'c']);
}

/// A fault of the configuration says what it is, and ends in what it is about.
pub proof fn faults_of_configuration_are_told(e: &ConfigError, m: String)
    requires
        call_ensures(ConfigError::message, (e,), m),
    ensures
        e is NotFound ==> m@ == "config file not found: "@ + e->NotFound_0@,
        e is Parse ==> m@ == "failed to parse config: "@ + e->Parse_0@,
        e is Io ==> m@ == "io error: "@ + e->Io_0@,
{
}

/// The service listens on every interface at the port of its public address.
pub proof fn service_listens_at_its_port(bind: String, url: String, port: u16)
    requires
        call_ensures(default_bind, (), bind),
        call_ensures(default_public_url, (), url),
        call_ensures(default_torrent_port, (), port),
    ensures
        bind@.skip(bind@.len() - 5) == url@.skip(url@.len() - 5),
        bind@ == "0.0.0.0:8080"@ && url@ == "http://localhost:8080"@,
        port == 45100,
{
    reveal_strlit("0.0.0.0:8080");
    reveal_strlit("http://localhost:8080");
    assert(bind@.skip(bind@.len() - 5) =~= url@.skip(url@.len() - 5));
}

/// A tuner is off, nowhere and keeps nothing warm until it is configured, and
/// a list of providers is empty until one is.
pub proof fn nothing_is_configured_by_itself(t: TunerConfig, p: ProvidersConfig, l: LiveTvConfig)
    requires
        call_ensures(TunerConfig::default, (), t),
        call_ensures(ProvidersConfig::default, (), p),
        call_ensures(LiveTvConfig::default, (), l),
    ensures
        !t.enabled && t.base_url@.len() == 0 && t.prewarm@.len() == 0,
        p.providers@.len() == 0,
        !l.tuner.enabled && l.tuner.base_url@.len() == 0 && l.tuner.prewarm@.len() == 0,
        l.tnt_overrides@.len() == 0 && l.epg_id_overrides@.len() == 0,
{
    reveal_strlit("");
}

/// Live television starts with what it would be if nothing was written down.
pub proof fn television_starts_as_unwritten(o: LiveTvOptions, a: LiveTvConfig, b: LiveTvConfig)
    requires
        o.enabled is None && o.default_country is None && o.playlist_url_template is None
            && o.countries_url is None && o.streams_url is None && o.channels_url is None
            && o.extra_playlists is None && o.epg_urls is None && o.playlist_refresh_hours is None
            && o.epg_refresh_hours is None && o.vavoo_enabled is None && o.vavoo_countries is None
            && o.tuner is None,
        call_ensures(LiveTvConfig::from_options, (o,), a),
        call_ensures(LiveTvConfig::default, (), b),
    ensures
        a.enabled == b.enabled && a.default_country@ == b.default_country@,
        a.playlist_url_template@ == b.playlist_url_template@ && a.countries_url@ == b.countries_url@,
        a.streams_url@ == b.streams_url@ && a.channels_url@ == b.channels_url@,
        a.extra_playlists@ == b.extra_playlists@ && a.epg_urls@ == b.epg_urls@,
        a.playlist_refresh_hours == b.playlist_refresh_hours && a.epg_refresh_hours
            == b.epg_refresh_hours,
        a.vavoo_enabled == b.vavoo_enabled && a.vavoo_countries@ == b.vavoo_countries@,
        a.tuner.enabled == b.tuner.enabled,
        a.enabled && a.vavoo_enabled,
        a.default_country@ == seq!['f', 'r'],
        a.playlist_refresh_hours == 6 && a.epg_refresh_hours == 6,
{
    reveal_strlit("fr");
    assert("fr"@ =~= seq!['f', 'r']);
}

} // verus!
