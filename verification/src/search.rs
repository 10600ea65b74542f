//! Search types shared by every provider.

use vstd::prelude::*;

use crate::text;

verus! {

#[derive(Debug, Clone)]
pub struct SearchQuery {
    pub q: String,
    pub page: Option<u32>,
    pub limit: Option<u32>,
    pub sort_by: Option<SortField>,
    pub order: Option<SortOrder>,
    /// Restricts the results to one kind of media.
    pub kind: Option<MediaKind>,
    /// Title parsed out of `q`, in lower case and without punctuation.
    pub parsed_title: Option<String>,
    /// Season parsed out of `q`; zero stands for a season-pack query.
    pub season: Option<u32>,
    /// Episode parsed out of `q`; only set together with `season`.
    pub episode: Option<u32>,
    /// Year parsed out of `q`.
    pub year: Option<u16>,
}

#[derive(Debug, Clone, Copy, PartialEq, Eq, Structural)]
pub enum MediaKind {
    Movie,
    Tv,
}

/// The kind that a stored word stands for.
pub open spec fn kind_of_word(s: Seq<char>) -> Option<MediaKind> {
    if s == "movie"@ {
        Some(MediaKind::Movie)
    } else if s == "tv"@ {
        Some(MediaKind::Tv)
    } else {
        None
    }
}

impl MediaKind {
    /// The kind that a stored word stands for.
    pub fn from_wire(s: &str) -> (r: Option<MediaKind>)
        ensures
            r == kind_of_word(s@),
    {
        if text::same_text(s, "movie") {
            Some(MediaKind::Movie)
        } else if text::same_text(s, "tv") {
            Some(MediaKind::Tv)
        } else {
            None
        }
    }
}

#[derive(Debug, Clone, Copy, PartialEq, Eq, Structural)]
pub enum SortField {
    Title,
    Size,
    Seeders,
    Leechers,
    Uploaded,
}

#[derive(Debug, Clone, Copy, PartialEq, Eq, Structural)]
pub enum SortOrder {
    Asc,
    Desc,
}

#[derive(Debug, Clone)]
pub struct ProviderPage {
    pub results: Vec<SearchResult>,
    pub current_page: u32,
    pub limit: u32,
    pub total_count: Option<u64>,
    pub total_pages: Option<u32>,
}

#[derive(Debug, Clone, Copy, PartialEq, Eq, Structural)]
pub struct ProviderCapabilities {
    pub returns_magnet: bool,
    pub returns_torrent_file: bool,
    pub returns_infohash: bool,
}

impl Default for ProviderCapabilities {
    fn default() -> (r: Self)
        ensures
            r == (ProviderCapabilities {
                returns_magnet: false,
                returns_torrent_file: false,
                returns_infohash: false,
            }),
    {
        ProviderCapabilities {
            returns_magnet: false,
            returns_torrent_file: false,
            returns_infohash: false,
        }
    }
}

#[derive(Debug, Clone)]
pub struct SearchResult {
    pub provider_id: String,
    pub external_id: String,
    pub title: String,
    pub year: Option<u16>,
    pub size_bytes: Option<u64>,
    pub seeders: Option<u32>,
    pub leechers: Option<u32>,
    pub infohash: Option<String>,
    pub magnet: Option<String>,
    pub category: Option<String>,
    pub tags: Vec<String>,
    pub freeleech: bool,
    pub uploader: Option<String>,
    /// Milliseconds since the Unix epoch.
    pub uploaded_at: Option<i64>,
    pub tmdb_id: Option<u64>,
    pub kind: Option<MediaKind>,
    /// Poster that the indexer ships with the result.
    pub poster_url: Option<String>,
    /// The library holds the episode that the title names.
    pub already_in_library: bool,
    /// Where the library holds it.
    pub library_infohash: Option<String>,
    pub library_file_idx: Option<u32>,
    /// `french`, `english`, `multi` or `unknown`.
    pub language: Option<String>,
    /// Signed download link; never sent to clients.
    pub download_url: Option<String>,
}

#[derive(Debug, Clone)]
pub enum TorrentSource {
    Magnet(String),
    TorrentFile(Vec<u8>),
}

/// How the description of a torrent is written.
#[derive(Debug, Clone, Copy, PartialEq, Eq, Structural)]
pub enum DescriptionFormat {
    Bbcode,
    Html,
    Plain,
}

impl Default for DescriptionFormat {
    fn default() -> (r: Self)
        ensures
            r == DescriptionFormat::Bbcode,
    {
        DescriptionFormat::Bbcode
    }
}

/// What a tracker's page says of one torrent.
#[derive(Debug, Clone)]
pub struct TorrentDetails {
    pub provider_id: String,
    pub external_id: String,
    pub title: String,
    pub description: Option<String>,
    pub description_format: DescriptionFormat,
    /// The raw MediaInfo dump.
    pub nfo: Option<String>,
    pub media_info: Option<MediaInfoSummary>,
    pub tags: Vec<String>,
    pub category: Option<String>,
    pub uploader: Option<String>,
    /// Milliseconds since the Unix epoch.
    pub uploaded_at: Option<i64>,
    /// Age as the provider words it.
    pub age: Option<String>,
    pub seeders: Option<u32>,
    pub leechers: Option<u32>,
    pub times_completed: Option<u64>,
    pub views: Option<u64>,
    pub freeleech: bool,
    pub exclusive: bool,
    pub file_count: Option<u32>,
    pub file_size_bytes: Option<u64>,
}

#[derive(Debug, Clone)]
pub struct MediaInfoSummary {
    pub video: Option<VideoInfo>,
    pub audio: Vec<AudioInfo>,
    pub subtitles: Vec<SubInfo>,
}

impl Default for MediaInfoSummary {
    fn default() -> (r: Self)
        ensures
            r.video is None,
            r.audio@.len() == 0,
            r.subtitles@.len() == 0,
    {
        MediaInfoSummary { video: None, audio: Vec::new(), subtitles: Vec::new() }
    }
}

#[derive(Debug, Clone)]
pub struct VideoInfo {
    pub codec: Option<String>,
    /// Such as `1920x1080`.
    pub resolution: Option<String>,
    pub duration_secs: Option<u32>,
    /// Frames per second, as the bits of a single-precision number.
    pub fps_bits: Option<u32>,
    pub bitrate_kbps: Option<u32>,
    /// Such as `HDR10`, `Dolby Vision` or `SDR`.
    pub hdr: Option<String>,
}

#[derive(Debug, Clone)]
pub struct AudioInfo {
    pub lang: Option<String>,
    pub codec: Option<String>,
    pub channels: Option<u8>,
    pub bitrate_kbps: Option<u32>,
    pub title: Option<String>,
    pub default: bool,
    pub commercial_name: Option<String>,
}

#[derive(Debug, Clone)]
pub struct SubInfo {
    pub lang: Option<String>,
    pub format: Option<String>,
    pub title: Option<String>,
    pub default: bool,
    pub forced: bool,
}

// ---------------------------------------------------------------------------
// Laws
// ---------------------------------------------------------------------------

/// The stored words are `movie` and `tv`, each for its kind; no other stands
/// for one.
pub proof fn words_stand_for_kinds(s: &str, r: Option<MediaKind>)
    requires
        call_ensures(MediaKind::from_wire, (s,), r),
    ensures
        s@ == "movie"@ ==> r == Some(MediaKind::Movie),
        s@ == "tv"@ ==> r == Some(MediaKind::Tv),
        s@ != "movie"@ && s@ != "tv"@ ==> r is None,
{
    reveal_strlit("movie");
    reveal_strlit("tv");
    assert("movie"@.len() == 5 && "tv"@.len() == 2);
}

/// A provider that says nothing of itself returns nothing, and a summary that
/// nothing was read for holds nothing; descriptions are written with codes in
/// brackets unless said.
pub proof fn nothing_is_taken_for_granted(
    p: ProviderCapabilities,
    m: MediaInfoSummary,
    f: DescriptionFormat,
)
    requires
        call_ensures(ProviderCapabilities::default, (), p),
        call_ensures(MediaInfoSummary::default, (), m),
        call_ensures(DescriptionFormat::default, (), f),
    ensures
        !p.returns_magnet && !p.returns_torrent_file && !p.returns_infohash,
        m.video is None && m.audio@.len() == 0 && m.subtitles@.len() == 0,
        f is Bbcode,
{
}

} // verus!
