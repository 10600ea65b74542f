//! TMDB: what its answers mean, and which of them are kept.

use vstd::prelude::*;
use vstd::string::StringExecFns;

use crate::cache::{Cache, CacheKey};
use crate::text;

verus! {

#[derive(Debug, Clone, Copy, PartialEq, Eq, Structural)]
pub enum TmdbKind {
    Movie,
    Tv,
}

/// A title that TMDB suggests for a query.
#[derive(Debug)]
pub struct TmdbSuggestion {
    pub kind: TmdbKind,
    pub tmdb_id: u64,
    pub title: String,
    pub year: Option<u32>,
    pub overview: Option<String>,
    pub poster_path: Option<String>,
}

impl Clone for TmdbSuggestion {
    fn clone(&self) -> (r: Self)
        ensures
            r == *self,
    {
        TmdbSuggestion {
            kind: self.kind,
            tmdb_id: self.tmdb_id,
            title: self.title.clone(),
            year: self.year,
            overview: text::clone_opt(&self.overview),
            poster_path: text::clone_opt(&self.poster_path),
        }
    }
}

/// A genre of TMDB's taxonomy.
#[derive(Debug)]
pub struct Genre {
    pub id: u32,
    pub name: String,
}

impl Clone for Genre {
    fn clone(&self) -> (r: Self)
        ensures
            r == *self,
    {
        Genre { id: self.id, name: self.name.clone() }
    }
}

/// An episode as TMDB lists it.
#[derive(Debug)]
pub struct EpisodeMetadata {
    pub season: u32,
    pub episode: u32,
    pub name: Option<String>,
    pub overview: Option<String>,
    /// Year, month and day, in this order.
    pub air_date: Option<String>,
    pub runtime_minutes: Option<u32>,
    pub still_path: Option<String>,
}

impl Clone for EpisodeMetadata {
    fn clone(&self) -> (r: Self)
        ensures
            r == *self,
    {
        EpisodeMetadata {
            season: self.season,
            episode: self.episode,
            name: text::clone_opt(&self.name),
            overview: text::clone_opt(&self.overview),
            air_date: text::clone_opt(&self.air_date),
            runtime_minutes: self.runtime_minutes,
            still_path: text::clone_opt(&self.still_path),
        }
    }
}

/// A movie or show as TMDB describes it.
#[derive(Debug, Clone)]
pub struct MediaMetadata {
    pub kind: TmdbKind,
    pub tmdb_id: u64,
    pub title: String,
    pub overview: Option<String>,
    pub year: Option<u32>,
    pub poster_path: Option<String>,
    pub backdrop_path: Option<String>,
    /// Bits of a double-precision number between zero and one.
    pub vote_score_bits: Option<u64>,
    pub vote_count: Option<u32>,
    pub genres: Vec<String>,
    /// Running time of a movie, or of a typical episode.
    pub runtime_minutes: Option<u32>,
    pub number_of_seasons: Option<u32>,
    /// Bits of a double-precision number.
    pub popularity_bits: Option<u64>,
    pub original_language: Option<String>,
    pub genre_ids: Vec<u32>,
    pub release_date: Option<String>,
}

/// The word for a kind.
pub open spec fn kind_word(k: TmdbKind) -> Seq<char> {
    match k {
        TmdbKind::Movie => "movie"@,
        TmdbKind::Tv => "tv"@,
    }
}

/// The word for a kind.
pub fn kind_marker(k: TmdbKind) -> (r: &'static str)
    ensures
        r@ == kind_word(k),
{
    match k {
        TmdbKind::Movie => "movie",
        TmdbKind::Tv => "tv",
    }
}

/// The kind that a word stands for.
pub open spec fn kind_of_word(s: Seq<char>) -> Option<TmdbKind> {
    if s == "movie"@ {
        Some(TmdbKind::Movie)
    } else if s == "tv"@ {
        Some(TmdbKind::Tv)
    } else {
        None
    }
}

/// The kind that a word stands for.
pub fn kind_hint(word: &str) -> (r: Option<TmdbKind>)
    ensures
        r == kind_of_word(word@),
{
    if text::same_text(word, "movie") {
        Some(TmdbKind::Movie)
    } else if text::same_text(word, "tv") {
        Some(TmdbKind::Tv)
    } else {
        None
    }
}

/// The word of a kind stands for that kind.
pub proof fn kind_word_reads_back(k: TmdbKind)
    ensures
        kind_of_word(kind_word(k)) == Some(k),
{
    reveal_strlit("movie");
    reveal_strlit("tv");
    assert("movie"@.len() != "tv"@.len());
}

// ---------------------------------------------------------------------------
// Parts of an answer
// ---------------------------------------------------------------------------

pub open spec fn or_text(a: Option<String>, b: Option<String>) -> Option<String> {
    match a {
        Some(s) => Some(s),
        None => b,
    }
}

fn first_text(a: Option<String>, b: Option<String>) -> (r: Option<String>)
    ensures
        r == or_text(a, b),
{
    match a {
        Some(s) => Some(s),
        None => b,
    }
}

/// An empty text counts as none.
pub open spec fn non_empty(s: Option<String>) -> Option<String> {
    match s {
        Some(t) => if t@.len() > 0 {
            Some(t)
        } else {
            None
        },
        None => None,
    }
}

fn without_empty(s: Option<String>) -> (r: Option<String>)
    ensures
        r == non_empty(s),
{
    match s {
        Some(t) => {
            if text::is_blank(t.as_str()) {
                None
            } else {
                Some(t)
            }
        },
        None => None,
    }
}

/// The year of a date that is written year first: what stands before the
/// first dash, if that is a number.
pub open spec fn year_of(date: Option<String>) -> Option<u32> {
    match date {
        Some(d) => match text::unsigned_in(
            d@.take(text::first_of(d@, '-')),
            u32::MAX as nat,
        ) {
            Some(n) => Some(n as u32),
            None => None,
        },
        None => None,
    }
}

/// The year of a date that is written year first.
pub fn year_in(date: &Option<String>) -> (r: Option<u32>)
    ensures
        r == year_of(*date),
{
    match date {
        Some(d) => {
            let v = text::chars_of(d.as_str());
            assert(v@.skip(0) =~= d@);
            let i: usize = text::find_char(&v, '-', 0);
            let y = text::text_between(&v, 0, i);
            assert(y@ =~= d@.take(i as int));
            text::parse_u32(y.as_str())
        },
        None => None,
    }
}

// ---------------------------------------------------------------------------
// Suggestions
// ---------------------------------------------------------------------------

/// A result of a search over everything.
#[derive(Debug, Clone)]
pub struct TmdbMultiResult {
    pub id: u64,
    pub media_type: Option<String>,
    pub title: Option<String>,
    pub name: Option<String>,
    pub release_date: Option<String>,
    pub first_air_date: Option<String>,
    pub overview: Option<String>,
    pub poster_path: Option<String>,
}

pub open spec fn kind_in(media_type: Option<String>) -> Option<TmdbKind> {
    match media_type {
        Some(m) => kind_of_word(m@),
        None => None,
    }
}

/// The suggestion that a result makes: only movies and shows with a title do.
pub open spec fn suggested(r: TmdbMultiResult) -> Option<TmdbSuggestion> {
    match (kind_in(r.media_type), or_text(r.title, r.name)) {
        (Some(kind), Some(title)) => Some(
            TmdbSuggestion {
                kind,
                tmdb_id: r.id,
                title,
                year: year_of(or_text(r.release_date, r.first_air_date)),
                overview: non_empty(r.overview),
                poster_path: r.poster_path,
            },
        ),
        _ => None,
    }
}

/// Most suggestions of one search.
pub const MAX_SUGGESTIONS: usize = 10;

/// The first suggestions that the results make, ten at most.
pub open spec fn suggestions(results: Seq<TmdbMultiResult>) -> Seq<TmdbSuggestion>
    decreases results.len(),
{
    if results.len() == 0 {
        seq![]
    } else {
        let before = suggestions(results.drop_last());
        if before.len() >= MAX_SUGGESTIONS {
            before
        } else {
            match suggested(results.last()) {
                Some(s) => before.push(s),
                None => before,
            }
        }
    }
}

fn suggestion(r: TmdbMultiResult) -> (s: Option<TmdbSuggestion>)
    ensures
        s == suggested(r),
{
    let kind = match &r.media_type {
        Some(m) => kind_hint(m.as_str()),
        None => None,
    };
    match kind {
        None => None,
        Some(kind) => match first_text(r.title, r.name) {
            None => None,
            Some(title) => {
                let date = first_text(r.release_date, r.first_air_date);
                Some(
                    TmdbSuggestion {
                        kind,
                        tmdb_id: r.id,
                        title,
                        year: year_in(&date),
                        overview: without_empty(r.overview),
                        poster_path: r.poster_path,
                    },
                )
            },
        },
    }
}

/// The suggestions of a search.
pub fn suggestions_of(results: Vec<TmdbMultiResult>) -> (r: Vec<TmdbSuggestion>)
    ensures
        r@ == suggestions(results@),
{
    let ghost all = results@;
    let mut out: Vec<TmdbSuggestion> = Vec::new();
    assert(out@ =~= suggestions(all.take(0)));
    for e in it: results
        invariant
            it.seq() == all,
            out@ == suggestions(all.take(it.index())),
    {
        proof {
            assert(all.take(it.index() + 1).drop_last() =~= all.take(it.index()));
            assert(all.take(it.index() + 1).last() == e);
        }
        if out.len() < MAX_SUGGESTIONS {
            match suggestion(e) {
                Some(s) => {
                    out.push(s);
                },
                None => {},
            }
        }
    }
    assert(all.take(all.len() as int) =~= all);
    out
}

/// A search never gives more than ten suggestions.
pub proof fn suggestions_are_bounded(results: Seq<TmdbMultiResult>)
    ensures
        suggestions(results).len() <= MAX_SUGGESTIONS,
    decreases results.len(),
{
    if results.len() > 0 {
        suggestions_are_bounded(results.drop_last());
    }
}

// ---------------------------------------------------------------------------
// Descriptions
// ---------------------------------------------------------------------------

/// A title of a list, such as recommendations.
#[derive(Debug, Clone)]
pub struct TmdbDiscoverResult {
    pub id: u64,
    pub title: Option<String>,
    pub name: Option<String>,
    pub overview: Option<String>,
    pub release_date: Option<String>,
    pub first_air_date: Option<String>,
    pub poster_path: Option<String>,
    pub backdrop_path: Option<String>,
    /// Bits of the score between zero and one.
    pub vote_score_bits: Option<u64>,
    pub vote_count: Option<u32>,
    pub popularity_bits: Option<u64>,
    pub original_language: Option<String>,
    pub genre_ids: Vec<u32>,
}

pub open spec fn text_or_blank(s: Option<String>) -> Seq<char> {
    match s {
        Some(t) => t@,
        None => ""@,
    }
}

fn or_blank(s: Option<String>) -> (r: String)
    ensures
        r@ == text_or_blank(s),
        s matches Some(t) ==> r == t,
{
    match s {
        Some(t) => t,
        None => "".to_string(),
    }
}

/// `m` describes a title `e` of a list.
pub open spec fn is_listed(m: MediaMetadata, e: TmdbDiscoverResult, kind: TmdbKind) -> bool {
    &&& m.kind == kind
    &&& m.tmdb_id == e.id
    &&& m.title@ == text_or_blank(or_text(e.title, e.name))
    &&& m.overview == non_empty(e.overview)
    &&& m.year == year_of(or_text(e.release_date, e.first_air_date))
    &&& m.poster_path == e.poster_path
    &&& m.backdrop_path == e.backdrop_path
    &&& m.vote_score_bits == e.vote_score_bits
    &&& m.vote_count == e.vote_count
    &&& m.genres@.len() == 0
    &&& m.runtime_minutes is None
    &&& m.number_of_seasons is None
    &&& m.popularity_bits == e.popularity_bits
    &&& m.original_language == e.original_language
    &&& m.genre_ids == e.genre_ids
    &&& m.release_date == or_text(e.release_date, e.first_air_date)
}

impl TmdbDiscoverResult {
    /// The description of a title of a list, which has neither genre names
    /// nor running times.
    pub fn into_meta(self, kind: TmdbKind) -> (r: MediaMetadata)
        ensures
            is_listed(r, self, kind),
    {
        let date = first_text(self.release_date, self.first_air_date);
        let year = year_in(&date);
        MediaMetadata {
            kind,
            tmdb_id: self.id,
            title: or_blank(first_text(self.title, self.name)),
            overview: without_empty(self.overview),
            year,
            poster_path: self.poster_path,
            backdrop_path: self.backdrop_path,
            vote_score_bits: self.vote_score_bits,
            vote_count: self.vote_count,
            genres: Vec::new(),
            runtime_minutes: None,
            number_of_seasons: None,
            popularity_bits: self.popularity_bits,
            original_language: self.original_language,
            genre_ids: self.genre_ids,
            release_date: date,
        }
    }
}

/// A movie or show in full.
#[derive(Debug, Clone)]
pub struct TmdbRaw {
    pub title: Option<String>,
    pub name: Option<String>,
    pub overview: Option<String>,
    pub release_date: Option<String>,
    pub first_air_date: Option<String>,
    pub poster_path: Option<String>,
    pub backdrop_path: Option<String>,
    pub vote_score_bits: Option<u64>,
    pub vote_count: Option<u32>,
    pub genres: Option<Vec<Genre>>,
    /// Movies only.
    pub runtime: Option<u32>,
    /// Shows only.
    pub episode_run_time: Option<Vec<u32>>,
    pub number_of_seasons: Option<u32>,
    pub popularity_bits: Option<u64>,
    pub original_language: Option<String>,
}

pub open spec fn genres_of(g: Option<Vec<Genre>>) -> Seq<Genre> {
    match g {
        Some(v) => v@,
        None => seq![],
    }
}

/// Running time: that of a movie, or the first of a show's.
pub open spec fn runtime_of(r: TmdbRaw) -> Option<u32> {
    match r.runtime {
        Some(n) => Some(n),
        None => match r.episode_run_time {
            Some(v) => if v@.len() > 0 {
                Some(v@[0])
            } else {
                None
            },
            None => None,
        },
    }
}

/// The description of a movie or show.
pub fn describe(raw: TmdbRaw, tmdb_id: u64, kind: TmdbKind) -> (r: MediaMetadata)
    ensures
        r.kind == kind,
        r.tmdb_id == tmdb_id,
        r.title@ == text_or_blank(or_text(raw.title, raw.name)),
        r.overview == non_empty(raw.overview),
        r.year == year_of(or_text(raw.release_date, raw.first_air_date)),
        r.poster_path == raw.poster_path,
        r.backdrop_path == raw.backdrop_path,
        r.vote_score_bits == raw.vote_score_bits,
        r.vote_count == raw.vote_count,
        r.genres@ == Seq::new(genres_of(raw.genres).len(), |i: int| genres_of(raw.genres)[i].name),
        r.genre_ids@ == Seq::new(genres_of(raw.genres).len(), |i: int| genres_of(raw.genres)[i].id),
        r.runtime_minutes == runtime_of(raw),
        r.number_of_seasons == raw.number_of_seasons,
        r.popularity_bits == raw.popularity_bits,
        r.original_language == raw.original_language,
        r.release_date == or_text(raw.release_date, raw.first_air_date),
{
    let runtime_minutes = match raw.runtime {
        Some(n) => Some(n),
        None => match &raw.episode_run_time {
            Some(v) => {
                if v.len() > 0 {
                    Some(v[0])
                } else {
                    None
                }
            },
            None => None,
        },
    };
    let list = match raw.genres {
        Some(v) => v,
        None => Vec::new(),
    };
    let ghost all = list@;
    assert(all =~= genres_of(raw.genres));
    let mut genres: Vec<String> = Vec::new();
    let mut genre_ids: Vec<u32> = Vec::new();
    for g in it: list
        invariant
            it.seq() == all,
            genres@ == Seq::new(it.index() as nat, |i: int| all[i].name),
            genre_ids@ == Seq::new(it.index() as nat, |i: int| all[i].id),
    {
        genre_ids.push(g.id);
        genres.push(g.name);
    }
    let date = first_text(raw.release_date, raw.first_air_date);
    let year = year_in(&date);
    MediaMetadata {
        kind,
        tmdb_id,
        title: or_blank(first_text(raw.title, raw.name)),
        overview: without_empty(raw.overview),
        year,
        poster_path: raw.poster_path,
        backdrop_path: raw.backdrop_path,
        vote_score_bits: raw.vote_score_bits,
        vote_count: raw.vote_count,
        genres,
        runtime_minutes,
        number_of_seasons: raw.number_of_seasons,
        popularity_bits: raw.popularity_bits,
        original_language: raw.original_language,
        genre_ids,
        release_date: date,
    }
}

/// An episode of a season's listing.
#[derive(Debug, Clone)]
pub struct TmdbEpisodeRaw {
    pub episode_number: u32,
    pub season_number: Option<u32>,
    pub name: Option<String>,
    pub overview: Option<String>,
    pub air_date: Option<String>,
    pub runtime: Option<u32>,
    pub still_path: Option<String>,
}

pub open spec fn episode_of(e: TmdbEpisodeRaw, season: u32) -> EpisodeMetadata {
    EpisodeMetadata {
        season: match e.season_number {
            Some(s) => s,
            None => season,
        },
        episode: e.episode_number,
        name: non_empty(e.name),
        overview: non_empty(e.overview),
        air_date: non_empty(e.air_date),
        runtime_minutes: e.runtime,
        still_path: e.still_path,
    }
}

pub open spec fn listing(episodes: Option<Vec<TmdbEpisodeRaw>>) -> Seq<TmdbEpisodeRaw> {
    match episodes {
        Some(v) => v@,
        None => seq![],
    }
}

/// The episodes of a season's listing.
pub fn season_episodes(episodes: Option<Vec<TmdbEpisodeRaw>>, season: u32) -> (r: Vec<
    EpisodeMetadata,
>)
    ensures
        r@ == Seq::new(listing(episodes).len(), |i: int| episode_of(listing(episodes)[i], season)),
{
    let list = match episodes {
        Some(v) => v,
        None => Vec::new(),
    };
    let ghost all = list@;
    assert(all =~= listing(episodes));
    let mut out: Vec<EpisodeMetadata> = Vec::new();
    for e in it: list
        invariant
            it.seq() == all,
            out@ == Seq::new(it.index() as nat, |i: int| episode_of(all[i], season)),
    {
        let number: u32 = match e.season_number {
            Some(s) => s,
            None => season,
        };
        out.push(
            EpisodeMetadata {
                season: number,
                episode: e.episode_number,
                name: without_empty(e.name),
                overview: without_empty(e.overview),
                air_date: without_empty(e.air_date),
                runtime_minutes: e.runtime,
                still_path: e.still_path,
            },
        );
    }
    out
}

// ---------------------------------------------------------------------------
// Looking up an entry
// ---------------------------------------------------------------------------

/// In which order the two namespaces are asked for an entry: the hinted kind
/// first, movies without a hint.
pub open spec fn lookup_order(hint: Option<TmdbKind>) -> (TmdbKind, TmdbKind) {
    match hint {
        Some(TmdbKind::Tv) => (TmdbKind::Tv, TmdbKind::Movie),
        _ => (TmdbKind::Movie, TmdbKind::Tv),
    }
}

pub fn order_of_lookup(hint: Option<TmdbKind>) -> (r: (TmdbKind, TmdbKind))
    ensures
        r == lookup_order(hint),
{
    match hint {
        Some(TmdbKind::Tv) => (TmdbKind::Tv, TmdbKind::Movie),
        _ => (TmdbKind::Movie, TmdbKind::Tv),
    }
}

/// The key under which a search is kept: without white space around it, and
/// in lower case. A blank query is not searched for.
pub fn search_key(query: &str) -> (r: Option<String>)
    ensures
        match r {
            Some(k) => text::trimmed(query@).len() > 0 && k@ == text::unicode_lower(
                text::trimmed(query@),
            ),
            None => text::trimmed(query@).len() == 0,
        },
{
    let t = text::trim(query);
    if text::is_blank(t.as_str()) {
        None
    } else {
        Some(text::to_lowercase(t.as_str()))
    }
}

pub open spec fn base_url() -> Seq<char> {
    "https://api.themoviedb.org/3/"@
}

/// Address of the list of genres of a kind.
pub fn genre_list_url(kind: TmdbKind, api_key: &str) -> (r: String)
    ensures
        r@ == base_url() + "genre/"@ + kind_word(kind) + "/list?api_key="@ + api_key@
            + "&language=en-US"@,
{
    let mut s = "https://api.themoviedb.org/3/".to_string();
    s.append("genre/");
    s.append(kind_marker(kind));
    s.append("/list?api_key=");
    s.append(api_key);
    s.append("&language=en-US");
    s
}

/// Address of the titles that TMDB recommends for a title.
pub fn recommendations_url(kind: TmdbKind, tmdb_id: u64, api_key: &str) -> (r: String)
    ensures
        r@ == base_url() + kind_word(kind) + "/"@ + text::decimal(tmdb_id as nat)
            + "/recommendations?api_key="@ + api_key@ + "&page=1"@,
{
    let mut s = "https://api.themoviedb.org/3/".to_string();
    s.append(kind_marker(kind));
    s.append("/");
    s.append(text::decimal_u64(tmdb_id).as_str());
    s.append("/recommendations?api_key=");
    s.append(api_key);
    s.append("&page=1");
    s
}

/// Address of the titles that are similar to a title.
pub fn similar_url(kind: TmdbKind, tmdb_id: u64, api_key: &str) -> (r: String)
    ensures
        r@ == base_url() + kind_word(kind) + "/"@ + text::decimal(tmdb_id as nat)
            + "/similar?api_key="@ + api_key@ + "&page=1"@,
{
    let mut s = "https://api.themoviedb.org/3/".to_string();
    s.append(kind_marker(kind));
    s.append("/");
    s.append(text::decimal_u64(tmdb_id).as_str());
    s.append("/similar?api_key=");
    s.append(api_key);
    s.append("&page=1");
    s
}

/// Address of a season's listing.
pub fn season_url(tmdb_id: u64, season: u32, api_key: &str) -> (r: String)
    ensures
        r@ == base_url() + "tv/"@ + text::decimal(tmdb_id as nat) + "/season/"@ + text::decimal(
            season as nat,
        ) + "?api_key="@ + api_key@,
{
    let mut s = "https://api.themoviedb.org/3/".to_string();
    s.append("tv/");
    s.append(text::decimal_u64(tmdb_id).as_str());
    s.append("/season/");
    s.append(text::decimal_u64(season as u64).as_str());
    s.append("?api_key=");
    s.append(api_key);
    s
}

/// Address of an entry.
pub fn entry_url(kind: TmdbKind, tmdb_id: u64, api_key: &str) -> (r: String)
    ensures
        r@ == base_url() + kind_word(kind) + "/"@ + text::decimal(tmdb_id as nat) + "?api_key="@
            + api_key@,
{
    let mut s = "https://api.themoviedb.org/3/".to_string();
    s.append(kind_marker(kind));
    s.append("/");
    s.append(text::decimal_u64(tmdb_id).as_str());
    s.append("?api_key=");
    s.append(api_key);
    s
}

/// The key under which a list is kept.
pub fn list_key(list: &str, kind: TmdbKind, tmdb_id: u64) -> (r: String)
    ensures
        r@ == list@ + ":"@ + kind_word(kind) + ":"@ + text::decimal(tmdb_id as nat),
{
    let mut s = list.to_string();
    s.append(":");
    s.append(kind_marker(kind));
    s.append(":");
    s.append(text::decimal_u64(tmdb_id).as_str());
    s
}

// ---------------------------------------------------------------------------
// The client
// ---------------------------------------------------------------------------

/// A title that was looked up: TMDB numbers movies and shows separately, so
/// one number may stand for two titles.
#[derive(Debug, Clone, Copy, PartialEq, Eq, Structural)]
pub struct TitleKey {
    pub tmdb_id: u64,
    pub hint: Option<TmdbKind>,
}

impl View for TitleKey {
    type V = TitleKey;

    open spec fn view(&self) -> TitleKey {
        *self
    }
}

impl CacheKey for TitleKey {
    fn same(&self, other: &Self) -> (r: bool) {
        let same_hint = match (self.hint, other.hint) {
            (None, None) => true,
            (Some(a), Some(b)) => a == b,
            _ => false,
        };
        self.tmdb_id == other.tmdb_id && same_hint
    }
}

/// A season of a show.
#[derive(Debug, Clone, Copy, PartialEq, Eq, Structural)]
pub struct SeasonKey {
    pub tmdb_id: u64,
    pub season: u32,
}

impl View for SeasonKey {
    type V = SeasonKey;

    open spec fn view(&self) -> SeasonKey {
        *self
    }
}

impl CacheKey for SeasonKey {
    fn same(&self, other: &Self) -> (r: bool) {
        self.tmdb_id == other.tmdb_id && self.season == other.season
    }
}

/// A query, or the name of a list.
#[derive(Debug, Clone)]
pub struct TextKey(pub String);

impl View for TextKey {
    type V = Seq<char>;

    open spec fn view(&self) -> Seq<char> {
        self.0@
    }
}

impl CacheKey for TextKey {
    fn same(&self, other: &Self) -> (r: bool) {
        text::same_text(self.0.as_str(), other.0.as_str())
    }
}

/// What is kept of a lookup.
pub enum CacheEntry {
    Found(MediaMetadata),
    NotFound,
}

/// Something and when it was fetched, in milliseconds.
pub struct Stamped<T> {
    pub at: u64,
    pub value: T,
}

impl<T> Stamped<T> {
    /// Whether it was fetched less than `ttl` milliseconds ago.
    pub open spec fn fresh(self, now: u64, ttl: u64) -> bool {
        now - self.at < ttl
    }

    fn is_fresh(&self, now: u64, ttl: u64) -> (r: bool)
        ensures
            r == self.fresh(now, ttl),
    {
        now < self.at || now - self.at < ttl
    }
}

/// Milliseconds for which the genres are kept: a day.
pub const GENRE_CACHE_TTL_MS: u64 = 86_400_000;

/// Milliseconds for which a list is kept: six hours.
pub const DISCOVER_CACHE_TTL_MS: u64 = 21_600_000;

/// What there is to do for an answer.
pub enum Step<'a, T> {
    /// There is nothing to ask.
    Nothing,
    /// It is known.
    Known(&'a T),
    /// Ask at this address.
    Fetch(String),
}

/// Asks TMDB, and keeps what it answers.
pub struct TmdbClient {
    api_key: String,
    typed_cache: Cache<TitleKey, CacheEntry>,
    seasons: Cache<SeasonKey, Vec<EpisodeMetadata>>,
    searches: Cache<TextKey, Vec<TmdbSuggestion>>,
    genres_cache: Cache<TextKey, Stamped<Vec<Genre>>>,
    discover_cache: Cache<TextKey, Stamped<Vec<MediaMetadata>>>,
}

/// The name of the titles that TMDB recommends for a title.
pub open spec fn recommendations_name(kind: TmdbKind, tmdb_id: u64) -> Seq<char> {
    "recommendations"@ + ":"@ + kind_word(kind) + ":"@ + text::decimal(tmdb_id as nat)
}

/// The name of the titles that are similar to a title.
pub open spec fn similar_name(kind: TmdbKind, tmdb_id: u64) -> Seq<char> {
    "similar"@ + ":"@ + kind_word(kind) + ":"@ + text::decimal(tmdb_id as nat)
}

/// What to do for a list that is kept for a while.
pub open spec fn is_list_step<T>(
    step: Step<'_, T>,
    kept: Option<Stamped<T>>,
    now: u64,
    ttl: u64,
    url: Seq<char>,
) -> bool {
    match kept {
        Some(s) => if s.fresh(now, ttl) {
            step == Step::Known(&s.value)
        } else {
            step matches Step::Fetch(u) && u@ == url
        },
        None => step matches Step::Fetch(u) && u@ == url,
    }
}

impl TmdbClient {
    pub closed spec fn key(self) -> Seq<char> {
        self.api_key@
    }

    /// What is kept of a lookup.
    pub closed spec fn title(self, key: TitleKey) -> Option<CacheEntry> {
        self.typed_cache.answer(key)
    }

    /// What is kept of a season.
    pub closed spec fn season(self, key: SeasonKey) -> Option<Vec<EpisodeMetadata>> {
        self.seasons.answer(key)
    }

    /// What is kept of a search.
    pub closed spec fn search(self, key: Seq<char>) -> Option<Vec<TmdbSuggestion>> {
        self.searches.answer(key)
    }

    /// What is kept of the genres of a kind.
    pub closed spec fn genres(self, kind: TmdbKind) -> Option<Stamped<Vec<Genre>>> {
        self.genres_cache.answer(kind_word(kind))
    }

    /// What is kept of a list.
    pub closed spec fn list(self, name: Seq<char>) -> Option<Stamped<Vec<MediaMetadata>>> {
        self.discover_cache.answer(name)
    }

    /// A client that has asked nothing yet.
    pub fn new(api_key: String) -> (r: Self)
        ensures
            r.key() == api_key@,
            forall|k: TitleKey| (#[trigger] r.title(k)) is None,
            forall|k: SeasonKey| (#[trigger] r.season(k)) is None,
            forall|k: Seq<char>| (#[trigger] r.search(k)) is None,
            forall|k: TmdbKind| (#[trigger] r.genres(k)) is None,
            forall|k: Seq<char>| (#[trigger] r.list(k)) is None,
    {
        TmdbClient {
            api_key,
            typed_cache: Cache::new(),
            seasons: Cache::new(),
            searches: Cache::new(),
            genres_cache: Cache::new(),
            discover_cache: Cache::new(),
        }
    }

    /// What to do for a search over everything. A blank query is not
    /// searched for; [`Step::Fetch`] carries the key under which to keep the
    /// answer.
    pub fn multi_search(&self, query: &str) -> (r: Step<'_, Vec<TmdbSuggestion>>)
        ensures
            if text::trimmed(query@).len() == 0 {
                r is Nothing
            } else {
                let key = text::unicode_lower(text::trimmed(query@));
                match self.search(key) {
                    Some(v) => r == Step::Known(&v),
                    None => r matches Step::Fetch(k) && k@ == key,
                }
            },
    {
        match search_key(query) {
            None => Step::Nothing,
            Some(k) => {
                let key = TextKey(k);
                match self.searches.get(&key) {
                    Some(v) => Step::Known(v),
                    None => Step::Fetch(key.0),
                }
            },
        }
    }

    /// Keeps what a search found.
    pub fn keep_search(&mut self, key: String, results: Vec<TmdbMultiResult>)
        ensures
            final(self).search(key@) matches Some(v) && v@ == suggestions(results@),
            forall|k: Seq<char>|
                k != key@ ==> #[trigger] final(self).search(k) == old(self).search(k),
            final(self).key() == old(self).key(),
            forall|k: TitleKey| #[trigger] final(self).title(k) == old(self).title(k),
            forall|k: SeasonKey| #[trigger] final(self).season(k) == old(self).season(k),
            forall|k: TmdbKind| #[trigger] final(self).genres(k) == old(self).genres(k),
            forall|k: Seq<char>| #[trigger] final(self).list(k) == old(self).list(k),
    {
        let found = suggestions_of(results);
        self.searches.put(TextKey(key), found);
    }

    /// What to do for the genres of a kind.
    pub fn genre_list(&self, kind: TmdbKind, now: u64) -> (r: Step<'_, Vec<Genre>>)
        ensures
            is_list_step(
                r,
                self.genres(kind),
                now,
                GENRE_CACHE_TTL_MS,
                base_url() + "genre/"@ + kind_word(kind) + "/list?api_key="@ + self.key()
                    + "&language=en-US"@,
            ),
    {
        let key = TextKey(kind_marker(kind).to_string());
        match self.genres_cache.get(&key) {
            Some(s) => {
                if s.is_fresh(now, GENRE_CACHE_TTL_MS) {
                    return Step::Known(&s.value);
                }
            },
            None => {},
        }
        Step::Fetch(genre_list_url(kind, self.api_key.as_str()))
    }

    /// Keeps the genres of a kind.
    pub fn keep_genres(&mut self, kind: TmdbKind, genres: Vec<Genre>, now: u64)
        ensures
            forall|k: TmdbKind|
                (#[trigger] final(self).genres(k)) == if k == kind {
                    Some(Stamped { at: now, value: genres })
                } else {
                    old(self).genres(k)
                },
            final(self).key() == old(self).key(),
            forall|k: TitleKey| #[trigger] final(self).title(k) == old(self).title(k),
            forall|k: SeasonKey| #[trigger] final(self).season(k) == old(self).season(k),
            forall|k: Seq<char>| #[trigger] final(self).search(k) == old(self).search(k),
            forall|k: Seq<char>| #[trigger] final(self).list(k) == old(self).list(k),
    {
        proof {
            kind_word_reads_back(TmdbKind::Movie);
            kind_word_reads_back(TmdbKind::Tv);
        }
        self.genres_cache.put(
            TextKey(kind_marker(kind).to_string()),
            Stamped { at: now, value: genres },
        );
    }

    /// What to do for the titles that TMDB recommends for a title.
    pub fn recommendations(&self, kind: TmdbKind, tmdb_id: u64, now: u64) -> (r: Step<
        '_,
        Vec<MediaMetadata>,
    >)
        ensures
            is_list_step(
                r,
                self.list(recommendations_name(kind, tmdb_id)),
                now,
                DISCOVER_CACHE_TTL_MS,
                base_url() + kind_word(kind) + "/"@ + text::decimal(tmdb_id as nat)
                    + "/recommendations?api_key="@ + self.key() + "&page=1"@,
            ),
    {
        let key = TextKey(list_key("recommendations", kind, tmdb_id));
        match self.kept_list(&key, now) {
            Some(v) => Step::Known(v),
            None => Step::Fetch(recommendations_url(kind, tmdb_id, self.api_key.as_str())),
        }
    }

    /// What to do for the titles that are similar to a title.
    pub fn similar(&self, kind: TmdbKind, tmdb_id: u64, now: u64) -> (r: Step<
        '_,
        Vec<MediaMetadata>,
    >)
        ensures
            is_list_step(
                r,
                self.list(similar_name(kind, tmdb_id)),
                now,
                DISCOVER_CACHE_TTL_MS,
                base_url() + kind_word(kind) + "/"@ + text::decimal(tmdb_id as nat)
                    + "/similar?api_key="@ + self.key() + "&page=1"@,
            ),
    {
        let key = TextKey(list_key("similar", kind, tmdb_id));
        match self.kept_list(&key, now) {
            Some(v) => Step::Known(v),
            None => Step::Fetch(similar_url(kind, tmdb_id, self.api_key.as_str())),
        }
    }

    fn kept_list(&self, key: &TextKey, now: u64) -> (r: Option<&Vec<MediaMetadata>>)
        ensures
            match r {
                Some(v) => self.list(key@) is Some && self.list(key@)->0.fresh(
                    now,
                    DISCOVER_CACHE_TTL_MS,
                ) && self.list(key@)->0.value == *v,
                None => self.list(key@) is Some ==> !self.list(key@)->0.fresh(
                    now,
                    DISCOVER_CACHE_TTL_MS,
                ),
            },
    {
        match self.discover_cache.get(key) {
            Some(s) => {
                if s.is_fresh(now, DISCOVER_CACHE_TTL_MS) {
                    Some(&s.value)
                } else {
                    None
                }
            },
            None => None,
        }
    }

    /// Keeps a list under its name.
    pub fn keep_list(
        &mut self,
        name: String,
        results: Vec<TmdbDiscoverResult>,
        kind: TmdbKind,
        now: u64,
    )
        ensures
            final(self).list(name@) matches Some(s) && s.at == now && s.value@.len()
                == results@.len() && forall|i: int|
                0 <= i < results@.len() ==> is_listed(#[trigger] s.value@[i], results@[i], kind),
            forall|k: Seq<char>|
                k != name@ ==> #[trigger] final(self).list(k) == old(self).list(k),
            final(self).key() == old(self).key(),
            forall|k: TitleKey| #[trigger] final(self).title(k) == old(self).title(k),
            forall|k: SeasonKey| #[trigger] final(self).season(k) == old(self).season(k),
            forall|k: Seq<char>| #[trigger] final(self).search(k) == old(self).search(k),
            forall|k: TmdbKind| #[trigger] final(self).genres(k) == old(self).genres(k),
    {
        let ghost all = results@;
        let mut value: Vec<MediaMetadata> = Vec::new();
        for e in it: results
            invariant
                it.seq() == all,
                value@.len() == it.index(),
                forall|i: int|
                    0 <= i < value@.len() ==> is_listed(#[trigger] value@[i], all[i], kind),
        {
            value.push(e.into_meta(kind));
        }
        self.discover_cache.put(TextKey(name), Stamped { at: now, value });
    }

    /// What to do for a season's episodes.
    pub fn tv_season_episodes(&self, tmdb_id: u64, season: u32) -> (r: Step<
        '_,
        Vec<EpisodeMetadata>,
    >)
        ensures
            match self.season(SeasonKey { tmdb_id, season }) {
                Some(v) => r == Step::Known(&v),
                None => r matches Step::Fetch(u) && u@ == base_url() + "tv/"@ + text::decimal(
                    tmdb_id as nat,
                ) + "/season/"@ + text::decimal(season as nat) + "?api_key="@ + self.key(),
            },
    {
        match self.seasons.get(&SeasonKey { tmdb_id, season }) {
            Some(v) => Step::Known(v),
            None => Step::Fetch(season_url(tmdb_id, season, self.api_key.as_str())),
        }
    }

    /// Keeps a season's listing.
    pub fn keep_season(
        &mut self,
        tmdb_id: u64,
        season: u32,
        episodes: Option<Vec<TmdbEpisodeRaw>>,
    )
        ensures
            final(self).season(SeasonKey { tmdb_id, season }) matches Some(v) && v@ == Seq::new(
                listing(episodes).len(),
                |i: int| episode_of(listing(episodes)[i], season),
            ),
            forall|k: SeasonKey|
                k != (SeasonKey { tmdb_id, season }) ==> #[trigger] final(self).season(k) == old(
                    self,
                ).season(k),
            final(self).key() == old(self).key(),
            forall|k: TitleKey| #[trigger] final(self).title(k) == old(self).title(k),
            forall|k: Seq<char>| #[trigger] final(self).search(k) == old(self).search(k),
            forall|k: TmdbKind| #[trigger] final(self).genres(k) == old(self).genres(k),
            forall|k: Seq<char>| #[trigger] final(self).list(k) == old(self).list(k),
    {
        let v = season_episodes(episodes, season);
        self.seasons.put(SeasonKey { tmdb_id, season }, v);
    }

    /// What to do for an entry of which the kind is not known: movies are
    /// asked first.
    pub fn lookup(&self, tmdb_id: u64) -> (r: LookupStep<'_>)
        ensures
            r == self.looked_up(tmdb_id, None),
    {
        self.lookup_with_kind(tmdb_id, None)
    }

    /// What to do for an entry: the hinted kind is asked first.
    pub open spec fn looked_up(self, tmdb_id: u64, hint: Option<TmdbKind>) -> LookupStep<'static> {
        match self.title(TitleKey { tmdb_id, hint }) {
            Some(e) => LookupStep::Known(&e),
            None => LookupStep::Ask(lookup_order(hint).0, lookup_order(hint).1),
        }
    }

    /// What to do for an entry: the hinted kind is asked first.
    pub fn lookup_with_kind(&self, tmdb_id: u64, hint: Option<TmdbKind>) -> (r: LookupStep<'_>)
        ensures
            r == self.looked_up(tmdb_id, hint),
    {
        match self.typed_cache.get(&TitleKey { tmdb_id, hint }) {
            Some(e) => LookupStep::Known(e),
            None => {
                let (first, second) = order_of_lookup(hint);
                LookupStep::Ask(first, second)
            },
        }
    }

    /// Address of an entry.
    pub fn fetch_url(&self, tmdb_id: u64, kind: TmdbKind) -> (r: String)
        ensures
            r@ == base_url() + kind_word(kind) + "/"@ + text::decimal(tmdb_id as nat)
                + "?api_key="@ + self.key(),
    {
        entry_url(kind, tmdb_id, self.api_key.as_str())
    }

    /// Keeps what came of asking both kinds in their order: the first that
    /// answered, or that neither did.
    pub fn keep_lookup(
        &mut self,
        tmdb_id: u64,
        hint: Option<TmdbKind>,
        first: Option<MediaMetadata>,
        second: Option<MediaMetadata>,
    )
        ensures
            forall|k: TitleKey|
                (#[trigger] final(self).title(k)) == if k == (TitleKey { tmdb_id, hint }) {
                    Some(
                        match first {
                            Some(m) => CacheEntry::Found(m),
                            None => match second {
                                Some(m) => CacheEntry::Found(m),
                                None => CacheEntry::NotFound,
                            },
                        },
                    )
                } else {
                    old(self).title(k)
                },
            final(self).key() == old(self).key(),
            forall|k: SeasonKey| #[trigger] final(self).season(k) == old(self).season(k),
            forall|k: Seq<char>| #[trigger] final(self).search(k) == old(self).search(k),
            forall|k: TmdbKind| #[trigger] final(self).genres(k) == old(self).genres(k),
            forall|k: Seq<char>| #[trigger] final(self).list(k) == old(self).list(k),
    {
        let entry = match first {
            Some(m) => CacheEntry::Found(m),
            None => match second {
                Some(m) => CacheEntry::Found(m),
                None => CacheEntry::NotFound,
            },
        };
        self.typed_cache.put(TitleKey { tmdb_id, hint }, entry);
    }
}

/// What to do for an entry.
pub enum LookupStep<'a> {
    Known(&'a CacheEntry),
    /// Ask both kinds, in this order, until one answers.
    Ask(TmdbKind, TmdbKind),
}

// ---------------------------------------------------------------------------
// Laws
// ---------------------------------------------------------------------------

/// A kind is known by its word, and by nothing else.
pub proof fn words_name_kinds(k: TmdbKind, word: &str, w: &str, r: Option<TmdbKind>)
    requires
        call_ensures(kind_marker, (k,), word),
        call_ensures(kind_hint, (w,), r),
    ensures
        r == Some(k) <==> w@ == word@,
        k is Tv ==> word@ == seq!['t', 'v'],
        k is Movie ==> word@ == seq!['m', 'o', 'v', 'i', 'e'],
{
    reveal_strlit("tv");
    reveal_strlit("movie");
    assert("tv"@ =~= seq!['t', 'v']);
    assert("movie"@ =~= seq!['m', 'o', 'v', 'i', 'e']);
    assert("tv"@.len() != "movie"@.len());
}

/// A date that starts with a year and a dash, or is a year, tells that year;
/// nothing and an empty date tell none.
pub proof fn date_tells_its_year(y: u32, digits: String, rest: Seq<char>, d: &Option<String>, r: Option<u32>)
    requires
        call_ensures(text::decimal_u64, (y as u64,), digits),
        call_ensures(year_in, (d,), r),
    ensures
        d is Some && d->0@ == digits@ + seq!['-'] + rest ==> r == Some(y),
        d is Some && d->0@ == digits@ ==> r == Some(y),
        d is Some && (d->0@.len() == 0 || d->0@[0] == '-') ==> r is None,
        d is None ==> r is None,
{
    text::decimal_denotes(y as nat);
    let t = text::decimal(y as nat);
    assert forall|i: int| 0 <= i < t.len() implies #[trigger] t[i] != '-' by {
        assert(text::is_digit(t[i]));
    }
    assert(text::is_digit(t[0]));
    text::lemma_first_of_joint(t, '-', rest);
    assert((t + seq!['-'] + rest).take(t.len() as int) =~= t);
    text::lemma_first_of(t, '-');
    if text::first_of(t, '-') < t.len() {
        assert(t[text::first_of(t, '-')] != '-');
    }
    assert(t.take(t.len() as int) =~= t);
    if d is Some && (d->0@.len() == 0 || d->0@[0] == '-') {
        assert(d->0@.take(0) =~= Seq::<char>::empty());
    }
}

/// One more result adds a suggestion at the end where it is a movie or a show
/// with a title and there are less than ten; otherwise it changes nothing.
pub proof fn results_make_suggestions_in_turn(
    results: Vec<TmdbMultiResult>,
    more: Vec<TmdbMultiResult>,
    x: TmdbMultiResult,
    released: Option<u32>,
    aired: Option<u32>,
    a: Vec<TmdbSuggestion>,
    b: Vec<TmdbSuggestion>,
)
    requires
        more@ == results@.push(x),
        call_ensures(suggestions_of, (results,), a),
        call_ensures(suggestions_of, (more,), b),
        call_ensures(year_in, (&x.release_date,), released),
        call_ensures(year_in, (&x.first_air_date,), aired),
    ensures
        results@.len() == 0 ==> a@.len() == 0,
        a@.len() <= 10,
        a@.len() == 10 ==> b@ == a@,
        x.title is None && x.name is None ==> b@ == a@,
        x.media_type is None || (x.media_type->0@ != seq!['t', 'v'] && x.media_type->0@ != seq![
            'm',
            'o',
            'v',
            'i',
            'e',
        ]) ==> b@ == a@,
        b@ != a@ ==> b@.len() == a@.len() + 1 && b@.drop_last() == a@ && b@.last().tmdb_id == x.id
            && (x.title is Some ==> b@.last().title == x.title->0) && (x.title is None
            ==> b@.last().title == x.name->0) && (b@.last().kind is Tv <==> x.media_type->0@
            == seq!['t', 'v']) && b@.last().poster_path == x.poster_path && (x.release_date is Some
            ==> b@.last().year == released) && (x.release_date is None ==> b@.last().year == aired)
            && (b@.last().overview is Some <==> x.overview is Some && x.overview->0@.len() > 0) && (
        b@.last().overview is Some ==> b@.last().overview == x.overview),
        a@.len() < 10 && (x.title is Some || x.name is Some) && x.media_type is Some && (
        x.media_type->0@ == seq!['t', 'v'] || x.media_type->0@ == seq!['m', 'o', 'v', 'i', 'e'])
            ==> b@.len() == a@.len() + 1,
{
    reveal_strlit("tv");
    reveal_strlit("movie");
    assert("tv"@ =~= seq!['t', 'v']);
    assert("movie"@ =~= seq!['m', 'o', 'v', 'i', 'e']);
    assert("tv"@.len() != "movie"@.len());
    suggestions_are_bounded(results@);
    assert(more@.drop_last() =~= results@);
    assert(more@.last() == x);
    if suggested(x) is Some {
        assert(a@.push(suggested(x)->0).drop_last() =~= a@);
    }
}

/// What describes a title of a list is what the list tells of it: the title
/// of a movie comes before the name of a show, the release before the first
/// airing, and what lists do not tell is left out.
pub proof fn listed_title_is_described(
    e: TmdbDiscoverResult,
    kind: TmdbKind,
    released: Option<u32>,
    aired: Option<u32>,
    m: MediaMetadata,
)
    requires
        call_ensures(TmdbDiscoverResult::into_meta, (e, kind), m),
        call_ensures(year_in, (&e.release_date,), released),
        call_ensures(year_in, (&e.first_air_date,), aired),
    ensures
        m.kind == kind && m.tmdb_id == e.id,
        e.title is Some ==> m.title@ == e.title->0@,
        e.title is None && e.name is Some ==> m.title@ == e.name->0@,
        e.title is None && e.name is None ==> m.title@.len() == 0,
        m.overview is Some <==> e.overview is Some && e.overview->0@.len() > 0,
        m.overview is Some ==> m.overview == e.overview,
        e.release_date is Some ==> m.year == released && m.release_date == e.release_date,
        e.release_date is None ==> m.year == aired && m.release_date == e.first_air_date,
        m.poster_path == e.poster_path && m.backdrop_path == e.backdrop_path,
        m.vote_score_bits == e.vote_score_bits && m.vote_count == e.vote_count,
        m.popularity_bits == e.popularity_bits && m.original_language == e.original_language,
        m.genre_ids@ == e.genre_ids@ && m.genres@.len() == 0,
        m.runtime_minutes is None && m.number_of_seasons is None,
{
    reveal_strlit("");
}

/// What describes an entry is what the entry tells: each genre gives its name
/// and its number, in turn, and a running time comes from the movie before
/// the first of the show's.
pub proof fn entry_is_described(
    e: TmdbRaw,
    id: u64,
    kind: TmdbKind,
    released: Option<u32>,
    aired: Option<u32>,
    m: MediaMetadata,
)
    requires
        call_ensures(describe, (e, id, kind), m),
        call_ensures(year_in, (&e.release_date,), released),
        call_ensures(year_in, (&e.first_air_date,), aired),
    ensures
        m.kind == kind && m.tmdb_id == id,
        e.title is Some ==> m.title@ == e.title->0@,
        e.title is None && e.name is Some ==> m.title@ == e.name->0@,
        e.title is None && e.name is None ==> m.title@.len() == 0,
        m.overview is Some <==> e.overview is Some && e.overview->0@.len() > 0,
        m.overview is Some ==> m.overview == e.overview,
        e.release_date is Some ==> m.year == released && m.release_date == e.release_date,
        e.release_date is None ==> m.year == aired && m.release_date == e.first_air_date,
        m.poster_path == e.poster_path && m.backdrop_path == e.backdrop_path,
        m.vote_score_bits == e.vote_score_bits && m.vote_count == e.vote_count,
        m.popularity_bits == e.popularity_bits && m.original_language == e.original_language,
        m.number_of_seasons == e.number_of_seasons,
        e.genres is None ==> m.genres@.len() == 0 && m.genre_ids@.len() == 0,
        e.genres is Some ==> m.genres@.len() == e.genres->0@.len() && m.genre_ids@.len()
            == e.genres->0@.len() && forall|i: int|
            0 <= i < e.genres->0@.len() ==> #[trigger] m.genres@[i] == e.genres->0@[i].name
                && m.genre_ids@[i] == e.genres->0@[i].id,
        e.runtime is Some ==> m.runtime_minutes == e.runtime,
        e.runtime is None && e.episode_run_time is Some && e.episode_run_time->0@.len() > 0
            ==> m.runtime_minutes == Some(e.episode_run_time->0@[0]),
        e.runtime is None && (e.episode_run_time is None || e.episode_run_time->0@.len() == 0)
            ==> m.runtime_minutes is None,
{
    reveal_strlit("");
}

/// Every episode of a listing is there, in turn, under its own number; its
/// season is the one it names, or else the one asked for, and an empty text
/// is none.
pub proof fn episodes_are_listed_in_turn(
    episodes: Option<Vec<TmdbEpisodeRaw>>,
    season: u32,
    r: Vec<EpisodeMetadata>,
)
    requires
        call_ensures(season_episodes, (episodes, season), r),
    ensures
        episodes is None ==> r@.len() == 0,
        episodes is Some ==> r@.len() == episodes->0@.len(),
        episodes is Some ==> forall|i: int|
            0 <= i < r@.len() ==> #[trigger] r@[i].episode == episodes->0@[i].episode_number
                && r@[i].runtime_minutes == episodes->0@[i].runtime && r@[i].still_path
                == episodes->0@[i].still_path,
        episodes is Some ==> forall|i: int|
            0 <= i < r@.len() ==> (episodes->0@[i].season_number is Some ==> #[trigger] r@[i].season
                == episodes->0@[i].season_number->0) && (episodes->0@[i].season_number is None
                ==> r@[i].season == season),
        episodes is Some ==> forall|i: int|
            0 <= i < r@.len() ==> told(#[trigger] r@[i].name, episodes->0@[i].name) && told(
                r@[i].overview,
                episodes->0@[i].overview,
            ) && told(r@[i].air_date, episodes->0@[i].air_date),
{
}

/// `a` is `b`, but for an empty text.
pub open spec fn told(a: Option<String>, b: Option<String>) -> bool {
    (a is Some <==> b is Some && b->0@.len() > 0) && (a is Some ==> a == b)
}

/// Both kinds are asked, the hinted one first, and movies without a hint.
pub proof fn hinted_kind_is_asked_first(hint: Option<TmdbKind>, r: (TmdbKind, TmdbKind))
    requires
        call_ensures(order_of_lookup, (hint,), r),
    ensures
        r.0 != r.1,
        hint is Some ==> r.0 == hint->0,
        hint is None ==> r.0 is Movie,
{
}

/// Queries that differ in white space around them alone are one search; a
/// blank query is none.
pub proof fn query_is_searched_trimmed(
    a: &str,
    b: &str,
    ta: String,
    tb: String,
    ra: Option<String>,
    rb: Option<String>,
)
    requires
        call_ensures(text::trim, (a,), ta),
        call_ensures(text::trim, (b,), tb),
        call_ensures(search_key, (a,), ra),
        call_ensures(search_key, (b,), rb),
    ensures
        ra is Some <==> ta@.len() > 0,
        ta@ == tb@ && ra is Some ==> rb is Some && ra->0@ == rb->0@,
{
}

/// The addresses that are asked, written out: movies and shows are asked
/// under their own words.
pub proof fn addresses_are_those_of_the_service(
    kind: TmdbKind,
    word: &str,
    id: u64,
    season: u32,
    n: String,
    m: String,
    key: &str,
    genres: String,
    entry: String,
    recommended: String,
    similar: String,
    listing_of: String,
)
    requires
        call_ensures(kind_marker, (kind,), word),
        call_ensures(text::decimal_u64, (id,), n),
        call_ensures(text::decimal_u64, (season as u64,), m),
        call_ensures(genre_list_url, (kind, key), genres),
        call_ensures(entry_url, (kind, id, key), entry),
        call_ensures(recommendations_url, (kind, id, key), recommended),
        call_ensures(similar_url, (kind, id, key), similar),
        call_ensures(season_url, (id, season, key), listing_of),
    ensures
        genres@ == "https://api.themoviedb.org/3/"@ + "genre/"@ + word@ + "/list?api_key="@ + key@
            + "&language=en-US"@,
        entry@ == "https://api.themoviedb.org/3/"@ + word@ + "/"@ + n@ + "?api_key="@ + key@,
        recommended@ == "https://api.themoviedb.org/3/"@ + word@ + "/"@ + n@
            + "/recommendations?api_key="@ + key@ + "&page=1"@,
        similar@ == "https://api.themoviedb.org/3/"@ + word@ + "/"@ + n@ + "/similar?api_key="@
            + key@ + "&page=1"@,
        listing_of@ == "https://api.themoviedb.org/3/"@ + "tv/"@ + n@ + "/season/"@ + m@
            + "?api_key="@ + key@,
{
}

/// The names of two lists differ where the lists are of different kinds or
/// numbers.
pub proof fn lists_have_their_own_names(
    list: &str,
    k1: TmdbKind,
    k2: TmdbKind,
    n1: u64,
    n2: u64,
    a: String,
    b: String,
)
    requires
        call_ensures(list_key, (list, k1, n1), a),
        call_ensures(list_key, (list, k2, n2), b),
    ensures
        a@ == b@ <==> k1 == k2 && n1 == n2,
        a@.take(list@.len() as int) == list@,
{
    reveal_strlit(":");
    reveal_strlit("tv");
    reveal_strlit("movie");
    let l = list@;
    let wa = kind_word(k1);
    let wb = kind_word(k2);
    assert(a@.take(l.len() as int) =~= l);
    text::decimal_denotes(n1 as nat);
    text::decimal_denotes(n2 as nat);
    let p = l.len() as int + 1;
    if a@ == b@ {
        assert(a@[p] == wa[0]);
        assert(b@[p] == wb[0]);
        assert("tv"@[0] == 't' && "movie"@[0] == 'm');
        assert(k1 == k2);
        let q = p + wa.len() as int + 1;
        assert(a@.skip(q) =~= text::decimal(n1 as nat));
        assert(b@.skip(q) =~= text::decimal(n2 as nat));
    }
}

/// What a search found is known from then on, and other searches are as they
/// were.
pub proof fn search_is_made_once(
    s: &mut TmdbClient,
    key: String,
    results: Vec<TmdbMultiResult>,
    found: Vec<TmdbSuggestion>,
    query: &str,
    k: Option<String>,
    before: Step<'_, Vec<TmdbSuggestion>>,
    after: Step<'_, Vec<TmdbSuggestion>>,
)
    requires
        call_ensures(suggestions_of, (results,), found),
        call_ensures(search_key, (query,), k),
        call_ensures(TmdbClient::multi_search, (old(s), query), before),
        call_ensures(TmdbClient::keep_search, (s, key, results), ()),
        call_ensures(TmdbClient::multi_search, (final(s), query), after),
    ensures
        k is None <==> before is Nothing,
        before is Fetch ==> before->Fetch_0@ == k->0@,
        k is Some && k->0@ == key@ ==> after is Known && after->Known_0@ == found@,
        k is None ==> after is Nothing,
        k is Some && k->0@ != key@ ==> after is Known == before is Known && (after is Known
            ==> after->Known_0 == before->Known_0),
{
}

/// Genres that were kept are known for a day, and asked for again after it,
/// at the address of their kind; those of the other kind are as they were.
pub proof fn genres_are_known_for_a_day(
    s: &mut TmdbClient,
    kind: TmdbKind,
    genres: Vec<Genre>,
    at: u64,
    now: u64,
    other: TmdbKind,
    same: Step<'_, Vec<Genre>>,
    others_before: Step<'_, Vec<Genre>>,
    others: Step<'_, Vec<Genre>>,
)
    requires
        call_ensures(TmdbClient::keep_genres, (s, kind, genres, at), ()),
        call_ensures(TmdbClient::genre_list, (final(s), kind, now), same),
        call_ensures(TmdbClient::genre_list, (old(s), other, now), others_before),
        call_ensures(TmdbClient::genre_list, (final(s), other, now), others),
        other != kind,
    ensures
        same is Known <==> now < at + 24 * 60 * 60 * 1000,
        same is Known ==> *same->Known_0 == genres,
        !(same is Nothing),
        others is Known == others_before is Known,
        others is Known ==> others->Known_0 == others_before->Known_0,
{
}

/// A list that was kept under the name of a title's recommendations is known
/// as that for six hours.
pub proof fn recommendations_are_known_for_six_hours(
    s: &mut TmdbClient,
    kind: TmdbKind,
    id: u64,
    list: &str,
    name: String,
    results: Vec<TmdbDiscoverResult>,
    at: u64,
    now: u64,
    r: Step<'_, Vec<MediaMetadata>>,
)
    requires
        list@ == "recommendations"@,
        call_ensures(list_key, (list, kind, id), name),
        call_ensures(TmdbClient::keep_list, (s, name, results, kind, at), ()),
        call_ensures(TmdbClient::recommendations, (final(s), kind, id, now), r),
    ensures
        r is Known <==> now < at + 6 * 60 * 60 * 1000,
        r is Known ==> r->Known_0@.len() == results@.len() && forall|i: int|
            0 <= i < results@.len() ==> (#[trigger] r->Known_0@[i]).tmdb_id == results@[i].id
                && r->Known_0@[i].kind == kind,
        !(r is Nothing),
{
    assert(name@ =~= recommendations_name(kind, id));
}

/// A list that was kept under the name of what is similar to a title is known
/// as that for six hours, and is not taken for its recommendations.
pub proof fn similar_titles_are_known_for_six_hours(
    s: &mut TmdbClient,
    kind: TmdbKind,
    id: u64,
    list: &str,
    name: String,
    results: Vec<TmdbDiscoverResult>,
    at: u64,
    now: u64,
    r: Step<'_, Vec<MediaMetadata>>,
    before: Step<'_, Vec<MediaMetadata>>,
    after: Step<'_, Vec<MediaMetadata>>,
)
    requires
        list@ == "similar"@,
        call_ensures(list_key, (list, kind, id), name),
        call_ensures(TmdbClient::keep_list, (s, name, results, kind, at), ()),
        call_ensures(TmdbClient::similar, (final(s), kind, id, now), r),
        call_ensures(TmdbClient::recommendations, (old(s), kind, id, now), before),
        call_ensures(TmdbClient::recommendations, (final(s), kind, id, now), after),
    ensures
        r is Known <==> now < at + 6 * 60 * 60 * 1000,
        r is Known ==> r->Known_0@.len() == results@.len() && forall|i: int|
            0 <= i < results@.len() ==> (#[trigger] r->Known_0@[i]).tmdb_id == results@[i].id
                && r->Known_0@[i].kind == kind,
        !(r is Nothing),
        after is Known == before is Known,
        after is Known ==> after->Known_0 == before->Known_0,
{
    reveal_strlit("similar");
    reveal_strlit("recommendations");
    assert(name@ =~= similar_name(kind, id));
    assert(name@[0] == 's');
    assert(recommendations_name(kind, id)[0] == 'r');
}

/// A season that was kept is known, whenever it is asked for; other seasons
/// are as they were.
pub proof fn season_is_asked_for_once(
    s: &mut TmdbClient,
    id: u64,
    season: u32,
    episodes: Option<Vec<TmdbEpisodeRaw>>,
    listed: Vec<EpisodeMetadata>,
    id2: u64,
    season2: u32,
    r: Step<'_, Vec<EpisodeMetadata>>,
    before: Step<'_, Vec<EpisodeMetadata>>,
    after: Step<'_, Vec<EpisodeMetadata>>,
)
    requires
        call_ensures(season_episodes, (episodes, season), listed),
        call_ensures(TmdbClient::keep_season, (s, id, season, episodes), ()),
        call_ensures(TmdbClient::tv_season_episodes, (final(s), id, season), r),
        call_ensures(TmdbClient::tv_season_episodes, (old(s), id2, season2), before),
        call_ensures(TmdbClient::tv_season_episodes, (final(s), id2, season2), after),
    ensures
        r is Known && r->Known_0@ == listed@,
        (id2, season2) != (id, season) ==> after is Known == before is Known && (after is Known
            ==> after->Known_0 == before->Known_0),
{
}

/// What the first kind answered is what is known of an entry, and what the
/// second did only where the first had nothing; that neither had anything is
/// known too. An entry that was not looked up is asked for in the order of its
/// hint.
pub proof fn entry_is_looked_up_once(
    s: &mut TmdbClient,
    id: u64,
    hint: Option<TmdbKind>,
    first: Option<MediaMetadata>,
    second: Option<MediaMetadata>,
    id2: u64,
    hint2: Option<TmdbKind>,
    order: (TmdbKind, TmdbKind),
    r: LookupStep<'_>,
    before: LookupStep<'_>,
    after: LookupStep<'_>,
)
    requires
        call_ensures(order_of_lookup, (hint2,), order),
        call_ensures(TmdbClient::keep_lookup, (s, id, hint, first, second), ()),
        call_ensures(TmdbClient::lookup_with_kind, (final(s), id, hint), r),
        call_ensures(TmdbClient::lookup_with_kind, (old(s), id2, hint2), before),
        call_ensures(TmdbClient::lookup_with_kind, (final(s), id2, hint2), after),
    ensures
        r is Known,
        first is Some ==> *r->Known_0 == CacheEntry::Found(first->0),
        first is None && second is Some ==> *r->Known_0 == CacheEntry::Found(second->0),
        first is None && second is None ==> *r->Known_0 is NotFound,
        before is Ask ==> before->Ask_0 == order.0 && before->Ask_1 == order.1,
        (id2, hint2) != (id, hint) ==> after is Known == before is Known && (after is Known
            ==> after->Known_0 == before->Known_0),
{
}

/// An entry of unknown kind is looked up like one without a hint, and a new
/// client knows nothing.
pub proof fn new_client_knows_nothing(
    key: String,
    k: &str,
    c: TmdbClient,
    id: u64,
    a: LookupStep<'_>,
    b: LookupStep<'_>,
    kind: TmdbKind,
    now: u64,
    genres: Step<'_, Vec<Genre>>,
    url: String,
    asked: String,
    address: String,
)
    requires
        k@ == key@,
        call_ensures(TmdbClient::new, (key,), c),
        call_ensures(TmdbClient::lookup, (&c, id), a),
        call_ensures(TmdbClient::lookup_with_kind, (&c, id, None::<TmdbKind>), b),
        call_ensures(TmdbClient::genre_list, (&c, kind, now), genres),
        call_ensures(genre_list_url, (kind, k), url),
        call_ensures(TmdbClient::fetch_url, (&c, id, kind), asked),
        call_ensures(entry_url, (kind, id, k), address),
    ensures
        a == b,
        a is Ask && a->Ask_0 is Movie && a->Ask_1 is Tv,
        genres is Fetch && genres->Fetch_0@ == url@,
        asked@ == address@,
{
}

} // verus!
