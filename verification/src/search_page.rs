//! The search page.

use vstd::prelude::*;
use vstd::string::StringExecFns;

use crate::api_error;
use crate::api_error::{ApiError, Failure};
use crate::ids;
use crate::search::{
    DescriptionFormat, MediaKind, SearchQuery, SearchResult, SortField, SortOrder, TorrentDetails,
};
use crate::text;

verus! {

#[derive(Debug, Clone)]
pub struct SearchParams {
    pub q: String,
    pub page: Option<u32>,
    pub limit: Option<u32>,
    pub sort_by: Option<SortField>,
    pub order: Option<SortOrder>,
    pub kind: Option<MediaKind>,
}

#[derive(Debug, Clone)]
pub struct DetailsParams {
    pub provider: String,
    pub id: String,
}

/// What a query tells, read like the name of a release.
#[derive(Debug)]
pub struct ParsedSearch {
    /// The title in lower case and without punctuation.
    pub title_key: String,
    pub season: Option<u32>,
    pub episode: Option<u32>,
    pub year: Option<u16>,
}

/// The query that providers are asked.
pub fn search(params: SearchParams, parsed: Option<ParsedSearch>) -> (r: SearchQuery)
    ensures
        r == (SearchQuery {
            q: params.q,
            page: params.page,
            limit: params.limit,
            sort_by: params.sort_by,
            order: params.order,
            kind: params.kind,
            parsed_title: match parsed {
                Some(p) => Some(p.title_key),
                None => None,
            },
            season: match parsed {
                Some(p) => p.season,
                None => None,
            },
            episode: match parsed {
                Some(p) => p.episode,
                None => None,
            },
            year: match parsed {
                Some(p) => p.year,
                None => None,
            },
        }),
{
    let (parsed_title, season, episode, year) = match parsed {
        Some(p) => (Some(p.title_key), p.season, p.episode, p.year),
        None => (None, None, None, None),
    };
    SearchQuery {
        q: params.q,
        page: params.page,
        limit: params.limit,
        sort_by: params.sort_by,
        order: params.order,
        kind: params.kind,
        parsed_title,
        season,
        episode,
        year,
    }
}

// ---------------------------------------------------------------------------
// Labels
// ---------------------------------------------------------------------------

/// The warning on a release of doubtful origin.
pub open spec fn dubious_text(label: Seq<char>) -> Seq<char> {
    "⚠️ Dubious: "@ + label
}

/// The warning on a release of doubtful origin.
pub fn dubious_tag(label: &str) -> (r: String)
    ensures
        r@ == dubious_text(label@),
{
    api_error::prefixed("⚠️ Dubious: ", label)
}

pub open spec fn tags_with(tags: Seq<String>, dubious: Option<Seq<char>>) -> Seq<Seq<char>> {
    match dubious {
        Some(l) => seq![dubious_text(l)] + text::views(tags),
        None => text::views(tags),
    }
}

fn warn_first(tags: &mut Vec<String>, dubious: Option<&str>)
    ensures
        text::views(final(tags)@) == tags_with(old(tags)@, text::opt_str_view(dubious)),
{
    match dubious {
        Some(l) => {
            let tag = dubious_tag(l);
            tags.insert(0, tag);
            assert(text::views(tags@) =~= seq![dubious_text(l@)] + text::views(old(tags)@));
        },
        None => {},
    }
}

/// A result with its language, and a warning ahead of its other tags where its
/// origin is doubtful. All else stays as it was.
pub fn label_result(result: SearchResult, language: &str, dubious: Option<&str>) -> (r:
    SearchResult)
    ensures
        text::opt_view(r.language) == Some(language@),
        text::views(r.tags@) == tags_with(result.tags@, text::opt_str_view(dubious)),
        r == (SearchResult { language: r.language, tags: r.tags, ..result }),
{
    let mut r = result;
    r.language = Some(language.to_string());
    warn_first(&mut r.tags, dubious);
    r
}

// ---------------------------------------------------------------------------
// What the library has
// ---------------------------------------------------------------------------

/// A collection of the library that matches a query.
#[derive(Debug)]
pub struct LibraryMatch {
    pub collection_id: String,
    pub display_title: String,
    /// `movie` or `tv`.
    pub kind: String,
    pub tmdb_id: Option<i64>,
    pub is_anime: bool,
    pub torrent_count: i64,
    pub episode_count: i64,
    pub representative_infohash: Option<String>,
    /// The episode that the query names, and the file that holds it.
    pub episode_season: Option<i64>,
    pub episode_number: Option<i64>,
    pub episode_infohash: Option<String>,
    pub episode_file_idx: Option<i64>,
    /// Episodes of the season that the query names.
    pub season_episode_count: Option<i64>,
}

/// A collection whose title matches.
#[derive(Debug)]
pub struct CollectionSummary {
    pub id: u128,
    pub display_title: String,
    pub kind: String,
    pub tmdb_id: Option<i64>,
    pub is_anime: bool,
    pub torrent_count: i64,
    pub episode_count: i64,
    pub representative_infohash: Option<String>,
}

/// An episode that the library has.
#[derive(Debug)]
pub struct OwnedEpisode {
    pub season: i64,
    pub episode: i64,
    pub infohash: String,
    pub file_idx: i64,
}

/// What has to be asked of a collection before it matches.
#[derive(Debug, Clone, Copy, PartialEq, Eq, Structural)]
pub enum MatchNeed {
    /// It does not match.
    Skip,
    /// It matches.
    Plain,
    /// It matches if it has this episode.
    Episode(Option<u32>, u32),
    /// It matches if it has an episode of this season.
    Season(u32),
}

/// The word for a kind.
pub open spec fn kind_word(k: MediaKind) -> Seq<char> {
    match k {
        MediaKind::Movie => "movie"@,
        MediaKind::Tv => "tv"@,
    }
}

/// What has to be asked of a collection: shows match a query for an episode or
/// season only where they have it, and movies never do.
pub open spec fn need(
    kind: Seq<char>,
    wanted: Option<MediaKind>,
    season: Option<u32>,
    episode: Option<u32>,
) -> MatchNeed {
    if wanted is Some && kind != kind_word(wanted->0) {
        MatchNeed::Skip
    } else if kind == "tv"@ {
        match (season, episode) {
            (s, Some(e)) => MatchNeed::Episode(s, e),
            (Some(s), None) => MatchNeed::Season(s),
            (None, None) => MatchNeed::Plain,
        }
    } else if season is Some || episode is Some {
        MatchNeed::Skip
    } else {
        MatchNeed::Plain
    }
}

/// What has to be asked of a collection.
pub fn match_need(
    kind: &str,
    wanted: Option<MediaKind>,
    season: Option<u32>,
    episode: Option<u32>,
) -> (r: MatchNeed)
    ensures
        r == need(kind@, wanted, season, episode),
{
    match wanted {
        Some(MediaKind::Movie) => {
            if !text::same_text(kind, "movie") {
                return MatchNeed::Skip;
            }
        },
        Some(MediaKind::Tv) => {
            if !text::same_text(kind, "tv") {
                return MatchNeed::Skip;
            }
        },
        None => {},
    }
    if text::same_text(kind, "tv") {
        match (season, episode) {
            (s, Some(e)) => MatchNeed::Episode(s, e),
            (Some(s), None) => MatchNeed::Season(s),
            (None, None) => MatchNeed::Plain,
        }
    } else {
        match (season, episode) {
            (None, None) => MatchNeed::Plain,
            _ => MatchNeed::Skip,
        }
    }
}

/// A collection together with what was asked of it.
#[derive(Debug)]
pub struct MatchCandidate {
    pub collection: CollectionSummary,
    /// The episode that the query names, where the collection has it.
    pub episode: Option<OwnedEpisode>,
    /// How many episodes of the season it has.
    pub season_count: i64,
}

/// `m` is what a client sees of a collection.
pub open spec fn shows_collection(m: LibraryMatch, c: CollectionSummary) -> bool {
    &&& m.collection_id@ == ids::uuid_text(c.id)
    &&& m.display_title == c.display_title
    &&& m.kind == c.kind
    &&& m.tmdb_id == c.tmdb_id
    &&& m.is_anime == c.is_anime
    &&& m.torrent_count == c.torrent_count
    &&& m.episode_count == c.episode_count
    &&& m.representative_infohash == c.representative_infohash
}

/// `m` shows the episode of a candidate.
pub open spec fn shows_episode(m: LibraryMatch, e: Option<OwnedEpisode>) -> bool {
    match e {
        Some(e) => {
            &&& m.episode_season == Some(e.season)
            &&& m.episode_number == Some(e.episode)
            &&& m.episode_infohash == Some(e.infohash)
            &&& m.episode_file_idx == Some(e.file_idx)
        },
        None => {
            &&& m.episode_season is None
            &&& m.episode_number is None
            &&& m.episode_infohash is None
            &&& m.episode_file_idx is None
        },
    }
}

/// Whether a candidate matches.
pub open spec fn matches_query(c: MatchCandidate, q: SearchQuery) -> bool {
    match need(c.collection.kind@, q.kind, q.season, q.episode) {
        MatchNeed::Skip => false,
        MatchNeed::Plain => true,
        MatchNeed::Episode(_, _) => c.episode is Some,
        MatchNeed::Season(_) => c.season_count != 0,
    }
}

/// `m` is what a client sees of a candidate that matches.
pub open spec fn is_match(m: LibraryMatch, c: MatchCandidate, q: SearchQuery) -> bool {
    &&& shows_collection(m, c.collection)
    &&& match need(c.collection.kind@, q.kind, q.season, q.episode) {
        MatchNeed::Episode(_, _) => shows_episode(m, c.episode) && m.season_episode_count is None,
        MatchNeed::Season(s) => {
            &&& m.episode_season == Some(s as i64)
            &&& m.episode_number is None && m.episode_infohash is None && m.episode_file_idx is None
            &&& m.season_episode_count == Some(c.season_count)
        },
        _ => shows_episode(m, None) && m.season_episode_count is None,
    }
}

/// What a client sees of a candidate, if it matches.
pub fn library_match(c: MatchCandidate, q: &SearchQuery) -> (r: Option<LibraryMatch>)
    ensures
        match r {
            Some(m) => matches_query(c, *q) && is_match(m, c, *q),
            None => !matches_query(c, *q),
        },
{
    let wanted = match_need(c.collection.kind.as_str(), q.kind, q.season, q.episode);
    let id = ids::write_uuid(c.collection.id);
    let col = c.collection;
    let mut m = LibraryMatch {
        collection_id: id,
        display_title: col.display_title,
        kind: col.kind,
        tmdb_id: col.tmdb_id,
        is_anime: col.is_anime,
        torrent_count: col.torrent_count,
        episode_count: col.episode_count,
        representative_infohash: col.representative_infohash,
        episode_season: None,
        episode_number: None,
        episode_infohash: None,
        episode_file_idx: None,
        season_episode_count: None,
    };
    match wanted {
        MatchNeed::Skip => {
            return None;
        },
        MatchNeed::Plain => {},
        MatchNeed::Episode(_, _) => match c.episode {
            Some(e) => {
                m.episode_season = Some(e.season);
                m.episode_number = Some(e.episode);
                m.episode_infohash = Some(e.infohash);
                m.episode_file_idx = Some(e.file_idx);
            },
            None => {
                return None;
            },
        },
        MatchNeed::Season(s) => {
            if c.season_count == 0 {
                return None;
            }
            m.episode_season = Some(s as i64);
            m.season_episode_count = Some(c.season_count);
        },
    }
    Some(m)
}

/// Most collections that are shown.
pub const MAX_LIBRARY_MATCHES: usize = 5;

/// The first candidates that match, five at most.
pub open spec fn matching(c: Seq<MatchCandidate>, q: SearchQuery) -> Seq<MatchCandidate>
    decreases c.len(),
{
    if c.len() == 0 {
        seq![]
    } else {
        let before = matching(c.drop_last(), q);
        if before.len() < MAX_LIBRARY_MATCHES && matches_query(c.last(), q) {
            before.push(c.last())
        } else {
            before
        }
    }
}

/// The key by which the library is searched for a query: the title that it
/// tells, if it has at least two bytes.
pub fn library_key(q: &SearchQuery) -> (r: Option<String>)
    ensures
        r == match q.parsed_title {
            Some(t) => if text::byte_len(t@) >= 2 {
                Some(t)
            } else {
                None
            },
            None => None,
        },
{
    match &q.parsed_title {
        Some(t) => {
            if text::byte_length(t.as_str()) >= 2 {
                Some(t.clone())
            } else {
                None
            }
        },
        None => None,
    }
}

/// What the library has for a query.
pub fn library_matches_for(candidates: Vec<MatchCandidate>, q: &SearchQuery) -> (r: Vec<
    LibraryMatch,
>)
    ensures
        r@.len() == matching(candidates@, *q).len(),
        forall|i: int|
            0 <= i < r@.len() ==> is_match(#[trigger] r@[i], matching(candidates@, *q)[i], *q),
{
    let ghost all = candidates@;
    let mut out: Vec<LibraryMatch> = Vec::new();
    for c in it: candidates
        invariant
            it.seq() == all,
            out@.len() == matching(all.take(it.index()), *q).len(),
            forall|i: int|
                0 <= i < out@.len() ==> is_match(
                    #[trigger] out@[i],
                    matching(all.take(it.index()), *q)[i],
                    *q,
                ),
    {
        proof {
            assert(all.take(it.index() + 1).drop_last() =~= all.take(it.index()));
            assert(all.take(it.index() + 1).last() == c);
        }
        if out.len() < MAX_LIBRARY_MATCHES {
            match library_match(c, q) {
                Some(m) => {
                    out.push(m);
                },
                None => {},
            }
        }
    }
    assert(all.take(all.len() as int) =~= all);
    out
}

/// A query for an episode or a season never brings up a movie, and never a
/// show that lacks it.
pub proof fn episode_queries_bring_up_owners_only(
    c: Seq<MatchCandidate>,
    q: SearchQuery,
    i: int,
)
    requires
        0 <= i < matching(c, q).len(),
        q.season is Some || q.episode is Some,
    ensures
        matching(c, q)[i].collection.kind@ == "tv"@,
        q.episode is Some ==> matching(c, q)[i].episode is Some,
        q.episode is None ==> matching(c, q)[i].season_count != 0,
        q.kind != Some(MediaKind::Movie),
    decreases c.len(),
{
    let before = matching(c.drop_last(), q);
    if i < before.len() {
        episode_queries_bring_up_owners_only(c.drop_last(), q, i);
    } else {
        reveal_strlit("tv");
        reveal_strlit("movie");
        assert("tv"@.len() != "movie"@.len());
        assert(matches_query(c.last(), q));
    }
}

/// A query that names a kind brings up collections of that kind only, and no
/// query more than five.
pub proof fn matches_are_few_and_of_the_kind(c: Seq<MatchCandidate>, q: SearchQuery, i: int)
    requires
        0 <= i < matching(c, q).len(),
    ensures
        matching(c, q).len() <= MAX_LIBRARY_MATCHES,
        q.kind is Some ==> matching(c, q)[i].collection.kind@ == kind_word(q.kind->0),
    decreases c.len(),
{
    let before = matching(c.drop_last(), q);
    if before.len() > 0 {
        matches_are_few_and_of_the_kind(
            c.drop_last(),
            q,
            if i < before.len() {
                i
            } else {
                0
            },
        );
    }
}

// ---------------------------------------------------------------------------
// Details
// ---------------------------------------------------------------------------

/// What to warn of on the page of a torrent.
#[derive(Debug)]
pub struct Dubious {
    pub label: String,
    pub explanation: String,
}

/// The warning itself, in the markup of the description.
pub open spec fn warning_text(format: DescriptionFormat, explanation: Seq<char>) -> Seq<char> {
    match format {
        DescriptionFormat::Html => "<p><strong>⚠️ Dubious quality</strong> — "@ + explanation
            + ".</p>"@,
        _ => "⚠️ Dubious quality — "@ + explanation + "."@,
    }
}

/// A description with the warning ahead of it; a blank description gives way.
pub open spec fn warned_text(
    desc: Option<Seq<char>>,
    format: DescriptionFormat,
    explanation: Seq<char>,
) -> Seq<char> {
    let w = warning_text(format, explanation);
    match desc {
        Some(body) => if text::trimmed(body).len() > 0 {
            match format {
                DescriptionFormat::Html => w + body,
                _ => w + "\n\n"@ + body,
            }
        } else {
            w
        },
        None => w,
    }
}

/// A description with a warning ahead of it, in the markup of the description.
pub fn prepend_dubious_warning(desc: Option<&str>, format: DescriptionFormat, explanation: &str) -> (r:
    String)
    ensures
        r@ == warned_text(text::opt_str_view(desc), format, explanation@),
{
    let mut s = match format {
        DescriptionFormat::Html => api_error::glued(
            "<p><strong>⚠️ Dubious quality</strong> — ",
            explanation,
            ".</p>",
        ),
        _ => api_error::glued("⚠️ Dubious quality — ", explanation, "."),
    };
    match desc {
        Some(body) => {
            let t = text::trim(body);
            if !text::is_blank(t.as_str()) {
                match format {
                    DescriptionFormat::Html => {},
                    _ => {
                        s.append("\n\n");
                    },
                }
                s.append(body);
            }
        },
        None => {},
    }
    s
}

/// What a provider answered for the page of a torrent.
pub enum DetailsAnswer {
    Page(TorrentDetails),
    /// The provider has no such pages.
    NoPage,
    Failed(String),
}

/// The page of a torrent, with a warning where its origin is doubtful.
pub fn details(answer: DetailsAnswer, dubious: Option<Dubious>) -> (r: Result<
    TorrentDetails,
    ApiError,
>)
    ensures
        match answer {
            DetailsAnswer::NoPage => r matches Err(e) && e@ == Failure::NotFound,
            DetailsAnswer::Failed(m) => r matches Err(e) && e@ == Failure::Internal(
                "details: "@ + m@,
            ),
            DetailsAnswer::Page(d) => r is Ok && match dubious {
                None => r->Ok_0 == d,
                Some(w) => {
                    let o = r->Ok_0;
                    &&& text::views(o.tags@) == tags_with(d.tags@, Some(w.label@))
                    &&& text::opt_view(o.description) == Some(
                        warned_text(
                            text::opt_view(d.description),
                            d.description_format,
                            w.explanation@,
                        ),
                    )
                    &&& o == (TorrentDetails { tags: o.tags, description: o.description, ..d })
                },
            },
        },
{
    match answer {
        DetailsAnswer::NoPage => Err(ApiError::NotFound),
        DetailsAnswer::Failed(m) => Err(
            ApiError::Internal(api_error::prefixed("details: ", m.as_str())),
        ),
        DetailsAnswer::Page(d) => {
            let mut o = d;
            match dubious {
                None => {},
                Some(w) => {
                    warn_first(&mut o.tags, Some(w.label.as_str()));
                    let s = prepend_dubious_warning(
                        text::opt_str(&o.description),
                        o.description_format,
                        w.explanation.as_str(),
                    );
                    o.description = Some(s);
                },
            }
            Ok(o)
        },
    }
}

// ---------------------------------------------------------------------------
// Laws
// ---------------------------------------------------------------------------

/// Providers are asked what was typed, with what reading it like the name of a
/// release tells beside it.
pub proof fn query_is_what_was_typed(
    params: SearchParams,
    parsed: Option<ParsedSearch>,
    r: SearchQuery,
)
    requires
        call_ensures(search, (params, parsed), r),
    ensures
        r.q == params.q && r.page == params.page && r.limit == params.limit && r.sort_by
            == params.sort_by && r.order == params.order && r.kind == params.kind,
        parsed matches Some(p) ==> r.parsed_title == Some(p.title_key) && r.season == p.season
            && r.episode == p.episode && r.year == p.year,
        parsed is None ==> r.parsed_title is None && r.season is None && r.episode is None
            && r.year is None,
{
}

/// A result gets its language and keeps its tags; a warning of a doubtful origin
/// goes ahead of these, and nothing else changes.
pub proof fn warning_goes_ahead_of_the_tags(
    result: SearchResult,
    language: &str,
    dubious: Option<&str>,
    warning: String,
    r: SearchResult,
)
    requires
        dubious is Some ==> call_ensures(dubious_tag, (dubious->0,), warning),
        call_ensures(label_result, (result, language, dubious), r),
    ensures
        r.language is Some && r.language->0@ == language@,
        dubious is None ==> text::views(r.tags@) == text::views(result.tags@),
        dubious is Some ==> r.tags@.len() == result.tags@.len() + 1 && r.tags@[0]@ == warning@
            && text::has_text(warning@, dubious->0@),
        forall|i: int|
            0 <= i < result.tags@.len() && dubious is Some ==> r.tags@[i + 1]@ == (
            #[trigger] result.tags@[i])@,
        r.title == result.title && r.provider_id == result.provider_id && r.external_id
            == result.external_id && r.seeders == result.seeders && r.size_bytes
            == result.size_bytes && r.infohash == result.infohash && r.kind == result.kind
            && r.already_in_library == result.already_in_library,
{
    if dubious is Some {
        let l = dubious->0@;
        let h = "⚠️ Dubious: "@;
        let n = h.len() as int;
        let a = text::views(r.tags@);
        let b = seq![dubious_text(l)] + text::views(result.tags@);
        assert(warning@.subrange(n, n + l.len()) =~= l);
        assert(a == b);
        assert(a.len() == r.tags@.len());
        assert(a[0] == r.tags@[0]@);
        assert forall|i: int| 0 <= i < result.tags@.len() implies r.tags@[i + 1]@ == (
        #[trigger] result.tags@[i])@ by {
            assert(a[i + 1] == r.tags@[i + 1]@);
            assert(b[i + 1] == text::views(result.tags@)[i]);
        }
    }
}

/// A collection of another kind than is wanted is never asked. A show is asked
/// for the episode that the query names, else for the season, else for nothing;
/// a movie matches only a query that names neither.
pub proof fn shows_are_asked_for_what_is_named(
    kind: &str,
    wanted: Option<MediaKind>,
    season: Option<u32>,
    episode: Option<u32>,
    r: MatchNeed,
)
    requires
        call_ensures(match_need, (kind, wanted, season, episode), r),
    ensures
        wanted is Some && wanted->0 is Movie && kind@ != "movie"@ ==> r is Skip,
        wanted is Some && wanted->0 is Tv && kind@ != "tv"@ ==> r is Skip,
        (wanted is None || wanted->0 is Tv) && kind@ == "tv"@ && episode is Some ==> r
            == MatchNeed::Episode(season, episode->0),
        (wanted is None || wanted->0 is Tv) && kind@ == "tv"@ && episode is None && season is Some
            ==> r == MatchNeed::Season(season->0),
        (wanted is None || wanted->0 is Tv) && kind@ == "tv"@ && episode is None && season is None
            ==> r is Plain,
        kind@ != "tv"@ && (season is Some || episode is Some) ==> r is Skip,
        (wanted is None || (wanted->0 is Movie && kind@ == "movie"@)) && kind@ != "tv"@ && season
            is None && episode is None ==> r is Plain,
{
    reveal_strlit("movie");
    reveal_strlit("tv");
    assert("movie"@.len() == 5 && "tv"@.len() == 2);
}

/// A collection comes up exactly where what was asked of it is there; it is
/// shown as it is, with the episode that the query names or with how much of the
/// season there is.
pub proof fn what_was_asked_has_to_be_there(
    c: MatchCandidate,
    q: &SearchQuery,
    kind: &str,
    need: MatchNeed,
    r: Option<LibraryMatch>,
)
    requires
        kind@ == c.collection.kind@,
        call_ensures(match_need, (kind, q.kind, q.season, q.episode), need),
        call_ensures(library_match, (c, q), r),
    ensures
        r is Some == match need {
            MatchNeed::Skip => false,
            MatchNeed::Plain => true,
            MatchNeed::Episode(_, _) => c.episode is Some,
            MatchNeed::Season(_) => c.season_count != 0,
        },
        r matches Some(m) ==> {
            &&& m.collection_id@ == ids::uuid_text(c.collection.id)
            &&& m.display_title == c.collection.display_title && m.kind == c.collection.kind
                && m.tmdb_id == c.collection.tmdb_id && m.is_anime == c.collection.is_anime
            &&& m.torrent_count == c.collection.torrent_count && m.episode_count
                == c.collection.episode_count && m.representative_infohash
                == c.collection.representative_infohash
            &&& need is Episode ==> m.episode_season == Some(c.episode->0.season)
                && m.episode_number == Some(c.episode->0.episode) && m.episode_infohash == Some(
                c.episode->0.infohash,
            ) && m.episode_file_idx == Some(c.episode->0.file_idx) && m.season_episode_count
                is None
            &&& need matches MatchNeed::Season(s) ==> m.episode_season is Some
                && m.episode_season->0 == s && m.episode_infohash is None && m.episode_number
                is None && m.episode_file_idx is None
                && m.season_episode_count == Some(c.season_count)
            &&& need is Plain ==> m.episode_season is None && m.episode_infohash is None
                && m.episode_number is None && m.episode_file_idx is None
                && m.season_episode_count is None
        },
{
}

/// Candidates that come up for a query.
pub open spec fn comes_up(q: SearchQuery) -> spec_fn(MatchCandidate) -> bool {
    |c: MatchCandidate|
        {
            &&& q.kind is Some && q.kind->0 is Movie ==> c.collection.kind@ == "movie"@
            &&& q.kind is Some && q.kind->0 is Tv ==> c.collection.kind@ == "tv"@
            &&& q.episode is Some ==> c.collection.kind@ == "tv"@ && c.episode is Some
            &&& q.episode is None && q.season is Some ==> c.collection.kind@ == "tv"@
                && c.season_count != 0
        }
}

proof fn lemma_matching(c: Seq<MatchCandidate>, q: SearchQuery)
    ensures
        ({
            let all = c.filter(comes_up(q));
            matching(c, q) == all.take(
                if all.len() < 5 {
                    all.len() as int
                } else {
                    5
                },
            )
        }),
    decreases c.len(),
{
    reveal(Seq::filter);
    reveal_strlit("movie");
    reveal_strlit("tv");
    assert("movie"@.len() == 5 && "tv"@.len() == 2);
    if c.len() > 0 {
        lemma_matching(c.drop_last(), q);
        assert(matches_query(c.last(), q) == comes_up(q)(c.last()));
    }
    let all = c.filter(comes_up(q));
    assert(matching(c, q) =~= all.take(
        if all.len() < 5 {
            all.len() as int
        } else {
            5
        },
    ));
}

/// A query brings up the first five of the collections that come up for it, all
/// of them where there are fewer, in order.
pub proof fn first_five_come_up(
    candidates: Vec<MatchCandidate>,
    q: &SearchQuery,
    r: Vec<LibraryMatch>,
    i: int,
    one: Option<LibraryMatch>,
)
    requires
        call_ensures(library_matches_for, (candidates, q), r),
        0 <= i < r@.len(),
        call_ensures(library_match, (candidates@.filter(comes_up(*q))[i], q), one),
    ensures
        ({
            let all = candidates@.filter(comes_up(*q));
            &&& r@.len() == if all.len() < 5 {
                all.len() as int
            } else {
                5
            }
            &&& r@[i].collection_id@ == ids::uuid_text(all[i].collection.id)
            &&& one is Some
            &&& r@[i].episode_infohash == one->0.episode_infohash && r@[i].episode_season
                == one->0.episode_season && r@[i].season_episode_count
                == one->0.season_episode_count && r@[i].display_title == one->0.display_title
        }),
{
    reveal_strlit("movie");
    reveal_strlit("tv");
    assert("movie"@.len() == 5 && "tv"@.len() == 2);
    lemma_matching(candidates@, *q);
    let all = candidates@.filter(comes_up(*q));
    broadcast use vstd::seq_lib::group_filter_ensures;

    assert(comes_up(*q)(all[i]));
    assert(matching(candidates@, *q)[i] == all[i]);
    assert(is_match(r@[i], all[i], *q));
}

/// Nothing comes up where no collection does.
pub proof fn nothing_comes_up_for_nothing(
    candidates: Vec<MatchCandidate>,
    q: &SearchQuery,
    r: Vec<LibraryMatch>,
)
    requires
        call_ensures(library_matches_for, (candidates, q), r),
    ensures
        r@.len() == 0 <==> candidates@.filter(comes_up(*q)).len() == 0,
{
    lemma_matching(candidates@, *q);
}

/// The library is searched by the title that a query tells, from two bytes on.
pub proof fn short_titles_are_not_searched(q: &SearchQuery, r: Option<String>)
    requires
        call_ensures(library_key, (q,), r),
    ensures
        r is Some == (q.parsed_title is Some && text::byte_len(q.parsed_title->0@) > 1),
        r is Some ==> r == q.parsed_title,
{
}

/// A warning goes ahead of a description, which stays as it was; a blank
/// description gives way to it.
pub proof fn description_stays_behind_the_warning(
    desc: Option<&str>,
    format: DescriptionFormat,
    explanation: &str,
    bare: String,
    alone: String,
    r: String,
)
    requires
        desc is Some ==> call_ensures(text::trim, (desc->0,), bare),
        call_ensures(prepend_dubious_warning, (None::<&str>, format, explanation), alone),
        call_ensures(prepend_dubious_warning, (desc, format, explanation), r),
    ensures
        text::has_text(alone@, explanation@),
        desc is None || bare@.len() == 0 ==> r@ == alone@,
        desc is Some && bare@.len() > 0 && format is Html ==> r@ == alone@ + desc->0@,
        desc is Some && bare@.len() > 0 && !(format is Html) ==> r@ == alone@ + "\n\n"@ + desc->0@,
{
    let h = if format is Html {
        "<p><strong>⚠️ Dubious quality</strong> — "@
    } else {
        "⚠️ Dubious quality — "@
    };
    let n = h.len() as int;
    assert(alone@.subrange(n, n + explanation@.len()) =~= explanation@);
}

/// A page that a provider gave is shown as it is, but for the warning of a
/// doubtful origin ahead of its tags and description; a provider without pages
/// has none, and one that fails is an internal error.
pub proof fn page_is_shown_as_given(
    d: TorrentDetails,
    w: Dubious,
    m: String,
    plain: Result<TorrentDetails, ApiError>,
    warned: Result<TorrentDetails, ApiError>,
    none: Result<TorrentDetails, ApiError>,
    failed: Result<TorrentDetails, ApiError>,
)
    requires
        call_ensures(details, (DetailsAnswer::Page(d), None::<Dubious>), plain),
        call_ensures(details, (DetailsAnswer::Page(d), Some(w)), warned),
        call_ensures(details, (DetailsAnswer::NoPage, Some(w)), none),
        call_ensures(details, (DetailsAnswer::Failed(m), Some(w)), failed),
    ensures
        plain == Ok::<TorrentDetails, ApiError>(d),
        warned matches Ok(o) && o.tags@.len() == d.tags@.len() + 1 && text::has_text(
            o.tags@[0]@,
            w.label@,
        ) && o.description is Some && o.title == d.title && o.seeders == d.seeders && o.external_id
            == d.external_id && o.nfo == d.nfo,
        none matches Err(e) && e@ is NotFound,
        failed matches Err(e) && e@ is Internal && text::has_text(e@->Internal_0, m@),
{
    let o = warned->Ok_0;
    let a = text::views(o.tags@);
    let b = seq![dubious_text(w.label@)] + text::views(d.tags@);
    assert(a == b);
    assert(a.len() == o.tags@.len());
    assert(a[0] == o.tags@[0]@);
    let h = "⚠️ Dubious: "@;
    let n = h.len() as int;
    assert(o.tags@[0]@.subrange(n, n + w.label@.len()) =~= w.label@);
    let k = "details: "@.len() as int;
    assert(failed->Err_0@->Internal_0.subrange(k, k + m@.len()) =~= m@);
}

} // verus!
