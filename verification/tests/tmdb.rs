use iris::metadata::{featured, kind_of, kind_param, tmdb_lookup, tmdb_resolve};
use iris::tmdb::{
    describe, kind_hint, kind_marker, search_key, season_episodes, suggestions_of, year_in,
    CacheEntry, Genre, LookupStep, MediaMetadata, Step, TmdbClient, TmdbDiscoverResult,
    TmdbEpisodeRaw, TmdbKind, TmdbMultiResult, TmdbRaw, TmdbSuggestion,
};
use iris::tmdb_backfill::{
    judge_hits, process_one_collection, run_collections, written_outcome, BackfillStep,
    CollectionOutcome, ParsedName,
};
use iris::tmdb_resolve::{
    cache_key, first_search, pick_best, resolve_cleaned, resolve_release_name, search_candidates,
    CandidateSearch, CandidateStep, ResolveEntry, ResolvedTitle,
};
use iris::watched_backfill::{catalog_item, lookup_target, AnimeMatch};

fn hit(kind: TmdbKind, id: u64, year: Option<u32>) -> TmdbSuggestion {
    TmdbSuggestion {
        kind,
        tmdb_id: id,
        title: format!("t{id}"),
        year,
        overview: None,
        poster_path: None,
    }
}

fn multi(media_type: &str, title: Option<&str>, date: Option<&str>) -> TmdbMultiResult {
    TmdbMultiResult {
        id: 1,
        media_type: Some(media_type.to_string()),
        title: title.map(str::to_string),
        name: None,
        release_date: date.map(str::to_string),
        first_air_date: None,
        overview: Some(String::new()),
        poster_path: None,
    }
}

#[test]
fn kinds_have_words() {
    assert_eq!(kind_marker(TmdbKind::Movie), "movie");
    assert_eq!(kind_hint("tv"), Some(TmdbKind::Tv));
    assert_eq!(kind_hint("TV"), None);
    assert_eq!(kind_of(Some("tv")), TmdbKind::Tv);
    assert_eq!(kind_of(None), TmdbKind::Movie);
    assert_eq!(kind_param(Some("person")), None);
}

#[test]
fn years_are_read_from_dates() {
    let year = |s: &str| year_in(&Some(s.to_string()));
    assert_eq!(year("2014-05-06"), Some(2014));
    assert_eq!(year("2014"), Some(2014));
    assert_eq!(year(""), None);
    assert_eq!(year("-2014"), None);
    assert_eq!(year("4294967296-01-01"), None);
    assert_eq!(year_in(&None), None);
}

#[test]
fn people_and_untitled_results_are_left_out() {
    let found = suggestions_of(vec![
        multi("person", Some("x"), None),
        multi("movie", None, None),
        multi("movie", Some("Pride"), Some("2014-01-01")),
    ]);
    assert_eq!(found.len(), 1);
    assert_eq!((found[0].title.as_str(), found[0].year), ("Pride", Some(2014)));
    assert_eq!(found[0].overview, None);
    let many = (0..30).map(|_| multi("tv", Some("x"), None)).collect();
    assert_eq!(suggestions_of(many).len(), 10);
}

#[test]
fn searches_are_kept_by_their_lower_case_form() {
    let mut c = TmdbClient::new("k".to_string());
    assert!(matches!(c.multi_search("  "), Step::Nothing));
    let key = match c.multi_search(" PRIDE É ") {
        Step::Fetch(k) => k,
        _ => panic!("nothing is known yet"),
    };
    assert_eq!(key, "pride é");
    c.keep_search(key, vec![multi("movie", Some("Pride"), None)]);
    match c.multi_search("pride É") {
        Step::Known(v) => assert_eq!(v.len(), 1),
        _ => panic!("it is known"),
    }
    assert!(matches!(c.multi_search("other"), Step::Fetch(_)));
    assert_eq!(search_key(" a "), Some("a".to_string()));
}

#[test]
fn genres_are_kept_for_a_day() {
    let mut c = TmdbClient::new("k".to_string());
    match c.genre_list(TmdbKind::Tv, 0) {
        Step::Fetch(u) => assert_eq!(
            u,
            "https://api.themoviedb.org/3/genre/tv/list?api_key=k&language=en-US",
        ),
        _ => panic!("nothing is known yet"),
    }
    c.keep_genres(TmdbKind::Tv, vec![Genre { id: 1, name: "War".to_string() }], 1000);
    assert!(matches!(c.genre_list(TmdbKind::Tv, 86_400_999), Step::Known(_)));
    assert!(matches!(c.genre_list(TmdbKind::Tv, 86_401_000), Step::Fetch(_)));
    assert!(matches!(c.genre_list(TmdbKind::Movie, 1000), Step::Fetch(_)));
}

fn listed(id: u64) -> TmdbDiscoverResult {
    TmdbDiscoverResult {
        id,
        title: None,
        name: Some("Show".to_string()),
        overview: None,
        release_date: None,
        first_air_date: Some("2001-02-03".to_string()),
        poster_path: None,
        backdrop_path: None,
        vote_score_bits: None,
        vote_count: None,
        popularity_bits: None,
        original_language: None,
        genre_ids: vec![4],
    }
}

#[test]
fn lists_are_kept_for_six_hours() {
    let mut c = TmdbClient::new("k".to_string());
    match c.recommendations(TmdbKind::Tv, 9, 0) {
        Step::Fetch(u) => assert_eq!(
            u,
            "https://api.themoviedb.org/3/tv/9/recommendations?api_key=k&page=1",
        ),
        _ => panic!("nothing is known yet"),
    }
    c.keep_list("recommendations:tv:9".to_string(), vec![listed(5)], TmdbKind::Tv, 0);
    match c.recommendations(TmdbKind::Tv, 9, 21_599_999) {
        Step::Known(v) => {
            assert_eq!((v[0].tmdb_id, v[0].title.as_str(), v[0].year), (5, "Show", Some(2001)));
            assert!(v[0].genres.is_empty());
        }
        _ => panic!("it is known"),
    }
    assert!(matches!(c.recommendations(TmdbKind::Tv, 9, 21_600_000), Step::Fetch(_)));
    match c.similar(TmdbKind::Movie, 9, 0) {
        Step::Fetch(u) => assert_eq!(
            u,
            "https://api.themoviedb.org/3/movie/9/similar?api_key=k&page=1",
        ),
        _ => panic!("nothing is known yet"),
    }
}

fn raw_episode(season_number: Option<u32>) -> TmdbEpisodeRaw {
    TmdbEpisodeRaw {
        episode_number: 3,
        season_number,
        name: Some(String::new()),
        overview: Some("o".to_string()),
        air_date: None,
        runtime: Some(40),
        still_path: None,
    }
}

#[test]
fn seasons_are_kept() {
    let mut c = TmdbClient::new("k".to_string());
    match c.tv_season_episodes(9, 2) {
        Step::Fetch(u) => {
            assert_eq!(u, "https://api.themoviedb.org/3/tv/9/season/2?api_key=k")
        }
        _ => panic!("nothing is known yet"),
    }
    c.keep_season(9, 2, Some(vec![raw_episode(None), raw_episode(Some(7))]));
    match c.tv_season_episodes(9, 2) {
        Step::Known(v) => {
            assert_eq!((v[0].season, v[1].season, v[0].episode), (2, 7, 3));
            assert_eq!((v[0].name.clone(), v[0].overview.as_deref()), (None, Some("o")));
        }
        _ => panic!("it is known"),
    }
    assert!(matches!(c.tv_season_episodes(9, 3), Step::Fetch(_)));
    assert!(season_episodes(None, 1).is_empty());
}

fn raw() -> TmdbRaw {
    TmdbRaw {
        title: None,
        name: None,
        overview: None,
        release_date: None,
        first_air_date: None,
        poster_path: None,
        backdrop_path: None,
        vote_score_bits: Some(0.5f64.to_bits()),
        vote_count: Some(3),
        genres: Some(vec![Genre { id: 18, name: "Drama".to_string() }]),
        runtime: None,
        episode_run_time: Some(vec![42, 50]),
        number_of_seasons: Some(6),
        popularity_bits: None,
        original_language: None,
    }
}

fn meta(id: u64, kind: TmdbKind) -> MediaMetadata {
    describe(raw(), id, kind)
}

#[test]
fn entries_are_described() {
    let m = meta(3, TmdbKind::Tv);
    assert_eq!((m.title.as_str(), m.runtime_minutes, m.number_of_seasons), ("", Some(42), Some(6)));
    assert_eq!((m.genres, m.genre_ids), (vec!["Drama".to_string()], vec![18]));
    let mut r = raw();
    r.runtime = Some(90);
    assert_eq!(describe(r, 3, TmdbKind::Movie).runtime_minutes, Some(90));
}

#[test]
fn lookups_of_different_kinds_are_kept_apart() {
    let mut c = TmdbClient::new("k".to_string());
    assert!(matches!(
        c.lookup_with_kind(5, Some(TmdbKind::Tv)),
        LookupStep::Ask(TmdbKind::Tv, TmdbKind::Movie)
    ));
    assert!(matches!(c.lookup(5), LookupStep::Ask(TmdbKind::Movie, TmdbKind::Tv)));
    c.keep_lookup(5, Some(TmdbKind::Tv), None, Some(meta(5, TmdbKind::Movie)));
    match c.lookup_with_kind(5, Some(TmdbKind::Tv)) {
        LookupStep::Known(CacheEntry::Found(m)) => assert_eq!(m.kind, TmdbKind::Movie),
        _ => panic!("it is known"),
    }
    assert!(matches!(c.lookup_with_kind(5, Some(TmdbKind::Movie)), LookupStep::Ask(..)));
    c.keep_lookup(5, None, None, None);
    assert!(matches!(c.lookup(5), LookupStep::Known(CacheEntry::NotFound)));
    assert_eq!(c.fetch_url(5, TmdbKind::Movie), "https://api.themoviedb.org/3/movie/5?api_key=k");
}

#[test]
fn best_hit_is_of_the_kind_and_closest_in_time() {
    let hits = vec![
        hit(TmdbKind::Tv, 1, Some(2014)),
        hit(TmdbKind::Movie, 2, None),
        hit(TmdbKind::Movie, 3, Some(2010)),
        hit(TmdbKind::Movie, 4, Some(2018)),
    ];
    let best = |k, y| pick_best(&hits, k, y).map(|h| h.tmdb_id);
    assert_eq!(best(Some(TmdbKind::Movie), Some(2018)), Some(4));
    assert_eq!(best(Some(TmdbKind::Movie), Some(2014)), Some(3));
    assert_eq!(best(Some(TmdbKind::Movie), None), Some(2));
    assert_eq!(best(None, Some(2010)), Some(3));
    assert_eq!(best(None, Some(1990)), Some(1));
    assert_eq!(best(None, None), Some(1));
    assert!(pick_best(&vec![hit(TmdbKind::Tv, 1, None)], Some(TmdbKind::Movie), None).is_none());
}

#[test]
fn resolutions_are_kept_and_read_back() {
    let hits = vec![hit(TmdbKind::Movie, 7, Some(2014))];
    let (title, entry) = resolve_cleaned(&hits, Some(TmdbKind::Movie), Some(2014), 99);
    assert_eq!(title.as_ref().map(|t| t.tmdb_id), Some(7));
    assert_eq!((entry.tmdb_id, entry.year, entry.fetched_at), (Some(7), Some(2014), 99));
    let again = ResolvedTitle::from_entry(&entry, Some(TmdbKind::Movie)).unwrap();
    assert_eq!((again.tmdb_id, again.year, again.title.as_str()), (7, Some(2014), "t7"));
    let (none, entry) = resolve_cleaned(&Vec::new(), None, None, 99);
    assert!(none.is_none() && ResolvedTitle::from_entry(&entry, None).is_none());
}

#[test]
fn broken_entries_are_read_with_care() {
    let mut e = ResolveEntry {
        tmdb_id: Some(-1),
        title: None,
        year: Some(-5),
        poster_path: None,
        backdrop_path: None,
        overview: None,
        fetched_at: 0,
    };
    assert!(ResolvedTitle::from_entry(&e, None).is_none());
    e.tmdb_id = Some(4);
    let t = ResolvedTitle::from_entry(&e, None).unwrap();
    assert_eq!((t.kind, t.title.as_str(), t.year), (TmdbKind::Movie, "", None));
}

#[test]
fn keys_hold_the_year() {
    assert_eq!(cache_key("pride", Some(2014)), "pride 2014");
    assert_eq!(cache_key("pride", None), "pride");
    assert_eq!(resolve_release_name("p", None, true), None);
    assert_eq!(resolve_release_name("é", None, true), Some(TmdbKind::Tv));
    assert_eq!(resolve_release_name("it", Some(TmdbKind::Movie), true), Some(TmdbKind::Movie));
}

#[test]
fn candidates_are_searched_ever_more_widely() {
    let mut s = first_search(Some(TmdbKind::Tv), Some(2014));
    let mut asked = vec![s];
    while let CandidateStep::Search(next) = search_candidates(s, Vec::new()) {
        s = next;
        asked.push(s);
    }
    assert_eq!(
        asked,
        [
            CandidateSearch::Typed(TmdbKind::Tv, Some(2014)),
            CandidateSearch::Typed(TmdbKind::Tv, None),
            CandidateSearch::Multi,
        ],
    );
    assert_eq!(first_search(None, Some(2014)), CandidateSearch::Multi);
    let hits = vec![hit(TmdbKind::Tv, 1, None)];
    assert!(matches!(search_candidates(asked[0], hits), CandidateStep::Done(v) if v.len() == 1));
}

#[test]
fn collections_are_corrected() {
    let name = |t: &str| Some(ParsedName { title: t.to_string(), year: Some(2014) });
    assert!(matches!(
        process_one_collection(&Vec::new(), "tv"),
        BackfillStep::Finished(CollectionOutcome::NoTorrents)
    ));
    assert!(matches!(
        process_one_collection(&vec![None], "tv"),
        BackfillStep::Finished(CollectionOutcome::NoParse)
    ));
    assert!(matches!(
        process_one_collection(&vec![name(" x ")], "tv"),
        BackfillStep::Finished(CollectionOutcome::NoParse)
    ));
    match process_one_collection(&vec![None, name("Pride"), name("Other")], "movie") {
        BackfillStep::Search(q) => {
            assert_eq!((q.title.as_str(), q.kind, q.year), ("Pride", Some(TmdbKind::Movie), Some(2014)))
        }
        _ => panic!("there is something to search"),
    }
    let hits = vec![hit(TmdbKind::Movie, 7, None)];
    assert!(matches!(judge_hits(&hits, None, None, Some(6)), BackfillStep::Write(7)));
    assert!(matches!(
        judge_hits(&hits, None, None, Some(7)),
        BackfillStep::Finished(CollectionOutcome::AlreadyCorrect)
    ));
    assert!(matches!(
        judge_hits(&Vec::new(), None, None, None),
        BackfillStep::Finished(CollectionOutcome::NoHits)
    ));
    let huge = vec![hit(TmdbKind::Movie, u64::MAX, None)];
    assert!(matches!(
        judge_hits(&huge, None, None, None),
        BackfillStep::Finished(CollectionOutcome::Error)
    ));
    assert_eq!(written_outcome(true), CollectionOutcome::Stamped);
    assert_eq!(written_outcome(false), CollectionOutcome::Error);
}

#[test]
fn outcomes_are_counted() {
    let t = run_collections(&vec![
        CollectionOutcome::Stamped,
        CollectionOutcome::Error,
        CollectionOutcome::Stamped,
        CollectionOutcome::NoHits,
    ]);
    assert_eq!((t.stamped, t.no_hits, t.no_parse, t.no_torrents, t.already_correct), (2, 1, 0, 0, 0));
}

#[test]
fn watched_titles_enter_the_catalogue() {
    assert_eq!(lookup_target(5, true), Some((5, TmdbKind::Tv)));
    assert_eq!(lookup_target(-5, true), None);
    let m = meta(5, TmdbKind::Tv);
    let item = catalog_item(5, &m, None);
    assert_eq!((item.kind.as_str(), item.is_anime, item.anilist_id), ("tv", false, None));
    assert_eq!((item.genres, item.availability.as_str()), (vec![18], "unknown"));
    assert_eq!(item.source.as_deref(), Some("reco:watched-backfill"));
    let anime = AnimeMatch { anilist_id: 8, cover_image: Some("c".to_string()), banner_image: None };
    let item = catalog_item(5, &m, Some(anime));
    assert_eq!((item.is_anime, item.anilist_id), (true, Some(8)));
    assert_eq!((item.poster_path.as_deref(), item.backdrop_path), (Some("c"), None));
}

#[test]
fn lookups_need_a_configured_client() {
    assert_eq!(tmdb_lookup(Some(1)).unwrap(), 1);
    match tmdb_lookup::<u8>(None) {
        Err(iris::api_error::ApiError::BadRequest(m)) => {
            assert_eq!(m, "TMDB enrichment is not configured (set [tmdb].api_key)")
        }
        other => panic!("unexpected {other:?}"),
    }
    assert!(tmdb_resolve(None).is_none());
}

#[test]
fn featured_releases_are_gathered_in_order() {
    assert_eq!(featured(vec![Some(vec![1, 2]), None, Some(vec![3])]), [1, 2, 3]);
}
