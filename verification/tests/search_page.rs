use iris::api_error::ApiError;
use iris::search::{DescriptionFormat, MediaKind, SearchQuery, SearchResult, TorrentDetails};
use iris::search_page::{
    details, label_result, library_key, library_matches_for, match_need, prepend_dubious_warning,
    search, CollectionSummary, DetailsAnswer, Dubious, MatchCandidate, MatchNeed, OwnedEpisode,
    ParsedSearch, SearchParams,
};

fn params(kind: Option<MediaKind>) -> SearchParams {
    SearchParams { q: "Vikings S03".to_string(), page: Some(2), limit: None, sort_by: None, order: None, kind }
}

fn query(kind: Option<MediaKind>, season: Option<u32>, episode: Option<u32>) -> SearchQuery {
    let parsed = ParsedSearch { title_key: "vikings".to_string(), season, episode, year: None };
    search(params(kind), Some(parsed))
}

#[test]
fn query_carries_what_it_tells() {
    let q = query(Some(MediaKind::Tv), Some(3), None);
    assert_eq!((q.q.as_str(), q.page, q.season, q.episode), ("Vikings S03", Some(2), Some(3), None));
    assert_eq!(q.parsed_title.as_deref(), Some("vikings"));
    let q = search(params(None), None);
    assert_eq!((q.parsed_title, q.season, q.year), (None, None, None));
}

#[test]
fn short_keys_are_not_looked_up() {
    let mut q = query(None, None, None);
    assert_eq!(library_key(&q).as_deref(), Some("vikings"));
    q.parsed_title = Some("v".to_string());
    assert_eq!(library_key(&q), None);
    q.parsed_title = Some("é".to_string());
    assert_eq!(library_key(&q).as_deref(), Some("é"));
    q.parsed_title = None;
    assert_eq!(library_key(&q), None);
}

#[test]
fn needs_follow_the_query() {
    assert_eq!(match_need("tv", None, Some(3), Some(4)), MatchNeed::Episode(Some(3), 4));
    assert_eq!(match_need("tv", None, None, Some(4)), MatchNeed::Episode(None, 4));
    assert_eq!(match_need("tv", None, Some(3), None), MatchNeed::Season(3));
    assert_eq!(match_need("tv", None, None, None), MatchNeed::Plain);
    assert_eq!(match_need("movie", None, None, None), MatchNeed::Plain);
    assert_eq!(match_need("movie", None, Some(3), None), MatchNeed::Skip);
    assert_eq!(match_need("movie", Some(MediaKind::Tv), None, None), MatchNeed::Skip);
    assert_eq!(match_need("tv", Some(MediaKind::Movie), None, None), MatchNeed::Skip);
}

fn candidate(kind: &str, owned: bool, season_count: i64) -> MatchCandidate {
    MatchCandidate {
        collection: CollectionSummary {
            id: 0x550e8400e29b41d4a716446655440000,
            display_title: "Vikings".to_string(),
            kind: kind.to_string(),
            tmdb_id: None,
            is_anime: false,
            torrent_count: 1,
            episode_count: 9,
            representative_infohash: None,
        },
        episode: if owned {
            Some(OwnedEpisode { season: 3, episode: 4, infohash: "ab".to_string(), file_idx: 1 })
        } else {
            None
        },
        season_count,
    }
}

#[test]
fn episode_queries_show_owners_only() {
    let q = query(None, Some(3), Some(4));
    let found = library_matches_for(
        vec![candidate("movie", true, 1), candidate("tv", false, 1), candidate("tv", true, 1)],
        &q,
    );
    assert_eq!(found.len(), 1);
    assert_eq!(found[0].collection_id, "550e8400-e29b-41d4-a716-446655440000");
    assert_eq!((found[0].episode_season, found[0].episode_number), (Some(3), Some(4)));
    assert_eq!((found[0].episode_infohash.as_deref(), found[0].episode_file_idx), (Some("ab"), Some(1)));
    assert_eq!(found[0].season_episode_count, None);
}

#[test]
fn season_queries_count_episodes() {
    let q = query(None, Some(3), None);
    let found = library_matches_for(vec![candidate("tv", false, 0), candidate("tv", false, 6)], &q);
    assert_eq!(found.len(), 1);
    assert_eq!((found[0].episode_season, found[0].season_episode_count), (Some(3), Some(6)));
    assert_eq!(found[0].episode_number, None);
}

#[test]
fn no_more_than_five_are_shown() {
    let q = query(None, None, None);
    let all = (0..8).map(|_| candidate("tv", false, 0)).collect();
    assert_eq!(library_matches_for(all, &q).len(), 5);
}

fn result(tags: &[&str]) -> SearchResult {
    SearchResult {
        provider_id: "p".to_string(),
        external_id: "1".to_string(),
        title: "T".to_string(),
        year: None,
        size_bytes: None,
        seeders: None,
        leechers: None,
        infohash: None,
        magnet: None,
        category: None,
        tags: tags.iter().map(|s| s.to_string()).collect(),
        freeleech: true,
        uploader: None,
        uploaded_at: None,
        tmdb_id: None,
        kind: None,
        poster_url: None,
        already_in_library: false,
        library_infohash: None,
        library_file_idx: None,
        language: None,
        download_url: None,
    }
}

#[test]
fn doubtful_results_are_tagged_first() {
    let r = label_result(result(&["x"]), "french", Some("CAM"));
    assert_eq!(r.tags, ["⚠️ Dubious: CAM", "x"]);
    assert_eq!((r.language.as_deref(), r.freeleech), (Some("french"), true));
    assert_eq!(label_result(result(&["x"]), "english", None).tags, ["x"]);
}

#[test]
fn warnings_speak_the_markup() {
    assert_eq!(
        prepend_dubious_warning(Some("body"), DescriptionFormat::Bbcode, "filmed"),
        "⚠️ Dubious quality — filmed.\n\nbody",
    );
    assert_eq!(
        prepend_dubious_warning(Some("<b>"), DescriptionFormat::Html, "filmed"),
        "<p><strong>⚠️ Dubious quality</strong> — filmed.</p><b>",
    );
    assert_eq!(
        prepend_dubious_warning(Some(" \n"), DescriptionFormat::Plain, "filmed"),
        "⚠️ Dubious quality — filmed.",
    );
    assert_eq!(
        prepend_dubious_warning(None, DescriptionFormat::Plain, "filmed"),
        "⚠️ Dubious quality — filmed.",
    );
}

fn page() -> TorrentDetails {
    TorrentDetails {
        provider_id: "p".to_string(),
        external_id: "1".to_string(),
        title: "T".to_string(),
        description: Some("d".to_string()),
        description_format: DescriptionFormat::Plain,
        nfo: None,
        media_info: None,
        tags: vec!["x".to_string()],
        category: None,
        uploader: None,
        uploaded_at: None,
        age: None,
        seeders: Some(4),
        leechers: None,
        times_completed: None,
        views: None,
        freeleech: false,
        exclusive: false,
        file_count: None,
        file_size_bytes: None,
    }
}

#[test]
fn pages_are_warned_of() {
    let d = details(DetailsAnswer::Page(page()), None).unwrap();
    assert_eq!((d.tags, d.description.as_deref()), (vec!["x".to_string()], Some("d")));
    let w = Dubious { label: "CAM".to_string(), explanation: "filmed".to_string() };
    let d = details(DetailsAnswer::Page(page()), Some(w)).unwrap();
    assert_eq!(d.tags[0], "⚠️ Dubious: CAM");
    assert_eq!(d.description.as_deref(), Some("⚠️ Dubious quality — filmed.\n\nd"));
    assert_eq!(d.seeders, Some(4));
    assert!(matches!(details(DetailsAnswer::NoPage, None), Err(ApiError::NotFound)));
    assert!(matches!(details(DetailsAnswer::Failed("x".to_string()), None), Err(ApiError::Internal(m)) if m == "details: x"));
}
