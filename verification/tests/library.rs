use iris::api_error::ApiError;
use iris::follows::EpisodeFileRow;
use iris::grab::AvailableEpisodeRow;
use iris::language::Language;
use iris::library::{
    build_available_singletons, build_gone_view, build_season_packs, build_tv_episode_view,
    collection_detail, default_numbering, derive_numbering, grab_collection_episode, list_library,
    owned_languages, resolve_torrent_language, season_language_coverage, torrent_views,
    wants_torrents, AvailableEpisodeEntry, CachedOffers, CollectionData, CollectionRow,
    CollectionSummary, CollectionTorrent, DeletedTorrent, EpisodeEntry, GoneEpisodeRow, TorrentRow,
    WatchState,
};
use iris::search::MediaKind;

fn summary(id: u128, kind: &str) -> CollectionSummary {
    CollectionSummary {
        id,
        tmdb_id: None,
        display_title: "T".to_string(),
        kind: kind.to_string(),
        is_anime: false,
        torrent_count: 1,
        total_size_bytes: 2,
        episode_count: 3,
        representative_infohash: None,
    }
}

#[test]
fn ghosts_come_last() {
    let all = list_library(vec![summary(1, "movie"), summary(2, "odd")], vec![summary(3, "tv")]);
    let seen: Vec<_> = all.iter().map(|i| (i.id, i.kind, i.is_ghost)).collect();
    assert!(matches!(
        seen[..],
        [(1, MediaKind::Movie, false), (2, MediaKind::Tv, false), (3, MediaKind::Tv, true)]
    ));
    assert!(wants_torrents(Some("torrents")));
    assert!(!wants_torrents(Some("collections")) && !wants_torrents(None));
}

fn torrent_row(id: u128, kind: Option<&str>, uploaded: i64) -> TorrentRow {
    TorrentRow {
        id,
        infohash: "ab".to_string(),
        added_by: 1,
        added_by_name: "u".to_string(),
        added_at: 0,
        last_played_at: None,
        source_provider: None,
        source_external_id: None,
        tmdb_id: None,
        tmdb_verified: false,
        kind: kind.map(str::to_string),
        collection_id: None,
        uploaded_bytes_total: uploaded,
    }
}

#[test]
fn torrents_unknown_to_the_engine_are_left_out() {
    let views = torrent_views(vec![
        (torrent_row(1, Some("movie"), -4), true),
        (torrent_row(2, None, 4), false),
        (torrent_row(3, Some("odd"), 4), true),
    ]);
    assert_eq!(views.len(), 2);
    assert_eq!((views[0].id, views[0].uploaded_bytes_total), (1, 0));
    assert!(matches!(views[0].kind, Some(MediaKind::Movie)));
    assert_eq!((views[1].id, views[1].uploaded_bytes_total), (3, 4));
    assert!(views[1].kind.is_none());
}

fn on_disk(episode: i64, absolute: bool) -> EpisodeEntry {
    EpisodeEntry {
        season: 1,
        episode,
        infohash: "ab".to_string(),
        file_idx: 0,
        watched: false,
        language: Language::Unknown,
        absolute_episode: if absolute { Some(episode) } else { None },
    }
}

fn on_offer(episode: i64, absolute: bool) -> AvailableEpisodeEntry {
    AvailableEpisodeEntry {
        season: 1,
        episode,
        indexer_provider: "p".to_string(),
        indexer_torrent_id: "1".to_string(),
        quality: None,
        seeders: Some(1),
        size_bytes: None,
        found_at: 0,
        language: None,
        absolute_episode: if absolute { Some(episode) } else { None },
    }
}

#[test]
fn half_of_the_episodes_make_the_layout_absolute() {
    let gone = Vec::new();
    let layout = |e: Vec<EpisodeEntry>, a: Vec<AvailableEpisodeEntry>| derive_numbering(&e, &gone, &a);
    assert_eq!(layout(vec![on_disk(1, true), on_disk(2, false)], vec![]), "absolute");
    assert_eq!(
        layout(vec![on_disk(1, true), on_disk(2, false), on_disk(3, false)], vec![]),
        "seasonal",
    );
    assert_eq!(layout(vec![on_disk(0, true)], vec![on_offer(7, true)]), "absolute");
    assert_eq!(layout(vec![on_disk(1, false)], vec![on_offer(7, true)]), "seasonal");
    assert_eq!(layout(vec![], vec![]), default_numbering());
    assert_eq!(default_numbering(), "seasonal");
}

fn held(infohash: &str, detected: Language, provider: Option<(&str, &str)>) -> CollectionTorrent {
    CollectionTorrent {
        infohash: infohash.to_string(),
        source_provider: provider.map(|p| p.0.to_string()),
        source_external_id: provider.map(|p| p.1.to_string()),
        detected,
        provider_default: provider.map(|_| Language::French),
    }
}

#[test]
fn provider_stands_in_for_a_silent_name() {
    let torrents = vec![
        held("a", Language::English, Some(("p", "1"))),
        held("b", Language::Unknown, Some(("p", "2"))),
        held("c", Language::Unknown, None),
    ];
    assert_eq!(resolve_torrent_language(&torrents, "a"), Language::English);
    assert_eq!(resolve_torrent_language(&torrents, "b"), Language::French);
    assert_eq!(resolve_torrent_language(&torrents, "c"), Language::Unknown);
    assert_eq!(resolve_torrent_language(&torrents, "d"), Language::Unknown);
}

fn file(season: i64, episode: i64, infohash: &str, idx: i64) -> EpisodeFileRow {
    EpisodeFileRow {
        collection_id: 1,
        season,
        episode,
        infohash: infohash.to_string(),
        file_idx: idx,
        absolute_episode: None,
    }
}

fn offer(episode: i64, language: Language, seeders: Option<i64>, id: &str) -> AvailableEpisodeRow {
    AvailableEpisodeRow {
        id: 1,
        normalized_name: "show".to_string(),
        season: 1,
        episode,
        indexer_provider: "p".to_string(),
        indexer_torrent_id: id.to_string(),
        magnet: String::new(),
        quality: None,
        seeders,
        size_bytes: None,
        found_at: 50,
        language_tag: Some("fr".to_string()),
        language,
        download_url: None,
        absolute_episode: None,
        codec: None,
    }
}

#[test]
fn offers_beyond_the_disk_are_shown() {
    let torrents = vec![
        held("a", Language::English, Some(("p", "1"))),
        held("b", Language::Multi, None),
    ];
    let files = vec![(file(1, 1, "a", 0), true), (file(1, 2, "b", 1), false), (file(1, 0, "a", 2), false)];
    let owned = owned_languages(&files, &torrents);
    assert_eq!(owned, [(1, 1, Language::English), (1, 2, Language::Multi)]);
    assert_eq!(
        season_language_coverage(&owned),
        [(1, Language::English), (1, Language::Multi)],
    );
    let offers = vec![
        offer(3, Language::French, Some(1), "10"),
        offer(1, Language::French, Some(1), "11"),
        offer(1, Language::English, Some(1), "12"),
        offer(2, Language::French, Some(1), "13"),
        offer(4, Language::French, Some(0), "14"),
        offer(4, Language::French, None, "15"),
        offer(5, Language::French, Some(9), "1"),
        offer(0, Language::French, Some(9), "16"),
    ];
    let (shown, new) = build_available_singletons(offers, &owned, &torrents, Some(49));
    let ids: Vec<&str> = shown.iter().map(|e| e.indexer_torrent_id.as_str()).collect();
    assert_eq!(ids, ["11", "10"]);
    assert_eq!(new, 2);
    let (_, new) = build_available_singletons(
        vec![offer(3, Language::French, Some(1), "10")],
        &owned,
        &torrents,
        Some(50),
    );
    assert_eq!(new, 0);
}

#[test]
fn owned_packs_are_left_out() {
    let torrents = vec![held("a", Language::English, Some(("p", "1")))];
    let packs = build_season_packs(
        vec![offer(0, Language::French, None, "1"), offer(0, Language::French, None, "2")],
        &torrents,
    );
    assert_eq!(packs.len(), 1);
    assert_eq!((packs[0].indexer_torrent_id.as_str(), packs[0].language.as_deref()), ("2", Some("fr")));
}

#[test]
fn every_file_has_an_entry() {
    let files = vec![
        (file(2, 1, "a", 0), false),
        (file(1, 2, "a", 5), true),
        (file(1, 2, "a", 4), false),
        (file(1, 0, "a", 6), false),
    ];
    let v = build_tv_episode_view(files, &Vec::new(), None, None);
    let seen: Vec<_> = v.episodes.iter().map(|e| (e.season, e.episode, e.file_idx, e.watched)).collect();
    assert_eq!(seen, [(1, 0, 6, false), (1, 2, 4, false), (1, 2, 5, true), (2, 1, 0, false)]);
    assert!(v.available.is_empty() && v.packs.is_empty() && v.new_count == 0);
}

fn deleted(infohash: &str, origin: bool) -> DeletedTorrent {
    DeletedTorrent {
        infohash: infohash.to_string(),
        name: "N".to_string(),
        source_provider: if origin { Some("p".to_string()) } else { None },
        source_external_id: if origin { Some("1".to_string()) } else { None },
        total_size_bytes: 7,
        deleted_at: Some(9),
    }
}

fn gone_row(infohash: &str, origin: bool) -> GoneEpisodeRow {
    GoneEpisodeRow {
        season: 1,
        episode: 2,
        absolute_episode: Some(2),
        infohash: infohash.to_string(),
        file_idx: 3,
        completed: true,
        position_bits: None,
        duration_bits: None,
        last_watched_at: Some(8),
        torrent_name: "N".to_string(),
        source_provider: if origin { Some("p".to_string()) } else { None },
        source_external_id: if origin { Some("1".to_string()) } else { None },
    }
}

#[test]
fn only_what_has_an_origin_can_be_fetched_again() {
    let watch = vec![WatchState {
        infohash: "b".to_string(),
        completed: true,
        position_bits: 5.0f64.to_bits(),
        duration_bits: None,
        last_watched_at: 6,
    }];
    let (releases, episodes) = build_gone_view(
        vec![deleted("a", false), deleted("b", true), deleted("c", true)],
        &watch,
        vec![gone_row("a", false), gone_row("b", true)],
        &vec![held("b", Language::French, None)],
    );
    assert_eq!(releases.len(), 2);
    assert_eq!((releases[0].watched, releases[0].last_watched_at), (true, Some(6)));
    assert_eq!((releases[1].watched, releases[1].position_bits), (false, None));
    assert_eq!(episodes.len(), 1);
    assert_eq!((episodes[0].language, episodes[0].watched), (Language::French, true));
}

fn collection(kind: &str, name: Option<&str>) -> CollectionRow {
    CollectionRow {
        id: 4,
        tmdb_id: Some(5),
        display_title: "T".to_string(),
        kind: kind.to_string(),
        is_anime: true,
        parsed_title_normalized: name.map(str::to_string),
    }
}

fn data() -> CollectionData {
    CollectionData {
        torrent_rows: vec![(torrent_row(1, None, 0), true)],
        torrents: vec![held("ab", Language::English, None)],
        files: vec![(file(1, 1, "ab", 0), false)],
        cached: Some(CachedOffers {
            offers: vec![offer(2, Language::English, Some(3), "9")],
            packs: vec![offer(0, Language::English, None, "8")],
        }),
        user_last_visited: None,
        paths: Some((Some("poster".to_string()), None)),
        deleted: vec![deleted("c", true)],
        watch: Vec::new(),
        gone_rows: vec![gone_row("c", true)],
        gone_torrents: Vec::new(),
    }
}

#[test]
fn page_of_a_collection_is_put_together() {
    let d = collection_detail(Some(collection("tv", None)), data()).unwrap();
    assert_eq!((d.id, d.tmdb_id, d.is_anime, d.numbering.as_str()), (4, Some(5), true, "seasonal"));
    assert_eq!((d.poster_path.as_deref(), d.backdrop_path), (Some("poster"), None));
    assert_eq!((d.torrents.len(), d.episodes.len(), d.available_episodes.len()), (1, 1, 1));
    assert_eq!((d.season_packs.len(), d.has_new_since_last_visit), (1, 1));
    assert_eq!((d.gone_releases.len(), d.gone_episodes.len()), (1, 1));
    let d = collection_detail(Some(collection("movie", None)), data()).unwrap();
    assert_eq!((d.episodes.len(), d.available_episodes.len(), d.season_packs.len()), (0, 0, 0));
    assert_eq!(d.numbering, "absolute");
    assert!(matches!(collection_detail(None, data()), Err(ApiError::NotFound)));
}

#[test]
fn only_series_with_an_identity_are_grabbed() {
    assert_eq!(grab_collection_episode(Some(collection("tv", Some("show")))).unwrap(), "show");
    assert!(matches!(grab_collection_episode(None), Err(ApiError::NotFound)));
    for (c, text) in [
        (collection("movie", Some("show")), "grab only valid for TV collections"),
        (collection("tv", None), "collection has no SCENE identity — cannot resolve episode"),
    ] {
        assert!(matches!(grab_collection_episode(Some(c)), Err(ApiError::BadRequest(m)) if m == text));
    }
}
