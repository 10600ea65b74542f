use iris::api_error::ApiError;
use iris::episode_map::EpisodeMap;
use iris::follows::{
    episode_context, episodes, find_episode_file, follow_identity, follow_name, next_episode,
    poster_lookup, prev_episode, removal_outcome, resolve_followish, same_torrent_next,
    season_wanted, summarize, EpisodeFileRow, EpisodeStatus, FollowRow, FollowishSource,
    SeriesCollection, SeriesData,
};
use iris::grab::AvailableEpisodeRow;
use iris::language::{LangSel, Language};

fn follow() -> FollowRow {
    FollowRow {
        id: 9,
        normalized_name: "show".to_string(),
        name: "Show".to_string(),
        tmdb_id: Some(4),
        last_visited_at: None,
        created_at: 1,
    }
}

fn file(season: i64, episode: i64, infohash: &str) -> EpisodeFileRow {
    EpisodeFileRow {
        collection_id: 1,
        season,
        episode,
        infohash: infohash.to_string(),
        file_idx: 2,
        absolute_episode: None,
    }
}

fn offer(season: i64, episode: i64, id: &str) -> AvailableEpisodeRow {
    AvailableEpisodeRow {
        id: 1,
        normalized_name: "show".to_string(),
        season,
        episode,
        indexer_provider: "p".to_string(),
        indexer_torrent_id: id.to_string(),
        magnet: String::new(),
        quality: None,
        seeders: Some(1),
        size_bytes: None,
        found_at: 0,
        language_tag: None,
        language: Language::Unknown,
        download_url: None,
        absolute_episode: None,
        codec: None,
    }
}

#[test]
fn names_are_needed() {
    assert_eq!(follow_name(" Show ").unwrap(), "Show");
    assert!(matches!(follow_name(" \t"), Err(ApiError::BadRequest(m)) if m == "name is required"));
    assert_eq!(follow_identity("show".to_string()).unwrap(), "show");
    assert!(matches!(follow_identity(String::new()), Err(ApiError::BadRequest(m)) if m == "name does not normalise"));
}

#[test]
fn summaries_are_decorated() {
    assert_eq!(poster_lookup(true, Some(4)), Some(4));
    assert_eq!(poster_lookup(false, Some(4)), None);
    assert_eq!(poster_lookup(true, None), None);
    let s = summarize(&follow(), Some((Some("p".to_string()), None)), None);
    assert_eq!((s.id, s.poster_path.as_deref(), s.new_count), (9, Some("p"), 0));
    assert_eq!(summarize(&follow(), None, Some(3)).new_count, 3);
    assert!(removal_outcome(true).is_ok());
    assert!(matches!(removal_outcome(false), Err(ApiError::NotFound)));
}

#[test]
fn identifiers_lead_to_series() {
    let c = |kind: &str, name: Option<&str>| {
        Some(SeriesCollection {
            kind: kind.to_string(),
            parsed_title_normalized: name.map(str::to_string),
            display_title: "C".to_string(),
            tmdb_id: None,
        })
    };
    let i = resolve_followish(Some(follow()), c("tv", Some("x"))).unwrap();
    assert_eq!((i.normalized_name.as_str(), i.source), ("show", FollowishSource::SeriesFollow));
    let i = resolve_followish(None, c("tv", Some("x"))).unwrap();
    assert_eq!((i.display_name.as_str(), i.source), ("C", FollowishSource::Collection));
    assert!(resolve_followish(None, c("movie", Some("x"))).is_none());
    assert!(resolve_followish(None, c("tv", None)).is_none());
    assert!(resolve_followish(None, None).is_none());
}

#[test]
fn disk_wins_over_offers() {
    let items = episodes(
        vec![(file(2, 1, "a"), false), (file(1, 2, "b"), true), (file(1, 2, "c"), false)],
        vec![offer(1, 2, "x"), offer(1, 1, "y"), offer(1, 1, "z")],
        None,
    );
    let seen: Vec<_> = items
        .iter()
        .map(|i| (i.season, i.episode, i.infohash.as_deref(), i.indexer_torrent_id.as_deref()))
        .collect();
    assert_eq!(
        seen,
        [(1, 1, None, Some("y")), (1, 2, Some("c"), None), (2, 1, Some("a"), None)],
    );
    assert_eq!(items[0].status, EpisodeStatus::Available);
    let one = episodes(vec![(file(2, 1, "a"), false)], vec![offer(1, 1, "y")], Some(2));
    assert_eq!(one.len(), 1);
    assert!(season_wanted(None, -1) && season_wanted(Some(2), 2) && !season_wanted(Some(2), 1));
}

fn series(follow: Option<u128>) -> SeriesData {
    SeriesData {
        follow,
        files: vec![file(1, 1, "a"), file(1, 7, "b"), file(2, 1, "c")],
        available: vec![offer(1, 2, "x")],
    }
}

#[test]
fn neighbours_follow_the_series() {
    let p = next_episode(&series(Some(9)), 1, 1).unwrap();
    assert_eq!((p.season, p.episode, p.status), (1, 2, EpisodeStatus::Available));
    let p = next_episode(&series(None), 1, 1).unwrap();
    assert_eq!((p.season, p.episode, p.status), (2, 1, EpisodeStatus::Downloaded));
    assert!(next_episode(&series(None), 2, 1).is_none());
    let p = prev_episode(&series(None), 2, 1).unwrap();
    assert_eq!((p.season, p.episode, p.infohash.as_deref()), (1, 7, Some("b")));
    assert!(prev_episode(&series(None), 1, 1).is_none());
    assert!(prev_episode(&series(None), 1, 7).is_none());
}

#[test]
fn torrent_stands_in_for_the_series() {
    let c = episode_context(None, None, 2, Some(file(0, 0, "t")), Some(file(0, 0, "s")));
    assert!(!c.followed && c.current.is_none());
    assert_eq!(c.next.unwrap().infohash.as_deref(), Some("t"));
    assert_eq!(c.prev.unwrap().infohash.as_deref(), Some("s"));
    let c = episode_context(Some(file(1, 1, "a")), Some(series(Some(9))), 0, None, Some(file(0, 0, "s")));
    assert!(c.followed && c.prev.is_none());
    assert_eq!(c.current.unwrap().follow_id, Some(9));
    assert_eq!(c.next.unwrap().episode, 2);
    let last = Some(file(i64::MAX, i64::MAX, "a"));
    let c = episode_context(last, None, 1, Some(file(0, 0, "t")), None);
    assert_eq!(c.current.unwrap().season, i64::MAX);
    assert_eq!(c.next.unwrap().infohash.as_deref(), Some("t"));
    assert!(same_torrent_next(None).is_none());
}

#[test]
fn files_are_picked_by_language() {
    let rows = vec![
        (file(1, 1, "a"), Language::English),
        (file(1, 1, "b"), Language::French),
        (file(1, 2, "c"), Language::French),
    ];
    let pick = |sel: &LangSel| find_episode_file(rows.clone(), 1, 1, sel).map(|f| f.infohash);
    assert_eq!(pick(&LangSel::Any).as_deref(), Some("a"));
    assert_eq!(pick(&LangSel::Exact(Language::French)).as_deref(), Some("b"));
    assert_eq!(find_episode_file(rows.clone(), 3, 1, &LangSel::Any).map(|f| f.infohash), None);
}

#[test]
fn episodes_are_kept_in_order() {
    let mut m: EpisodeMap<u8> = EpisodeMap::new();
    m.insert((2, 1), 1);
    m.insert((1, 9), 2);
    m.insert_if_absent((2, 1), 3);
    m.insert((1, 9), 4);
    assert_eq!((m.len(), m.key_at(0), *m.value_at(0)), (2, (1, 9), 4));
    assert_eq!((m.get((2, 1)), m.get((3, 1))), (Some(&1), None));
    assert_eq!(m.into_values(), [4, 1]);
}
