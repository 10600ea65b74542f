use iris::api_error::ApiError;
use iris::follows::EpisodeFileRow;
use iris::grab::{AvailableEpisodeRow, PickedAvailability};
use iris::grab_flow::{
    absolute_episode, pick_largest_video_file, pick_pack_file, video_file, FileEntry, GrabAction,
    GrabEvent, GrabFlow, GrabResolver, IngestAction, IngestEvent, IngestFlow, IngestedTorrent,
    ResolveAction, ResolveEvent,
};
use iris::language::{LangSel, Language};
use iris::search::TorrentSource;

fn file(index: usize, path: &str, size: u64, season: Option<u32>, episode: Option<u32>) -> FileEntry {
    FileEntry { index, path: path.to_string(), size_bytes: size, season, episode }
}

#[test]
fn videos_are_told_by_extension() {
    assert!(video_file("a/b.MKV") && video_file("x.m2ts") && video_file("x.wmv"));
    assert!(!video_file("x.nfo") && !video_file("mkv") && !video_file(".mkv"));
}

#[test]
fn largest_video_is_picked() {
    let files = vec![
        file(0, "big.nfo", 900, None, None),
        file(1, "a.mkv", 10, None, None),
        file(2, "b.mkv", 30, None, None),
    ];
    assert_eq!(pick_largest_video_file(&files), 2);
    assert_eq!(pick_largest_video_file(&Vec::new()), 0);
}

#[test]
fn pack_file_is_picked_by_episode() {
    let files = vec![
        file(0, "s.mkv", 10, Some(1), Some(1)),
        file(1, "t.mkv", 10, Some(1), Some(2)),
    ];
    assert_eq!(pick_pack_file(&files, 1, 2), Some(1));
    assert_eq!(pick_pack_file(&files, 1, 3), None);
}

#[test]
fn high_episodes_of_the_first_season_are_absolute() {
    assert_eq!(absolute_episode(1, 101, 100), Some(101));
    assert_eq!(absolute_episode(1, 100, 100), None);
    assert_eq!(absolute_episode(2, 101, 100), None);
}

fn pick(magnet: &str, url: Option<&str>) -> PickedAvailability {
    PickedAvailability {
        magnet: magnet.to_string(),
        indexer_provider: "p".to_string(),
        indexer_torrent_id: "7".to_string(),
        download_url: url.map(str::to_string),
    }
}

#[test]
fn magnet_goes_first() {
    let (mut f, a) = IngestFlow::start(pick("magnet:x", Some("u")), false);
    assert!(matches!(a, IngestAction::AddMagnet(m) if m == "magnet:x"));
    assert!(matches!(f.step(IngestEvent::Added), IngestAction::Finished));
    assert!(matches!(f.step(IngestEvent::Added), IngestAction::OutOfTurn));
}

#[test]
fn link_then_provider_then_search() {
    let (mut f, a) = IngestFlow::start(pick("", Some("u")), true);
    assert!(matches!(a, IngestAction::Fetch(u) if u == "u"));
    assert!(matches!(f.step(IngestEvent::FetchFailed), IngestAction::Resolve(id) if id == "7"));
    assert!(matches!(f.step(IngestEvent::ResolveFailed("one".into())), IngestAction::Reprime));
    assert!(matches!(f.step(IngestEvent::Searched), IngestAction::Resolve(_)));
    match f.step(IngestEvent::ResolveFailed("two".into())) {
        IngestAction::Fail(ApiError::Internal(m)) => {
            assert_eq!(m, "resolve after re-prime: two (first attempt: one)")
        }
        _ => panic!("both attempts failed"),
    }
}

#[test]
fn provider_has_to_be_registered() {
    let (_, a) = IngestFlow::start(pick("", Some("u")), false);
    match a {
        IngestAction::Fail(ApiError::Internal(m)) => {
            assert_eq!(m, "provider `p` no longer registered")
        }
        _ => panic!("it is not registered"),
    }
    let (mut f, a) = IngestFlow::start(pick("", None), true);
    assert!(matches!(a, IngestAction::Resolve(_)));
    let got = f.step(IngestEvent::Resolved(TorrentSource::TorrentFile(vec![1])));
    assert!(matches!(got, IngestAction::AddBytes(b) if b == [1]));
    match f.step(IngestEvent::EngineFailed("x".into())) {
        IngestAction::Fail(ApiError::Internal(m)) => assert_eq!(m, "engine: x"),
        _ => panic!("the engine failed"),
    }
}

fn offer(id: &str, seeders: i64) -> AvailableEpisodeRow {
    AvailableEpisodeRow {
        id: 1,
        normalized_name: "show".into(),
        season: 2,
        episode: 3,
        indexer_provider: "p".into(),
        indexer_torrent_id: id.into(),
        magnet: String::new(),
        quality: None,
        seeders: Some(seeders),
        size_bytes: Some(1_073_741_824),
        found_at: 0,
        language_tag: None,
        language: Language::French,
        download_url: None,
        absolute_episode: None,
        codec: None,
    }
}

fn resolver() -> GrabResolver {
    GrabResolver::new("show".to_string(), 2, 3, LangSel::Any)
}

#[test]
fn missing_season_is_taken_as_a_sane_pack() {
    let mut r = resolver();
    let a = r.step(ResolveEvent::Owned(Vec::new(), vec![1]));
    assert!(matches!(a, ResolveAction::Sweep(Some(3))));
    assert!(matches!(r.step(ResolveEvent::Live(Vec::new())), ResolveAction::ListOffers));
    assert!(matches!(r.step(ResolveEvent::Offers(Vec::new())), ResolveAction::WriteSeeders(_)));
    assert!(matches!(r.step(ResolveEvent::Written), ResolveAction::ListPacks));
    assert!(matches!(r.step(ResolveEvent::Packs(vec![offer("k", 9)])), ResolveAction::Sweep(None)));
    assert!(matches!(r.step(ResolveEvent::Live(Vec::new())), ResolveAction::ListPacks));
    let a = r.step(ResolveEvent::Packs(vec![offer("k", 9)]));
    assert!(matches!(a, ResolveAction::WriteSeeders(_)));
    assert!(matches!(r.step(ResolveEvent::Written), ResolveAction::ListPacks));
    match r.step(ResolveEvent::Packs(vec![offer("k", 9)])) {
        ResolveAction::TakePack(p) => assert_eq!(p.indexer_torrent_id, "k"),
        _ => panic!("the pack is sane"),
    }
}

#[test]
fn owned_season_is_completed_by_episodes() {
    let mut r = resolver();
    r.step(ResolveEvent::Owned(Vec::new(), vec![2]));
    r.step(ResolveEvent::Live(Vec::new()));
    r.step(ResolveEvent::Offers(Vec::new()));
    assert!(matches!(r.step(ResolveEvent::Written), ResolveAction::ListOffers));
    match r.step(ResolveEvent::Offers(vec![offer("s", 9)])) {
        ResolveAction::TakeSingleton(p) => assert_eq!(p.indexer_torrent_id, "s"),
        _ => panic!("there is an offer"),
    }
    assert!(matches!(r.step(ResolveEvent::Written), ResolveAction::OutOfTurn));
}

#[test]
fn nothing_on_offer_is_not_found() {
    let mut r = resolver();
    r.step(ResolveEvent::Owned(Vec::new(), vec![2]));
    r.step(ResolveEvent::Live(Vec::new()));
    r.step(ResolveEvent::Offers(Vec::new()));
    r.step(ResolveEvent::Written);
    assert!(matches!(r.step(ResolveEvent::Offers(Vec::new())), ResolveAction::ListPacks));
    assert!(matches!(r.step(ResolveEvent::Packs(Vec::new())), ResolveAction::NotFound));
}

fn row(infohash: &str) -> EpisodeFileRow {
    EpisodeFileRow {
        collection_id: 1,
        season: 2,
        episode: 3,
        infohash: infohash.to_string(),
        file_idx: 4,
        absolute_episode: None,
    }
}

fn flow() -> GrabFlow {
    GrabFlow::new("Show".to_string(), 2, 3, LangSel::Any, 100)
}

#[test]
fn owned_episode_is_not_downloaded_again() {
    let mut f = flow();
    assert!(matches!(f.step(GrabEvent::Followed), GrabAction::ListFiles));
    match f.step(GrabEvent::Files(vec![(row("ab"), Language::French)])) {
        GrabAction::Finish(g) => {
            assert_eq!((g.infohash.as_str(), g.file_idx, g.already_grabbed), ("ab", 4, true))
        }
        _ => panic!("it is on disk"),
    }
}

#[test]
fn episode_is_downloaded_and_linked() {
    let mut f = flow();
    f.step(GrabEvent::Followed);
    assert!(matches!(f.step(GrabEvent::Files(Vec::new())), GrabAction::Resolve));
    let a = f.step(GrabEvent::ResolvedSingleton(pick("", None)));
    assert!(matches!(a, GrabAction::Ingest(_, Some(3))));
    let t = IngestedTorrent {
        infohash: "cd".to_string(),
        name: None,
        total_size_bytes: 9,
        files: vec![file(5, "e.mkv", 9, None, None)],
        already_managed: false,
    };
    match f.step(GrabEvent::Ingested(t)) {
        GrabAction::StoreTorrent(n) => {
            assert_eq!((n.infohash.as_str(), n.name.as_str()), ("cd", "Show S02E03"))
        }
        _ => panic!("it is stored"),
    }
    assert!(matches!(f.step(GrabEvent::Stored), GrabAction::Assign));
    assert!(matches!(f.step(GrabEvent::Assigned), GrabAction::FindCollection));
    match f.step(GrabEvent::Collection(Some(8))) {
        GrabAction::LinkEpisode(u) => {
            assert_eq!((u.collection_id, u.file_idx, u.absolute_episode), (8, 5, None))
        }
        _ => panic!("it is linked"),
    }
    match f.step(GrabEvent::Linked) {
        GrabAction::Finish(g) => assert_eq!((g.file_idx, g.already_grabbed), (5, false)),
        _ => panic!("it is done"),
    }
}

#[test]
fn pack_without_the_episode_is_not_found() {
    let mut f = flow();
    f.step(GrabEvent::Followed);
    f.step(GrabEvent::Files(Vec::new()));
    assert!(matches!(f.step(GrabEvent::ResolvedPack(pick("m", None))), GrabAction::Ingest(_, None)));
    let t = IngestedTorrent {
        infohash: "cd".to_string(),
        name: None,
        total_size_bytes: 9,
        files: vec![file(5, "e.mkv", 9, Some(2), Some(9))],
        already_managed: false,
    };
    assert!(matches!(f.step(GrabEvent::Ingested(t)), GrabAction::NotFound));
}
