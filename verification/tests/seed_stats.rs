use iris::seed_stats::{
    distinct_providers, no_seed_infohashes, reconcile_once, seed_infohashes, ActiveTorrent,
    SeedPolicy, Snapshot,
};

fn torrent(infohash: &str, provider: Option<&str>) -> ActiveTorrent {
    ActiveTorrent {
        infohash: infohash.to_string(),
        source_provider: provider.map(str::to_string),
    }
}

#[test]
fn torrents_of_silent_providers_leave_the_swarm() {
    let rows = vec![
        torrent("a", Some("p")),
        torrent("b", None),
        torrent("c", Some("q")),
        torrent("d", Some("p")),
    ];
    assert_eq!(distinct_providers(&rows), ["p", "q"]);
    let policies = vec![
        SeedPolicy { provider: "p".to_string(), seeds: false },
        SeedPolicy { provider: "q".to_string(), seeds: true },
    ];
    assert_eq!(no_seed_infohashes(&rows, &policies), ["a", "d"]);
    assert_eq!(seed_infohashes(&rows, &policies), ["c"]);
}

#[test]
fn only_finished_torrents_are_paused() {
    let silent = vec!["a".to_string()];
    let shared = vec!["c".to_string()];
    let snap = |infohash: &str, finished, paused| Snapshot {
        infohash: infohash.to_string(),
        finished,
        paused,
    };
    let r = reconcile_once(&snap("a", true, false), &silent, &shared);
    assert!(r.mark_finished && r.pause);
    let r = reconcile_once(&snap("a", true, true), &silent, &shared);
    assert!(r.mark_finished && !r.pause);
    let r = reconcile_once(&snap("a", false, false), &silent, &shared);
    assert!(!r.mark_finished && !r.pause);
    assert!(!reconcile_once(&snap("b", true, false), &silent, &shared).pause);
}

#[test]
fn torrent_returns_once_its_provider_is_shared() {
    let rows = vec![torrent("a", Some("p")), torrent("b", None)];
    let snap = |infohash: &str, paused| Snapshot {
        infohash: infohash.to_string(),
        finished: true,
        paused,
    };
    let policy = |seeds| vec![SeedPolicy { provider: "p".to_string(), seeds }];
    for (seeds, paused, pause, resume) in [
        (false, false, true, false),
        (false, true, false, false),
        (true, true, false, true),
        (true, false, false, false),
    ] {
        let p = policy(seeds);
        let (silent, shared) = (no_seed_infohashes(&rows, &p), seed_infohashes(&rows, &p));
        let r = reconcile_once(&snap("a", paused), &silent, &shared);
        assert_eq!((r.pause, r.resume), (pause, resume));
        let r = reconcile_once(&snap("b", paused), &silent, &shared);
        assert_eq!((r.pause, r.resume), (false, false));
    }
}
