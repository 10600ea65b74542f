use std::cmp::Ordering;

use iris::grab::{
    best_available, build_reprime_query, find_pack_offer, majority_tag, offer_cmp,
    pick_live_singleton, refresh_offer_liveness, tag_rank, AvailableEpisodeRow, GrabProfile,
    LiveRelease,
};
use iris::language::{LangSel, Language};
use iris::search::SearchResult;
use iris::text_map::TextMap;

#[test]
fn tag_rank_orders_match_untagged_mismatch() {
    assert_eq!(tag_rank(Some("1080p"), Some("1080p")), 0);
    assert_eq!(tag_rank(Some("1080P"), Some("1080p")), 0);
    assert_eq!(tag_rank(None, Some("1080p")), 1);
    assert_eq!(tag_rank(Some("2160p"), Some("1080p")), 2);
    // No preference: everything is equally fine.
    assert_eq!(tag_rank(Some("2160p"), None), 0);
    assert_eq!(tag_rank(None, None), 0);
}

const GIB: i64 = 1_073_741_824;

fn offer(seeders: i64, size_gib: i64, quality: &str, codec: &str) -> AvailableEpisodeRow {
    AvailableEpisodeRow {
        id: 1,
        normalized_name: "test".into(),
        season: 4,
        episode: 1,
        indexer_provider: "test".into(),
        indexer_torrent_id: quality.into(),
        magnet: String::new(),
        quality: Some(quality.into()),
        seeders: Some(seeders),
        size_bytes: Some(size_gib * GIB),
        found_at: 1_700_000_000_000,
        language_tag: Some("french".into()),
        language: Language::French,
        download_url: None,
        absolute_episode: None,
        codec: Some(codec.into()),
    }
}

fn profile_1080_hevc() -> GrabProfile {
    GrabProfile {
        quality: Some("1080p".into()),
        codec: Some("hevc".into()),
    }
}

#[test]
fn quality_match_beats_smaller_mismatch() {
    // 8 GiB 1080p (profile match) must rank ahead of a lighter 720p.
    let matching = offer(50, 8, "1080p", "hevc");
    let lighter_mismatch = offer(50, 4, "720p", "hevc");
    let p = profile_1080_hevc();
    assert_eq!(offer_cmp(&matching, &lighter_mismatch, &p), Ordering::Less,);
}

#[test]
fn quality_match_beats_healthy_2160p_even_when_low_seeded() {
    // The user's rule: 2160p has no business beating 1080p when the
    // series is established in 1080p — a slow (1 seeder, still
    // alive) 1080p download beats a well-seeded 4K monster.
    let slow_match = offer(1, 8, "1080p", "hevc");
    let healthy_mismatch = offer(200, 40, "2160p", "hevc");
    let p = profile_1080_hevc();
    assert_eq!(
        offer_cmp(&slow_match, &healthy_mismatch, &p),
        Ordering::Less
    );
}

#[test]
fn junk_size_guard_outranks_quality_match() {
    // A sample-sized file tagged "1080p" must never win, even
    // against a format mismatch.
    let junk = AvailableEpisodeRow {
        size_bytes: Some(10 * 1024 * 1024),
        ..offer(500, 0, "1080p", "hevc")
    };
    let real_mismatch = offer(50, 8, "720p", "h264");
    let p = profile_1080_hevc();
    assert_eq!(offer_cmp(&real_mismatch, &junk, &p), Ordering::Less);
}

#[test]
fn codec_match_breaks_quality_tie() {
    // Both 1080p: the hevc release (profile codec) wins even a bit heavier.
    let hevc = offer(50, 9, "1080p", "hevc");
    let h264 = offer(50, 8, "1080p", "h264");
    let p = profile_1080_hevc();
    assert_eq!(offer_cmp(&hevc, &h264, &p), Ordering::Less);
}

#[test]
fn no_profile_falls_back_to_recommended_policy() {
    // Without preferences the smallest sane release wins.
    let small = offer(50, 4, "720p", "h264");
    let big = offer(200, 8, "1080p", "hevc");
    let p = GrabProfile {
        quality: None,
        codec: None,
    };
    assert_eq!(offer_cmp(&small, &big, &p), Ordering::Less);
}

#[test]
fn majority_tag_breaks_ties_deterministically() {
    let mut counts = TextMap::new();
    counts.insert("1080p".to_string(), 2);
    counts.insert("2160p".to_string(), 2);
    assert_eq!(majority_tag(counts), Some("1080p".to_string()));
    assert_eq!(majority_tag(TextMap::new()), None);
}

#[test]
fn majority_tag_takes_the_most_frequent() {
    let mut counts = TextMap::new();
    counts.insert("2160p".to_string(), 3);
    counts.insert("1080p".to_string(), 2);
    counts.insert("480p".to_string(), 1);
    assert_eq!(majority_tag(counts), Some("2160p".to_string()));
}

#[test]
fn best_offer_is_picked_in_the_wanted_language() {
    let english = AvailableEpisodeRow {
        language: Language::English,
        indexer_torrent_id: "en".into(),
        ..offer(50, 1, "1080p", "hevc")
    };
    let rows = vec![offer(50, 8, "1080p", "hevc"), english];
    let p = profile_1080_hevc();
    let picked = best_available(rows.clone(), &LangSel::Exact(Language::French), &p);
    assert_eq!(picked.map(|o| o.indexer_torrent_id), Some("1080p".to_string()));
    let picked = best_available(rows.clone(), &LangSel::Any, &p);
    assert_eq!(picked.map(|o| o.indexer_torrent_id), Some("en".to_string()));
    assert!(best_available(rows, &LangSel::Exact(Language::Multi), &p).is_none());
}

#[test]
fn pack_offer_tells_whether_it_is_sane() {
    let p = profile_1080_hevc();
    let dead = vec![offer(0, 8, "1080p", "hevc")];
    let found = find_pack_offer(dead, &LangSel::Any, &p);
    assert_eq!(found.map(|(o, sane)| (o.indexer_provider, sane)), Some(("test".to_string(), false)));
    let alive = vec![offer(9, 8, "1080p", "hevc")];
    assert!(find_pack_offer(alive, &LangSel::Any, &p).unwrap().1);
}

#[test]
fn episode_query_names_season_and_episode() {
    let q = build_reprime_query("Some Show", 4, Some(11), "some show".to_string());
    assert_eq!(q.q, "Some Show S04E11");
    assert_eq!((q.season, q.episode), (Some(4), Some(11)));
    let q = build_reprime_query("Some Show", 4, None, "some show".to_string());
    assert_eq!(q.q, "Some Show S04");
    assert_eq!(q.episode, None);
}

fn live(id: &str, seeders: u32) -> LiveRelease {
    LiveRelease {
        result: SearchResult {
            provider_id: "test".to_string(),
            external_id: id.to_string(),
            title: "T".to_string(),
            year: None,
            size_bytes: Some(GIB as u64),
            seeders: Some(seeders),
            leechers: None,
            infohash: None,
            magnet: None,
            category: None,
            tags: Vec::new(),
            freeleech: false,
            uploader: None,
            uploaded_at: None,
            tmdb_id: None,
            kind: None,
            poster_url: None,
            already_in_library: false,
            library_infohash: None,
            library_file_idx: None,
            language: None,
            download_url: None,
        },
        language: Language::French,
        quality: None,
        codec: None,
        codec_tag: "unknown".to_string(),
        absolute_episode: None,
    }
}

#[test]
fn confirmed_dead_releases_are_not_picked() {
    let p = profile_1080_hevc();
    let pick = |found| pick_live_singleton("test", &LangSel::Any, &p, 4, 1, found);
    assert!(pick(vec![live("1080p", 0)]).is_none());
    let (taken, record) = pick(vec![live("1080p", 0), live("720p", 3)]).unwrap();
    assert_eq!((taken.indexer_torrent_id.as_str(), record.seeders), ("720p", Some(3)));
    let rows = vec![offer(50, 8, "1080p", "hevc"), offer(3, 8, "720p", "hevc")];
    let updates = refresh_offer_liveness(&rows, &vec![live("1080p", 0), live("720p", 3)]);
    assert_eq!(updates, [(1, 0)]);
    let left = vec![offer(3, 8, "720p", "hevc")];
    assert_eq!(best_available(left, &LangSel::Any, &p).unwrap().indexer_torrent_id, "720p");
}
