use iris::api_error::ApiError;
use iris::error::Error;
use iris::grab_flow::FileEntry;
use iris::search::TorrentSource;
use iris::torrents::{
    asset_outcome, checked_infohash, file_idx_to_i64, file_idx_to_u32, find_file, ingest_guard,
    manifest_json, manifest_request, map_engine_err, map_probe_err, map_provider_err, play_asset,
    playhead_window_bytes, prefetch_plan, preview, probe_file, put_progress, release_of_bytes,
    serve_subtitle, tmdb_to_verify, torrent_finished, unknown_provider, EngineError, PrefetchPlan,
    Presence, PreviousProgress, ProgressUpdate, SubtitlePlan, Swarm,
};

fn bad_request(e: ApiError) -> String {
    match e {
        ApiError::BadRequest(m) => m,
        other => panic!("unexpected {other:?}"),
    }
}

#[test]
fn infohashes_are_hexadecimal() {
    assert_eq!(checked_infohash("ABCdef09").unwrap(), "abcdef09");
    assert_eq!(bad_request(checked_infohash("xyz").unwrap_err()), "invalid infohash");
}

#[test]
fn file_indices_are_converted() {
    assert_eq!(file_idx_to_i64(7), 7);
    assert_eq!(file_idx_to_u32(7).unwrap(), 7);
    assert_eq!(
        bad_request(file_idx_to_u32(usize::MAX).unwrap_err()),
        "file index too large",
    );
    assert_eq!(file_idx_to_i64(usize::MAX), i64::MAX);
}

#[test]
fn engine_errors_are_told_apart() {
    assert!(matches!(map_engine_err(EngineError::NotFound), ApiError::NotFound));
    assert!(matches!(map_engine_err(EngineError::FileOutOfRange), ApiError::NotFound));
    assert!(matches!(map_engine_err(EngineError::Other("x".into())), ApiError::Internal(_)));
}

#[test]
fn provider_errors_are_told_apart() {
    assert_eq!(bad_request(map_provider_err(Error::NotFound("x".into()))), "provider: x");
    assert_eq!(bad_request(map_provider_err(Error::Provider("x".into()))), "provider: x");
    assert_eq!(bad_request(map_provider_err(Error::InvalidInput("x".into()))), "x");
    for (e, text) in [
        (Error::Unauthorized, "unauthorized"),
        (Error::Forbidden, "forbidden"),
        (Error::Conflict("x".into()), "conflict: x"),
        (Error::ProviderRefused("x".into()), "provider refused the request: x"),
        (Error::Internal("x".into()), "internal: x"),
    ] {
        assert!(matches!(map_provider_err(e), ApiError::Internal(m) if m == text));
    }
    assert_eq!(bad_request(unknown_provider("p")), "unknown provider `p`");
}

#[test]
fn probe_errors_may_mean_not_yet() {
    let m = "EBML header parsing failed";
    assert_eq!(
        bad_request(map_probe_err(m, false)),
        "file not yet on disk: download in progress (EBML header parsing failed)",
    );
    assert!(matches!(map_probe_err(m, true), ApiError::Internal(t) if t == "ffprobe: EBML header parsing failed"));
    assert!(matches!(map_probe_err("other", false), ApiError::Internal(_)));
}

fn report(position: f64, seek: bool, completed: bool, playing: Option<bool>) -> ProgressUpdate {
    ProgressUpdate {
        position_bits: position.to_bits(),
        duration_bits: None,
        audio_track_idx: None,
        subtitle_track_idx: None,
        completed,
        playing,
        seek,
    }
}

#[test]
fn progress_is_not_lost_to_a_restart() {
    let prev = || Some(PreviousProgress { completed: false, well_in: true });
    let p = put_progress("AB", 3, report(1.0, false, false, None), true, prev()).unwrap();
    assert!(p.record.is_none());
    assert_eq!((p.infohash.as_str(), p.file_idx, p.remux_key.as_str()), ("ab", 3, "ab_3"));
    assert_eq!(p.presence, Presence::Playing);
    let p = put_progress("ab", 3, report(1.0, true, false, Some(false)), true, prev()).unwrap();
    assert_eq!(p.record.unwrap().position_bits, 1.0f64.to_bits());
    assert_eq!(p.presence, Presence::Paused);
    let p = put_progress("ab", 3, report(1.0, false, true, None), true, prev()).unwrap();
    assert!(p.record.unwrap().completed);
    assert_eq!(p.presence, Presence::Leave);
    let seen = Some(PreviousProgress { completed: true, well_in: true });
    assert!(put_progress("ab", 3, report(1.0, false, false, None), true, seen).unwrap().record.is_some());
    assert!(put_progress("zz", 3, report(1.0, false, false, None), true, None).is_err());
}

#[test]
fn unknown_providers_are_refused() {
    assert!(ingest_guard(true, "p", None).is_ok());
    assert_eq!(bad_request(ingest_guard(false, "p", None).unwrap_err()), "unknown provider `p`");
}

#[test]
fn links_may_lead_to_magnets() {
    match release_of_bytes(b"magnet:?xt=1 \n".to_vec()) {
        TorrentSource::Magnet(m) => assert_eq!(m, "magnet:?xt=1"),
        other => panic!("unexpected {other:?}"),
    }
    assert!(matches!(release_of_bytes(b"d8:announce".to_vec()), TorrentSource::TorrentFile(_)));
    let mut broken = b"magnet:".to_vec();
    broken.push(0xff);
    assert!(matches!(release_of_bytes(broken), TorrentSource::TorrentFile(_)));
    assert!(preview(TorrentSource::TorrentFile(vec![1])).is_ok());
    assert!(preview(TorrentSource::Magnet("m".into())).is_err());
}

fn file(index: usize, path: &str, size_bytes: u64) -> FileEntry {
    FileEntry {
        index,
        path: path.to_string(),
        size_bytes,
        season: None,
        episode: None,
    }
}

#[test]
fn files_are_found_by_index() {
    let files = vec![file(4, "a", 1), file(2, "b", 1)];
    assert_eq!(find_file(&files, 2).unwrap(), 1);
    assert!(matches!(find_file(&files, 0), Err(ApiError::NotFound)));
}

#[test]
fn head_and_tail_are_fetched_first() {
    assert_eq!(prefetch_plan(true, 5), None);
    assert_eq!(
        prefetch_plan(false, 2_000_000),
        Some(PrefetchPlan { header_count: 65_536, tail_start: 951_424, tail_count: 1_048_576 }),
    );
    assert_eq!(prefetch_plan(false, 10).unwrap().tail_start, 0);
}

#[test]
fn stalled_torrents_are_reported() {
    let dead = || {
        Some(Swarm { finished: false, peers: 0, download_speed_bps: 0, percent: "12".to_string() })
    };
    match probe_file(false, 0, dead(), true, "/x") {
        Err(ApiError::Conflict(m)) => assert_eq!(
            m,
            "stalled: no seeders for this file (12% downloaded, 0 peers, 0 B/s) — nothing to read yet",
        ),
        other => panic!("unexpected {other:?}"),
    }
    assert!(probe_file(true, 0, dead(), true, "/x").is_ok());
    assert!(probe_file(false, 1, dead(), true, "/x").is_ok());
    assert_eq!(bad_request(probe_file(true, 0, None, false, "/x").unwrap_err()), "file not yet on disk: /x");
    assert!(torrent_finished(true, Some(false)) && torrent_finished(false, Some(true)));
    assert!(!torrent_finished(false, None));
}

#[test]
fn manifests_are_made_of_known_files() {
    let files = vec![file(0, "a.mkv", 100)];
    let m = manifest_request("AB", 0, true, Some(&files)).unwrap();
    assert_eq!((m.infohash.as_str(), m.position), ("ab", 0));
    assert!(matches!(manifest_request("ab", 0, false, Some(&files)), Err(ApiError::NotFound)));
    assert!(matches!(manifest_request("ab", 0, true, None), Err(ApiError::NotFound)));
    assert!(matches!(manifest_request("ab", 1, true, Some(&files)), Err(ApiError::NotFound)));
    let i = manifest_json("ab".to_string(), 0, &files[0], 500).unwrap();
    assert_eq!((i.file_idx, i.size_bytes, i.bytes_complete), (0, 100, 100));
    assert_eq!(manifest_json("ab".to_string(), 0, &files[0], 5).unwrap().bytes_complete, 5);
}

#[test]
fn playhead_window_is_bounded() {
    assert_eq!(playhead_window_bytes(None), 67_108_864);
    assert_eq!(playhead_window_bytes(Some(1)), 8_388_608);
    assert_eq!(playhead_window_bytes(Some(9_000_000)), 9_000_000);
    assert_eq!(playhead_window_bytes(Some(u64::MAX)), 268_435_456);
}

#[test]
fn only_unverified_entries_are_verified() {
    assert_eq!(tmdb_to_verify(false, Some(5)), Some(5));
    assert_eq!(tmdb_to_verify(true, Some(5)), None);
    assert_eq!(tmdb_to_verify(false, Some(0)), None);
    assert_eq!(tmdb_to_verify(false, None), None);
}

#[test]
fn assets_need_a_name_and_a_file() {
    assert!(asset_outcome(true, true).is_ok());
    assert!(asset_outcome(false, true).is_err());
    assert!(asset_outcome(true, false).is_err());
    assert!(matches!(play_asset(false, Ok(()), true, None, true, "/x"), Err(ApiError::NotFound)));
    assert!(play_asset(true, Ok(()), true, None, true, "/x").is_ok());
}

#[test]
fn subtitles_are_kept_once_complete() {
    assert!(matches!(serve_subtitle(true, true, true, true), Ok(SubtitlePlan::Cached)));
    assert!(matches!(
        serve_subtitle(true, true, false, false),
        Ok(SubtitlePlan::Extract { keep: true })
    ));
    for (finished, cached, marked) in
        [(false, true, true), (true, false, true), (true, true, false)]
    {
        match serve_subtitle(true, finished, cached, marked) {
            Ok(SubtitlePlan::Extract { keep }) => assert_eq!(keep, finished),
            other => panic!("unexpected {other:?}"),
        }
    }
    assert!(serve_subtitle(false, true, false, false).is_err());
}
