use iris::api_error::ApiError;
use iris::me::{
    append_grabbable_next_up, change_display_name, change_password, check_new_password,
    continue_watching, continue_watching_owned, has_tile, hash_reply, history_page,
    next_up_follows_watch_order, resolve_file_path, shelf, ContinueWatchingRow, Frontier,
    NextUpCandidate, SHELF_SIZE,
};
use iris::grab_flow::FileEntry;
use iris::password::{hash_password, verify_password, PasswordError};

#[test]
fn same_season_only_immediate_successor() {
    assert!(next_up_follows_watch_order((8, 7), (8, 8), None));
    assert!(!next_up_follows_watch_order((8, 7), (8, 9), None));
    assert!(!next_up_follows_watch_order((8, 7), (8, 7), None));
}

#[test]
fn season_hop_requires_confirmed_finale() {
    // The Rick and Morty bug: S08E07 done, S09E01 freshly on disk while
    // S08E08–E10 aren't. TMDB says S8 runs to E10 → not the finale.
    assert!(!next_up_follows_watch_order((8, 7), (9, 1), Some(10)));
    assert!(next_up_follows_watch_order((8, 10), (9, 1), Some(10)));
    // Odd numbering (specials folded in, TMDB shorter than disk):
    // anything at-or-past the listed finale counts as "season done".
    assert!(next_up_follows_watch_order((8, 12), (9, 1), Some(10)));
}

#[test]
fn season_hop_without_tmdb_confirmation_is_dropped() {
    assert!(!next_up_follows_watch_order((8, 10), (9, 1), None));
}

#[test]
fn only_the_immediate_next_season_opener_qualifies() {
    assert!(!next_up_follows_watch_order((8, 10), (10, 1), Some(10)));
    assert!(!next_up_follows_watch_order((8, 10), (9, 2), Some(10)));
}

#[test]
fn watch_order_survives_the_largest_numbers() {
    assert!(!next_up_follows_watch_order((i64::MAX, i64::MAX), (i64::MAX, i64::MIN), None));
    assert!(!next_up_follows_watch_order((i64::MAX, 1), (i64::MIN, 1), Some(1)));
}

#[test]
fn new_password_has_eight_characters() {
    assert!(check_new_password("1234567").is_err());
    assert!(check_new_password("12345678").is_ok());
    assert!(check_new_password("éééé").is_err());
    assert!(check_new_password("éééééééé").is_ok());
}

#[test]
fn display_name_is_trimmed_and_bounded() {
    assert_eq!(change_display_name("  Ann \t").unwrap(), "Ann");
    match change_display_name(" \n ") {
        Err(ApiError::BadRequest(m)) => assert_eq!(m, "display name cannot be empty"),
        other => panic!("unexpected {other:?}"),
    }
    assert_eq!(change_display_name(&"x".repeat(64)).unwrap().len(), 64);
    assert_eq!(change_display_name(&"é".repeat(64)).unwrap().chars().count(), 64);
    match change_display_name(&"x".repeat(65)) {
        Err(ApiError::BadRequest(m)) => assert_eq!(m, "display name too long (max 64)"),
        other => panic!("unexpected {other:?}"),
    }
}

#[test]
fn password_change_needs_the_old_one() {
    let stored = hash_password("old password").unwrap();
    let new = change_password("old password", "new password", Some(&stored)).unwrap();
    assert!(verify_password("new password", &new).unwrap());
    assert!(matches!(
        change_password("wrong", "new password", Some(&stored)),
        Err(ApiError::Unauthorized)
    ));
    assert!(matches!(
        change_password("old password", "new password", None),
        Err(ApiError::Unauthorized)
    ));
    assert!(matches!(
        change_password("old password", "short", Some(&stored)),
        Err(ApiError::BadRequest(_))
    ));
    match change_password("old password", "new password", Some("no hash")) {
        Err(ApiError::Internal(m)) => assert!(m.starts_with("verify: argon2 error: ")),
        other => panic!("unexpected {other:?}"),
    }
}

#[test]
fn history_pages_are_bounded() {
    assert_eq!(history_page(None, None), (50, 0));
    assert_eq!(history_page(Some(0), Some(-3)), (1, 0));
    assert_eq!(history_page(Some(1000), Some(7)), (200, 7));
}

fn file(index: usize, path: &str) -> FileEntry {
    FileEntry {
        index,
        path: path.to_string(),
        size_bytes: 1,
        season: None,
        episode: None,
    }
}

#[test]
fn file_path_is_found_by_index() {
    let files = vec![file(3, "a.mkv"), file(0, "b.mkv")];
    assert_eq!(resolve_file_path(Some(&files), 0).as_deref(), Some("b.mkv"));
    assert_eq!(resolve_file_path(Some(&files), 1), None);
    assert_eq!(resolve_file_path(Some(&files), -1), None);
    assert_eq!(resolve_file_path(None, 0), None);
}

#[test]
fn failed_hashing_is_an_internal_error() {
    assert_eq!(hash_reply(Ok("$h".to_string())).unwrap(), "$h");
    match hash_reply(Err(PasswordError::Argon2("out of memory".to_string()))) {
        Err(ApiError::Internal(m)) => assert_eq!(m, "hash: argon2 error: out of memory"),
        other => panic!("unexpected {other:?}"),
    }
}

fn row(collection_id: Option<u128>, last_watched_at: i64) -> ContinueWatchingRow {
    ContinueWatchingRow {
        infohash: format!("hash-{last_watched_at}"),
        torrent_name: "name".to_string(),
        tmdb_id: None,
        tmdb_verified: false,
        file_idx: 0,
        position_bits: 1,
        duration_bits: None,
        last_watched_at,
        completed: false,
        audio_track_idx: None,
        subtitle_track_idx: None,
        kind: None,
        collection_id,
        next_up: false,
        season: None,
        episode: None,
        grabbable: false,
    }
}

fn next_up(collection_id: u128, last_watched_at: i64, next: (i64, i64)) -> NextUpCandidate {
    NextUpCandidate {
        row: row(Some(collection_id), last_watched_at),
        prev_season: 1,
        prev_episode: 1,
        next_season: next.0,
        next_episode: next.1,
        finale: None,
    }
}

fn frontier(collection_id: u128, last_watched_at: i64) -> Frontier {
    Frontier {
        collection_id,
        display_title: "Series".to_string(),
        tmdb_id: Some(4),
        prev_season: 2,
        prev_episode: 8,
        last_watched_at,
    }
}

fn tiles(rows: &[ContinueWatchingRow]) -> Vec<(Option<u128>, i64)> {
    rows.iter().map(|r| (r.collection_id, r.last_watched_at)).collect()
}

#[test]
fn series_appears_once_on_the_shelf() {
    let resume = || vec![row(Some(1), 10), row(None, 50), row(Some(2), 20), row(None, 5)];
    let candidates = || vec![next_up(1, 30, (1, 2)), next_up(2, 15, (1, 2)), next_up(3, 60, (1, 5))];
    let owned = continue_watching(resume(), candidates(), None);
    assert_eq!(tiles(&owned), [(None, 50), (Some(1), 30), (Some(2), 20), (None, 5)]);
    let frontiers = vec![
        (frontier(2, 99), Some((2, 9))),
        (frontier(7, 40), Some((2, 9))),
        (frontier(8, 41), None),
        (frontier(7, 70), Some((3, 1))),
    ];
    let filled = continue_watching(resume(), candidates(), Some(frontiers));
    assert_eq!(
        tiles(&filled),
        [(None, 50), (Some(7), 40), (Some(1), 30), (Some(2), 20), (None, 5)]
    );
    assert!(filled[1].grabbable && filled[1].next_up && filled[1].tmdb_verified);
    assert_eq!((filled[1].season, filled[1].episode), (Some(2), Some(9)));
}

#[test]
fn shelf_filled_one_by_one_is_the_same() {
    let mut rows = continue_watching_owned(vec![row(Some(1), 10)], Vec::new());
    assert!(has_tile(&rows, 1) && !has_tile(&rows, 7));
    append_grabbable_next_up(&mut rows, vec![(frontier(7, 40), Some((2, 9)))]);
    assert!(has_tile(&rows, 7));
    assert_eq!(tiles(&shelf(rows)), [(Some(7), 40), (Some(1), 10)]);
}

#[test]
fn shelf_is_cut_to_its_size() {
    let resume = (0..20).map(|i| row(None, i)).collect();
    let cut = continue_watching(resume, Vec::new(), None);
    assert_eq!(cut.len(), SHELF_SIZE);
    assert_eq!((cut[0].last_watched_at, cut[11].last_watched_at), (19, 8));
}
