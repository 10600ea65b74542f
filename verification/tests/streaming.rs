use iris::streaming::{
    asset_cache_control, build_headers, guess_hls_mime, mime_for_filename, parse_range,
    response_head, serve_after_wait, serve_file_with_range, serve_stream, visible_text,
    wait_for_size, ServePlan,
};

fn range(s: &str, total: u64) -> Option<(u64, u64)> {
    parse_range(&s.as_bytes().to_vec(), total)
}

#[test]
fn ranges_are_read() {
    assert_eq!(range("bytes=0-99", 1000), Some((0, 99)));
    assert_eq!(range("bytes=900-", 1000), Some((900, 999)));
    assert_eq!(range("bytes=-100", 1000), Some((900, 999)));
    assert_eq!(range("bytes=0-5000", 1000), Some((0, 999)));
    assert_eq!(range("bytes=-5000", 1000), Some((0, 999)));
}

#[test]
fn broken_ranges_are_refused() {
    for s in ["", "bytes=", "bytes=-", "items=0-1", "bytes=a-b", "bytes=5-4", "bytes=1000-"] {
        assert_eq!(range(s, 1000), None, "{s}");
    }
    assert_eq!(range("bytes=0-0", 0), None);
    assert_eq!(parse_range(&vec![0xff, 0xfe], 10), None);
}

#[test]
fn header_text_is_visible_ascii() {
    assert_eq!(visible_text(&b"a\tb~".to_vec()).as_deref(), Some("a\tb~"));
    assert_eq!(visible_text(&vec![10]), None);
    assert_eq!(visible_text(&vec![127]), None);
    assert_eq!(visible_text(&vec![]).as_deref(), Some(""));
}

#[test]
fn complete_file_is_served_at_once() {
    assert_eq!(serve_file_with_range(None, 0, 50), ServePlan::Whole { total: 50 });
    assert_eq!(
        serve_file_with_range(Some(b"bytes=10-19".to_vec()), 0, 50),
        ServePlan::Partial { start: 10, end: 19, len: 10, total: 50 },
    );
    assert_eq!(
        serve_stream(Some(b"bytes=x".to_vec()), 50),
        ServePlan::Invalid { total: 50 },
    );
}

#[test]
fn growing_file_is_clipped_or_awaited() {
    assert_eq!(
        serve_file_with_range(Some(b"bytes=10-90".to_vec()), 100, 50),
        ServePlan::Partial { start: 10, end: 49, len: 40, total: 100 },
    );
    assert_eq!(
        serve_file_with_range(Some(b"bytes=60-90".to_vec()), 100, 50),
        ServePlan::Await { start: 60, end: 90, total: 100 },
    );
    assert_eq!(serve_after_wait(60, 90, 100, 60), ServePlan::PastEnd { total: 100 });
    assert_eq!(
        serve_after_wait(60, 90, 100, 61),
        ServePlan::Partial { start: 60, end: 60, len: 1, total: 100 },
    );
    assert_eq!(wait_for_size(9, 10, false), None);
    assert_eq!(wait_for_size(9, 10, true), Some(9));
    assert_eq!(wait_for_size(10, 10, false), Some(10));
}

fn value<'a>(h: &'a [(String, String)], name: &str) -> Option<&'a str> {
    h.iter().find(|(n, _)| n.eq_ignore_ascii_case(name)).map(|(_, v)| v.as_str())
}

#[test]
fn headers_tell_what_is_served() {
    let h = build_headers(10, "video/mp4", Some((10, 19, 50)));
    assert_eq!(value(&h, "content-range"), Some("bytes 10-19/50"));
    assert_eq!(value(&h, "content-length"), Some("10"));
    assert_eq!(value(&h, "content-type"), Some("video/mp4"));
    let h = build_headers(50, "video/mp4", None);
    assert_eq!(value(&h, "content-range"), None);
}

#[test]
fn responses_have_the_right_status() {
    let r = response_head(ServePlan::Whole { total: 5 }, "video/mp4").unwrap();
    assert_eq!(r.status, 200);
    let r = response_head(ServePlan::Partial { start: 0, end: 1, len: 2, total: 5 }, "video/mp4");
    assert_eq!(r.unwrap().status, 206);
    let r = response_head(ServePlan::Invalid { total: 5 }, "video/mp4").unwrap();
    assert_eq!(r.status, 416);
    assert_eq!(value(&r.headers, "content-range"), Some("bytes */5"));
    let r = response_head(ServePlan::PastEnd { total: 5 }, "video/mp4").unwrap();
    assert_eq!(r.status, 416);
    assert!(response_head(ServePlan::Await { start: 1, end: 2, total: 5 }, "x").is_none());
}

#[test]
fn types_follow_names() {
    assert_eq!(guess_hls_mime("master.m3u8"), "application/vnd.apple.mpegurl");
    assert!(mime_for_filename("A/B.MKV").starts_with("video/"));
    assert_eq!(mime_for_filename("a.mp4"), "video/mp4");
    assert!(asset_cache_control("master.m3u8").contains("no"));
}
