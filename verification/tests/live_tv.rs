use iris::api_error::ApiError;
use iris::live_tv::{
    check_playlist, country_code, live_channel, live_failure, live_logo, live_proxy, playlist_head,
    Channel, LiveTvError, ProxyStep,
};

#[test]
fn failures_are_told_apart() {
    assert!(matches!(live_failure(LiveTvError::UnknownCountry), ApiError::NotFound));
    assert!(matches!(live_failure(LiveTvError::UnknownChannel), ApiError::NotFound));
    assert!(matches!(live_failure(LiveTvError::BadProxyRequest), ApiError::BadRequest(m) if m == "invalid proxy request"));
    assert!(matches!(live_failure(LiveTvError::Upstream("x".into())), ApiError::Upstream(m) if m == "x"));
}

#[test]
fn best_known_quality_is_shown() {
    let channel = |q: Vec<Option<u32>>| Channel {
        id: "c".to_string(),
        name: "C".to_string(),
        categories: Vec::new(),
        source_qualities: q,
        geo_blocked: false,
        not_24_7: true,
        tnt_number: Some(1),
    };
    let c = live_channel(channel(vec![Some(720), None, Some(1080), Some(480)]), None);
    assert_eq!((c.quality, c.not_24_7, c.tnt_number), (Some(1080), true, Some(1)));
    assert_eq!(live_channel(channel(vec![None]), None).quality, None);
    assert_eq!(country_code("FR"), "fr");
}

fn step(status: u16, upstream: Option<&str>, path: &str) -> (Option<bool>, ProxyStep) {
    live_proxy(false, status, upstream.map(str::to_string), path)
}

#[test]
fn segments_are_passed_through() {
    for (path, ty) in [
        ("/a/b.TS", "video/mp2t"),
        ("/a/b.m4s", "video/mp4"),
        ("/b.mp4", "video/mp4"),
        ("/b.aac", "audio/aac"),
        ("/b", "application/octet-stream"),
        ("/b.key", "application/octet-stream"),
    ] {
        let (noted, s) = step(200, None, path);
        assert_eq!(noted, Some(true));
        assert!(matches!(s, ProxyStep::Stream(t) if t == ty));
    }
    assert!(matches!(step(206, Some("x/y"), "/b.ts").1, ProxyStep::Stream(t) if t == "x/y"));
}

#[test]
fn failures_are_passed_on() {
    let (noted, s) = step(404, None, "/b.ts");
    assert_eq!(noted, Some(false));
    assert!(matches!(s, ProxyStep::PassStatus(404)));
    let (noted, s) = live_proxy(true, 503, None, "/b.m3u8");
    assert_eq!(noted, None);
    assert!(matches!(s, ProxyStep::PassStatus(503)));
    assert!(matches!(live_proxy(true, 200, None, "/b.m3u8"), (None, ProxyStep::Rewrite)));
}

#[test]
fn playlists_are_bounded() {
    assert!(check_playlist(10, 10).is_ok());
    assert!(matches!(check_playlist(11, 10), Err(ApiError::Upstream(m)) if m == "playlist too large"));
    assert_eq!(playlist_head(), ("application/vnd.apple.mpegurl".to_string(), "no-store".to_string()));
}

#[test]
fn logos_are_kept_for_a_day() {
    let h = live_logo(200, "image/png".to_string());
    assert_eq!((h.status, h.cache_control.as_str()), (200, "public, max-age=86400"));
    assert_eq!(h.content_type.as_deref(), Some("image/png"));
    let h = live_logo(429, "x".to_string());
    assert_eq!((h.status, h.cache_control.as_str(), h.content_type), (404, "public, max-age=300", None));
}
