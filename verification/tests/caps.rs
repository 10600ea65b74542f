use iris::caps::ClientCapabilities;

#[test]
fn parses_typical_web_header() {
    let caps = ClientCapabilities::parse(
        "container=fmp4,mkv,webm; vdec=h264,hevc-hw,av1; adec=aac,opus,flac; \
         subs=webvtt,ass-overlay,pgs-overlay; webcodecs=1; webgpu=1; mse=1; mms=0; \
         hdr=hdr10,hlg; platform=web-chromium-134",
    );
    assert_eq!(caps.containers, ["fmp4", "mkv", "webm"]);
    assert_eq!(caps.video_decoders, ["h264", "hevc-hw", "av1"]);
    assert!(caps.webcodecs);
    assert!(caps.webgpu);
    assert!(caps.mse);
    assert!(!caps.mms);
    assert_eq!(caps.platform.as_deref(), Some("web-chromium-134"));
    assert!(caps.has_container("MKV"));
    assert!(caps.has_video_decoder("hevc-hw"));
}

#[test]
fn preserves_unknown_keys() {
    let caps = ClientCapabilities::parse("future-codec=vvc; container=mp4");
    assert_eq!(caps.extras.get("future-codec").map(String::as_str), Some("vvc"));
    assert!(caps.has_container("mp4"));
}

#[test]
fn ignores_malformed_pairs() {
    let caps = ClientCapabilities::parse(";;junk;=value;key=;container=mp4;");
    assert_eq!(caps.containers, ["mp4"]);
    assert!(caps.extras.is_empty());
}

#[test]
fn pairs_without_a_value_change_nothing() {
    let caps = ClientCapabilities::parse("container=mkv; container= ; platform=p; platform=");
    assert_eq!(caps.containers, ["mkv"]);
    assert_eq!(caps.platform.as_deref(), Some("p"));
}

#[test]
fn order_of_different_keys_is_free() {
    let (x, y) = ("b=1; vdec=av1; a=2", "container=mkv; c=3; webgpu=1");
    let xy = ClientCapabilities::parse(&format!("{x};{y}"));
    let yx = ClientCapabilities::parse(&format!("{y};{x}"));
    assert_eq!(xy.to_header(), yx.to_header());
    assert_eq!(xy.to_header(), "container=mkv; vdec=av1; webgpu=1; a=2; b=1; c=3");
}

#[test]
fn last_pair_of_a_key_wins() {
    let caps = ClientCapabilities::parse("vdec=h264; x=1; mse=1; VDEC=av1,vp9; X=2; mse=0");
    assert_eq!(caps.video_decoders, ["av1", "vp9"]);
    assert_eq!(caps.extras.get("x").map(String::as_str), Some("2"));
    assert!(!caps.mse);
}

#[test]
fn round_trips_through_header() {
    let original = "container=fmp4,mkv; vdec=h264,hevc-hw; webcodecs=1; platform=android-tv-14";
    let caps = ClientCapabilities::parse(original);
    let again = ClientCapabilities::parse(&caps.to_header());
    assert_eq!(caps.containers, again.containers);
    assert_eq!(caps.video_decoders, again.video_decoders);
    assert_eq!(caps.webcodecs, again.webcodecs);
    assert_eq!(caps.platform, again.platform);
}

#[test]
fn boolean_variants() {
    for truthy in ["1", "true", "yes", "on", "TRUE", " 1 "] {
        let caps = ClientCapabilities::parse(&format!("webgpu={truthy}"));
        assert!(caps.webgpu, "expected truthy for {truthy:?}");
    }
    for falsy in ["0", "false", "no", "off", "", "garbage"] {
        let caps = ClientCapabilities::parse(&format!("webgpu={falsy}"));
        assert!(!caps.webgpu, "expected falsy for {falsy:?}");
    }
}

#[test]
fn android_tv_caps() {
    let caps = ClientCapabilities::parse(
        "container=mkv,mp4,ts; vdec=h264,hevc,av1,vp9; adec=aac,ac3,eac3,truehd,dts,flac; \
         subs=webvtt,ass,pgs; platform=android-tv-14",
    );
    assert!(caps.has_audio_decoder("truehd"));
    assert!(caps.has_audio_decoder("DTS"));
    assert!(caps.supports_subtitle("pgs"));
}

#[test]
fn header_is_written_in_full() {
    let caps = ClientCapabilities::parse("zz=9; vdec=h264; container=mkv; webgpu=1; aa=b c");
    assert_eq!(caps.to_header(), "container=mkv; vdec=h264; webgpu=1; aa=b c; zz=9");
    assert_eq!(ClientCapabilities::default().to_header(), "");
}

#[test]
fn header_of_every_field_reads_back() {
    let text = "container=mp4,mkv; vdec=av1-sw; adec=opus; subs=pgs; hdr=hlg; webcodecs=1; \
                webgpu=1; mse=1; mms=1; legacy=1; platform=p; bandwidth=auto; x=y";
    let caps = ClientCapabilities::parse(text);
    let header = caps.to_header();
    let again = ClientCapabilities::parse(&header);
    assert_eq!(again.to_header(), header);
    assert!(again.legacy && again.mms && again.mse);
    assert_eq!(again.bandwidth.as_deref(), Some("auto"));
    assert_eq!(again.extras.len(), 1);
}
