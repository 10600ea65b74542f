use iris::caps::ClientCapabilities;
use iris::config::TranscodeConfig;
use iris::remux::{
    build_remux_plan, decide_video_mode, remux_key, AudioCodec, AudioStream, HdrKind, MediaProbe, VideoCodec,
    VideoMode, VideoStream,
};

fn probe(codec: &str, width: u32, height: u32, bit_depth: u8) -> MediaProbe {
    MediaProbe {
        duration_bits: Some(1200.0f64.to_bits()),
        video: vec![VideoStream {
            codec: codec.into(),
            width: Some(width),
            height: Some(height),
            bit_depth: Some(bit_depth),
            hdr: HdrKind::Sdr,
        }],
        audio: Vec::new(),
    }
}

// A 1440p H.264 file a TV-class decoder (level 4.2 = 1080p) rejects: the
// client only reaches /play after direct play already failed, so a
// stream-copy would hand back the exact frame size it refused → loop. Must
// re-encode (the Transcode path caps output at 1080p).
#[test]
fn downscales_high_res_h264_for_a_real_client() {
    let caps = ClientCapabilities::parse("vdec=h264,hevc-hw; platform=android-tv-14");
    let mode = decide_video_mode(
        &probe("h264", 2560, 1440, 8),
        &caps,
        &TranscodeConfig::default(),
    );
    assert!(
        matches!(mode, VideoMode::Transcode { .. }),
        "1440p must downscale, got {mode:?}",
    );
}

#[test]
fn copies_1080p_h264_directly() {
    let caps = ClientCapabilities::parse("vdec=h264,hevc-hw");
    let mode = decide_video_mode(
        &probe("h264", 1920, 1080, 8),
        &caps,
        &TranscodeConfig::default(),
    );
    assert_eq!(mode, VideoMode::Copy, "1080p H.264 must stream-copy");
}

// The caps-less prewarm hardcodes the bare `infohash_idx` (Copy) key, so it
// MUST resolve to Copy even for a 1440p source — only a real client's
// request triggers the downscale (under its own `_h264` key).
#[test]
fn prewarm_never_transcodes_high_res() {
    let mode = decide_video_mode(
        &probe("h264", 2560, 1440, 8),
        &ClientCapabilities::default(),
        &TranscodeConfig::default(),
    );
    assert_eq!(mode, VideoMode::Copy, "caps-less prewarm stays Copy");
}

#[test]
fn av1_sw_10bit_still_transcodes() {
    let caps = ClientCapabilities::parse("vdec=h264,av1-sw");
    let mode = decide_video_mode(
        &probe("av1", 1920, 1080, 10),
        &caps,
        &TranscodeConfig::default(),
    );
    assert!(
        matches!(mode, VideoMode::Transcode { .. }),
        "10-bit AV1 on a software-only box still transcodes, got {mode:?}",
    );
}

#[test]
fn large_pictures_are_made_smaller_in_h264() {
    let caps = ClientCapabilities::parse("vdec=h264");
    let mut p = probe("hevc", 3840, 2160, 10);
    p.video[0].hdr = HdrKind::Hdr;
    assert_eq!(
        decide_video_mode(&p, &caps, &TranscodeConfig::default()),
        VideoMode::Transcode { codec: VideoCodec::H264, ten_bit: false, tonemap: true },
    );
}

#[test]
fn file_without_video_is_copied() {
    let caps = ClientCapabilities::parse("vdec=h264");
    let p = MediaProbe { duration_bits: None, video: Vec::new(), audio: Vec::new() };
    assert_eq!(decide_video_mode(&p, &caps, &TranscodeConfig::default()), VideoMode::Copy);
}

#[test]
fn first_audio_that_browsers_decode_is_the_default() {
    let caps = ClientCapabilities::parse("vdec=h264");
    let mut p = probe("h264", 1280, 720, 8);
    for (index, language) in [(1, Some("fre")), (2, Some("eng"))] {
        p.audio.push(AudioStream {
            index,
            language: language.map(str::to_string),
            browser_compatible: index == 2,
        });
    }
    let plan = build_remux_plan(&p, &caps, &TranscodeConfig::default());
    assert_eq!(plan.video, VideoMode::Copy);
    assert_eq!(plan.source_video_codec.as_deref(), Some("h264"));
    assert_eq!(plan.audio.len(), 2);
    assert_eq!(plan.audio.iter().filter(|a| a.default).count(), 1);
    assert!(plan.audio[1].default);
    assert_eq!(plan.audio[0].codec, AudioCodec::Aac);
    assert_eq!(plan.audio[1].codec, AudioCodec::Copy);
    p.audio[1].browser_compatible = false;
    assert!(build_remux_plan(&p, &caps, &TranscodeConfig::default()).audio[0].default);
}

#[test]
fn key_is_made_of_torrent_and_file() {
    assert_eq!(remux_key("abc", 12, ""), "abc_12");
    assert_eq!(remux_key("abc", 12, "_h264"), "abc_12_h264");
}

#[test]
fn audio_entries_of_one_language_are_numbered() {
    let caps = ClientCapabilities::parse("vdec=h264");
    let mut p = probe("h264", 1280, 720, 8);
    for (index, language) in [(1, Some("FRE")), (2, None), (3, Some("fre")), (4, Some(""))] {
        p.audio.push(AudioStream {
            index,
            language: language.map(str::to_string),
            browser_compatible: true,
        });
    }
    let plan = build_remux_plan(&p, &caps, &TranscodeConfig::default());
    let names: Vec<&str> = plan.audio.iter().map(|a| a.name.as_str()).collect();
    assert_eq!(names, ["fre", "und", "fre2", "und2"]);
}
