use iris::config::{
    default_transcode_codec, default_transcode_preset, LiveTvConfig, LiveTvOptions,
};
use iris::text_map::TextMap;

fn no_options(table: &toml::Table) -> LiveTvOptions {
    assert!(table.is_empty());
    LiveTvOptions {
        enabled: None,
        default_country: None,
        playlist_url_template: None,
        countries_url: None,
        streams_url: None,
        channels_url: None,
        extra_playlists: None,
        epg_urls: None,
        playlist_refresh_hours: None,
        epg_refresh_hours: None,
        tnt_overrides: None,
        epg_id_overrides: None,
        vavoo_enabled: None,
        vavoo_countries: None,
        tuner: None,
    }
}

fn entries(m: &TextMap<Vec<String>>) -> Vec<(String, Vec<String>)> {
    (0..m.len())
        .map(|i| (m.key_at(i).to_string(), m.value_at(i).clone()))
        .collect()
}

/// A config with no `[live_tv]` section must still ship the curated FR
/// fallback playlists — that's what gives every French channel real
/// cross-provider redundancy out of the box. Locks the default against an
/// accidental empty-map regression.
#[test]
fn livetv_ships_curated_extra_playlists_by_default() {
    let cfg = LiveTvConfig::default();
    let fr = cfg.extra_playlists.get("fr").expect("fr defaults present");
    assert_eq!(fr.len(), 3, "ParaTV + schumijo + Free-TV");
    assert!(fr.iter().any(|u| u.contains("ParaTV")));
    assert!(fr.iter().any(|u| u.contains("schumijo")));
    assert!(cfg.extra_playlists.contains_key("us"));
    assert!(cfg.extra_playlists.contains_key("ie"));
    assert!(cfg.extra_playlists.get("us").unwrap().iter().any(|u| u.contains("usa")));
    assert!(
        cfg.extra_playlists
            .get("ie")
            .unwrap()
            .iter()
            .any(|u| u.contains("ireland"))
    );
    // An empty document (no [live_tv]) yields the same: field defaults fire,
    // so a bare prod config.toml is covered.
    let bare: toml::Table = toml::from_str("").unwrap();
    let bare = LiveTvConfig::from_options(no_options(&bare));
    assert_eq!(entries(&bare.extra_playlists), entries(&cfg.extra_playlists));
}

#[test]
fn given_options_take_the_place_of_defaults() {
    let mut o = no_options(&toml::Table::new());
    o.enabled = Some(false);
    o.default_country = Some("de".to_string());
    o.playlist_refresh_hours = Some(1);
    let cfg = LiveTvConfig::from_options(o);
    assert!(!cfg.enabled);
    assert_eq!(cfg.default_country, "de");
    assert_eq!(cfg.playlist_refresh_hours, 1);
    assert_eq!(LiveTvConfig::default().default_country, "fr");
}

#[test]
fn transcoding_defaults() {
    assert_eq!(default_transcode_codec(), "hevc");
    assert_eq!(default_transcode_preset(), "superfast");
}
