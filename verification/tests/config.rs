use image_rs::config::{
    default_font_dir, dir_has_font, first_usable_font_dir, font_dir_candidates, Config,
    EnvSettings, FontDirListing, LogFormat,
};

fn listing(path: &str, entries: Option<Vec<&str>>) -> FontDirListing {
    FontDirListing {
        path: path.to_string(),
        entries: entries.map(|v| v.into_iter().map(|s| s.to_string()).collect()),
    }
}

#[test]
fn first_usable_font_dir_returns_none_when_all_missing() {
    let candidates = vec![listing("/nonexistent/a", None), listing("/nonexistent/b", None)];
    assert_eq!(first_usable_font_dir(&candidates), None);
}

#[test]
fn first_usable_font_dir_picks_first_match() {
    let candidates = vec![
        listing("/this/path/definitely/does/not/exist", None),
        listing("/tmp/image_rs_font_test", Some(vec!["fake.ttf"])),
        listing("/another/missing/path", None),
    ];
    assert_eq!(first_usable_font_dir(&candidates), Some("/tmp/image_rs_font_test".to_string()));
}

#[test]
fn first_usable_font_dir_skips_dir_without_fonts() {
    let candidates = vec![listing("/tmp/image_rs_empty_dir_test", Some(vec!["not-a-font.txt"]))];
    assert_eq!(first_usable_font_dir(&candidates), None);
}

#[test]
fn font_extensions_are_case_insensitive() {
    assert!(dir_has_font(&["A.TTF".to_string()]));
    assert!(dir_has_font(&["b.OtF".to_string()]));
    assert!(!dir_has_font(&[".ttf".to_string(), "ttf".to_string(), "a.ttf.bak".to_string()]));
    assert!(dir_has_font(&["x.y.otf".to_string()]));
}

#[test]
fn default_font_dir_falls_back_to_local_fonts() {
    let candidates = vec![listing("/usr/share/fonts", Some(vec![]))];
    assert_eq!(default_font_dir(&candidates), "./fonts");
    let with_font = vec![listing("/a", None), listing("/b", Some(vec!["x.otf"]))];
    assert_eq!(default_font_dir(&with_font), "/b");
}

#[test]
fn candidates_start_with_local_fonts() {
    let c = font_dir_candidates();
    assert_eq!(c.len(), 10);
    assert_eq!(c[0], "./fonts");
    assert_eq!(c[9], "/usr/share/fonts");
}

#[test]
fn log_format_is_json_only_when_asked() {
    assert_eq!(LogFormat::parse("JSON"), LogFormat::Json);
    assert_eq!(LogFormat::parse("json"), LogFormat::Json);
    assert_eq!(LogFormat::parse("text"), LogFormat::Text);
    assert_eq!(LogFormat::parse("yaml"), LogFormat::Text);
}

#[test]
fn unset_settings_take_their_defaults() {
    let c = Config::from_settings(EnvSettings::default(), 4, "./fonts".to_string()).unwrap();
    assert_eq!(c.bind_addr, "0.0.0.0:8080");
    assert_eq!(c.log_level, "info,tower_http=info");
    assert_eq!(c.log_format, LogFormat::Text);
    assert_eq!(c.max_upload_bytes, 20971520);
    assert_eq!(c.max_pixels, 67108864);
    assert_eq!(c.max_concurrent_jobs, 8);
    assert_eq!(c.request_timeout_secs, 30);
    assert_eq!(c.mask_cache_capacity, 256);
    assert_eq!(c.font_dir, "./fonts");
    assert_eq!(c.image_store_root, "./images");
    assert_eq!(c.result_cache_capacity, 1024);
    assert_eq!(c.ui_dir, "./web/dist");
}

#[test]
fn settings_override_defaults() {
    let env = EnvSettings {
        max_pixels: Some("100".to_string()),
        font_dir: Some("/fonts".to_string()),
        log_format: Some("Json".to_string()),
        ..EnvSettings::default()
    };
    let c = Config::from_settings(env, 1, "./fonts".to_string()).unwrap();
    assert_eq!(c.max_pixels, 100);
    assert_eq!(c.font_dir, "/fonts");
    assert_eq!(c.log_format, LogFormat::Json);
    assert_eq!(c.max_concurrent_jobs, 2);
}

#[test]
fn bad_number_names_its_setting() {
    let env = EnvSettings { mask_cache: Some("many".to_string()), ..EnvSettings::default() };
    let e = Config::from_settings(env, 1, String::new()).unwrap_err();
    assert_eq!(e.key, "IMAGE_RS_MASK_CACHE");
    assert_eq!(e.value, "many");
}
