use std::time::Duration;

use blinc::assets::{join, AssetPath, FilesystemAssetLoader};
use blinc::image::{ImageFormat, ImageSource};
use blinc::theme::{scheme_from_gtk_theme, scheme_from_setting, ColorScheme, WatcherConfig};
use blinc::timeline::Easing;
use blinc::tokens::{AnimationToken, AnimationTokens};
use blinc::typography::{FontFamily, FontWeight};

#[test]
fn test_asset_path_from_string() {
    let relative: AssetPath = "images/logo.png".to_string().into();
    assert!(matches!(relative, AssetPath::Relative(_)));

    let absolute: AssetPath = "/absolute/path.png".to_string().into();
    assert!(matches!(absolute, AssetPath::Absolute(_)));
}

#[test]
fn test_watcher_config_default() {
    let config = WatcherConfig::default();
    assert_eq!(config.poll_interval, Duration::from_secs(1));
    assert!(config.auto_start);
}

#[test]
fn test_watcher_config_builder() {
    let config = WatcherConfig::new()
        .poll_interval(Duration::from_secs(5))
        .auto_start(false);

    assert_eq!(config.poll_interval, Duration::from_secs(5));
    assert!(!config.auto_start);
}

#[test]
fn loader_resolves_against_base() {
    let loader = FilesystemAssetLoader::with_base_path("/srv/assets");
    assert_eq!(loader.resolve_path(&AssetPath::relative("img/a.png")), "/srv/assets/img/a.png");
    assert_eq!(loader.resolve_path(&AssetPath::absolute("/etc/x")), "/etc/x");
    assert_eq!(loader.resolve_path(&AssetPath::embedded("logo")), "/srv/assets/logo");
    let plain = FilesystemAssetLoader::new();
    assert_eq!(plain.resolve_path(&AssetPath::relative("img/a.png")), "img/a.png");
    assert_eq!(plain.platform_name(), "filesystem");
}

#[test]
fn join_follows_path_rules() {
    assert_eq!(join("a/", "b"), "a/b");
    assert_eq!(join("a", "b"), "a/b");
    assert_eq!(join("", "b"), "b");
    assert_eq!(join("a", "/b"), "/b");
}

#[test]
fn image_sources_from_uris() {
    assert!(matches!(ImageSource::from_uri("data:image/png;base64,AAAA"), ImageSource::Base64(s) if s == "data:image/png;base64,AAAA"));
    assert!(matches!(ImageSource::from_uri("https://x.org/a.png"), ImageSource::Url(s) if s == "https://x.org/a.png"));
    assert!(matches!(ImageSource::from_uri("http://x.org/a.png"), ImageSource::Url(_)));
    assert!(matches!(ImageSource::from_uri("file:///tmp/a.png"), ImageSource::File(s) if s == "/tmp/a.png"));
    assert!(matches!(ImageSource::from_uri("pics/a.png"), ImageSource::File(s) if s == "pics/a.png"));
    assert!(matches!(ImageSource::bytes_with_format(vec![1, 2], ImageFormat::Gif), ImageSource::Bytes { format: Some(ImageFormat::Gif), .. }));
    assert!(matches!(ImageSource::bytes(vec![]), ImageSource::Bytes { format: None, .. }));
}

#[test]
fn image_formats_by_extension_and_mime() {
    assert_eq!(ImageFormat::from_extension("PNG"), Some(ImageFormat::Png));
    assert_eq!(ImageFormat::from_extension("JpEg"), Some(ImageFormat::Jpeg));
    assert_eq!(ImageFormat::from_extension("tiff"), None);
    assert_eq!(ImageFormat::from_lowercase_extension("WEBP"), None);
    assert_eq!(ImageFormat::from_lowercase_extension("webp"), Some(ImageFormat::WebP));
    assert_eq!(ImageFormat::from_mime("image/jpg"), Some(ImageFormat::Jpeg));
    assert_eq!(ImageFormat::from_mime("image/bmp"), Some(ImageFormat::Bmp));
    assert_eq!(ImageFormat::from_mime("IMAGE/PNG"), None);
}

#[test]
fn fonts_and_schemes() {
    let sans = FontFamily::system_sans();
    assert_eq!(sans.name, "system-ui");
    assert_eq!(sans.fallbacks.len(), 7);
    assert_eq!(FontFamily::system_mono().fallbacks.last().unwrap(), "monospace");
    assert_eq!(FontFamily::system_serif().name, "ui-serif");
    assert_eq!(FontFamily::new("X", vec!["a", "b"]).fallbacks, vec!["a".to_string(), "b".to_string()]);
    assert_eq!(FontWeight::Bold.as_u16(), 700);
    assert_eq!(FontWeight::default().as_u16(), 400);
    assert_eq!(ColorScheme::Light.toggle(), ColorScheme::Dark);
    assert_eq!(ColorScheme::Dark.toggle().toggle(), ColorScheme::Dark);
}

#[test]
fn gtk_theme_and_setting_pick_the_scheme() {
    assert_eq!(scheme_from_gtk_theme("Adwaita:DARK"), Some(ColorScheme::Dark));
    assert_eq!(scheme_from_gtk_theme("Adwaita"), None);
    assert_eq!(scheme_from_setting("'prefer-dark'\n"), Some(ColorScheme::Dark));
    assert_eq!(scheme_from_setting("'default'\n"), Some(ColorScheme::Light));
    assert_eq!(scheme_from_setting("'prefer-light'"), Some(ColorScheme::Light));
    assert_eq!(scheme_from_setting(""), None);
}

#[test]
fn animation_tokens_give_durations() {
    let t = AnimationTokens::default();
    assert_eq!(t.get(AnimationToken::DurationFastest), 75);
    assert_eq!(t.get(AnimationToken::DurationNormal), 200);
    assert_eq!(t.get(AnimationToken::DurationSlowest), 500);
    assert_eq!(t.ease_default, Easing::default());
}
