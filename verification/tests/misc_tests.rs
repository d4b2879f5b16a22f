use sra_core::announcement::{announcement_lang_code, Announcement};
use sra_core::settings::CESettings;
use sra_core::wallpaper::{
    get_current_wallpaper, mime_for_extension, wallpaper_data_url, WallpaperSettings,
};

#[test]
fn language_tags_pick_the_served_language() {
    assert_eq!(announcement_lang_code("zh"), "zh");
    assert_eq!(announcement_lang_code("zh-CN"), "zh");
    assert_eq!(announcement_lang_code("en-US"), "en");
    assert_eq!(announcement_lang_code("z"), "en");
    assert_eq!(announcement_lang_code(""), "en");
}

#[test]
fn announcements_carry_title_and_content() {
    let a = Announcement { title: "News".to_string(), content: "Body".to_string() };
    let b = a.clone();
    assert_eq!(b.title, "News");
    assert_eq!(b.content, "Body");
}

#[test]
fn edition_settings_default_to_no_wallpaper() {
    let s = CESettings::default();
    assert!(s.wallpaper_path.is_none());
}

#[test]
fn current_wallpaper_follows_the_stored_file() {
    let stored = WallpaperSettings { wallpaper_path: Some("cache/wallpaper.png".to_string()) };
    assert_eq!(
        get_current_wallpaper(&stored, true),
        (Some("cache/wallpaper.png".to_string()), false)
    );
    // A stored path whose file vanished yields nothing and asks for a reset.
    assert_eq!(get_current_wallpaper(&stored, false), (None, true));
    let empty = WallpaperSettings { wallpaper_path: None };
    assert_eq!(get_current_wallpaper(&empty, true), (None, false));
}

#[test]
fn image_extensions_map_to_mime_labels() {
    assert_eq!(mime_for_extension("png"), "image/png");
    assert_eq!(mime_for_extension("jpg"), "image/jpeg");
    assert_eq!(mime_for_extension("jpeg"), "image/jpeg");
    assert_eq!(mime_for_extension("webp"), "image/webp");
    assert_eq!(mime_for_extension("gif"), "image/gif");
    assert_eq!(mime_for_extension("bmp"), "image/jpeg");
}

#[test]
fn data_urls_carry_mime_and_payload() {
    assert_eq!(wallpaper_data_url("image/png", "QUJD"), "data:image/png;base64,QUJD");
}
