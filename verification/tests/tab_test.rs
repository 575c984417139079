use main_center::tab::{
    accent_css, artwork_for, download_succeeded, artwork_for_text, artwork_source, get_dominant_color,
    label_update_for, label_update_text, ArtworkSource, PlayerTab,
};

fn local(s: &ArtworkSource) -> Option<&str> {
    match s {
        ArtworkSource::LocalFile(p) => Some(p.as_str()),
        _ => None,
    }
}

#[test]
fn dominant_color_is_the_default_accent() {
    assert_eq!(get_dominant_color(180, 180, 4), (78, 154, 240));
    assert_eq!(get_dominant_color(4, 180, 3), (78, 154, 240));
    assert_eq!(get_dominant_color(180, 4, 3), (78, 154, 240));
    assert_eq!(get_dominant_color(180, 180, 2), (78, 154, 240));
    assert_eq!(get_dominant_color(5, 5, 3), (78, 154, 240));
    assert_eq!(get_dominant_color(-1, -1, 0), (78, 154, 240));
}

#[test]
fn file_urls_are_read_locally() {
    let s = artwork_source("file:///home/u/.cache/art.png");
    assert_eq!(local(&s), Some("/home/u/.cache/art.png"));
    let s = artwork_source("file://file:///x.jpg");
    assert_eq!(local(&s), Some("/x.jpg"));
    let s = artwork_source("file://");
    assert_eq!(local(&s), Some(""));
}

#[test]
fn web_urls_are_downloaded() {
    match artwork_source("https://i.scdn.co/image/ab67") {
        ArtworkSource::Download(u) => assert_eq!(u, "https://i.scdn.co/image/ab67"),
        other => panic!("unexpected {:?}", other),
    }
    match artwork_source("http://example.org/a.jpg") {
        ArtworkSource::Download(u) => assert_eq!(u, "http://example.org/a.jpg"),
        other => panic!("unexpected {:?}", other),
    }
}

#[test]
fn other_urls_show_the_placeholder() {
    assert!(matches!(artwork_source("ftp://x/y.png"), ArtworkSource::Unsupported));
    assert!(matches!(artwork_source("/plain/path.png"), ArtworkSource::Unsupported));
    assert!(matches!(artwork_source("FILE:///a"), ArtworkSource::Unsupported));
}

#[test]
fn artwork_for_output() {
    assert!(artwork_for(b"").is_none());
    assert!(artwork_for(b"  \n").is_none());
    let s = artwork_for(b"  file:///a.png\n").unwrap();
    assert_eq!(local(&s), Some("/a.png"));
    assert!(matches!(artwork_for_text("data:xyz\n"), Some(ArtworkSource::Unsupported)));
}

#[test]
fn local_paths_never_keep_the_scheme() {
    for url in ["file://a", "file://file://file://b", "file://"] {
        let s = artwork_source(url);
        assert!(!local(&s).unwrap().starts_with("file://"));
    }
}

#[test]
fn labels_take_the_trimmed_text() {
    assert_eq!(label_update_for(b"  Song Title\n"), Some("Song Title".to_string()));
    assert_eq!(label_update_for(b"\n"), None);
    assert_eq!(label_update_for(b""), None);
    assert_eq!(label_update_text("Artist"), Some("Artist".to_string()));
}

#[test]
fn accent_css_formats_the_color() {
    assert_eq!(
        accent_css((78, 154, 240)),
        "box.content::before { width: 20%; border-color: currentColor; background-color: rgba(78, 154, 240, 0.7); }"
    );
    assert_eq!(
        accent_css((0, 9, 255)),
        "box.content::before { width: 20%; border-color: currentColor; background-color: rgba(0, 9, 255, 0.7); }"
    );
    assert_eq!(
        accent_css((10, 100, 99)),
        format!(
            "box.content::before {{ width: 20%; border-color: currentColor; background-color: rgba({}, {}, {}, 0.7); }}",
            10, 100, 99
        )
    );
}

#[test]
fn player_tab_tracks_its_colour() {
    let mut tab = PlayerTab::new("spotify");
    assert_eq!(tab.player(), "spotify");
    assert_eq!(tab.bar_color(), (78, 154, 240));
    let css = tab.record_art_color((1, 2, 3));
    assert_eq!(css, accent_css((1, 2, 3)));
    assert_eq!(tab.bar_color(), (1, 2, 3));
    assert_eq!(tab.player(), "spotify");
}

#[test]
fn player_tab_stops_when_its_player_is_gone() {
    let tab = PlayerTab::new("spotify");
    assert!(tab.keeps_polling(None));
    assert!(tab.keeps_polling(Some(b"spotify\nvlc\n")));
    assert!(!tab.keeps_polling(Some(b"vlc\n")));
    assert!(!tab.keeps_polling(Some(b"")));
    let vlc = PlayerTab::new("vlc");
    assert!(!vlc.keeps_polling(Some(b"vlc.instance2\n")));
    assert!(vlc.keeps_polling(Some(b"vlc.instance2\nvlc\n")));
}

#[test]
fn downloaded_art_needs_a_successful_download() {
    assert!(download_succeeded(Some(true)));
    assert!(!download_succeeded(Some(false)));
    assert!(!download_succeeded(None));
}
