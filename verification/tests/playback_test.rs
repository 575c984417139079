use main_center::playback::{
    icon_after_skip, icon_after_skip_text, icon_for_status, icon_for_status_text,
    toggled_play_icon, PlayIcon,
};

#[test]
fn icon_names_of_the_button() {
    assert_eq!(PlayIcon::Start.icon_name(), "media-playback-start-symbolic");
    assert_eq!(PlayIcon::Pause.icon_name(), "media-playback-pause-symbolic");
}

#[test]
fn click_toggles_the_button() {
    assert_eq!(toggled_play_icon(Some("media-playback-pause-symbolic")), PlayIcon::Start);
    assert_eq!(toggled_play_icon(Some("media-playback-start-symbolic")), PlayIcon::Pause);
    assert_eq!(toggled_play_icon(None), PlayIcon::Pause);
    assert_eq!(toggled_play_icon(Some("view-restore-symbolic")), PlayIcon::Pause);
}

#[test]
fn two_clicks_give_back_the_face() {
    for icon in [PlayIcon::Start, PlayIcon::Pause] {
        let once = toggled_play_icon(Some(icon.icon_name().as_str()));
        assert_ne!(once, icon);
        let twice = toggled_play_icon(Some(once.icon_name().as_str()));
        assert_eq!(twice, icon);
    }
}

#[test]
fn status_gives_the_face() {
    assert_eq!(icon_for_status(b"Playing\n"), PlayIcon::Pause);
    assert_eq!(icon_for_status(b"  Playing  "), PlayIcon::Pause);
    assert_eq!(icon_for_status(b"Paused\n"), PlayIcon::Start);
    assert_eq!(icon_for_status(b"Stopped\n"), PlayIcon::Start);
    assert_eq!(icon_for_status(b""), PlayIcon::Start);
    assert_eq!(icon_for_status(b"playing"), PlayIcon::Start);
    assert_eq!(icon_for_status_text("Playing"), PlayIcon::Pause);
}

#[test]
fn status_after_a_skip() {
    assert_eq!(icon_after_skip(b"Playing\n"), Some(PlayIcon::Pause));
    assert_eq!(icon_after_skip(b"Paused\n"), Some(PlayIcon::Start));
    assert_eq!(icon_after_skip(b"\n"), None);
    assert_eq!(icon_after_skip(b""), None);
    assert_eq!(icon_after_skip_text(" Stopped "), Some(PlayIcon::Start));
}

#[test]
fn skip_face_agrees_with_status_face() {
    for s in ["Playing", "Paused", "", " ", "Stopped\n", "\tPlaying\n"] {
        match icon_after_skip_text(s) {
            Some(i) => assert_eq!(i, icon_for_status_text(s)),
            None => assert!(s.trim().is_empty()),
        }
    }
}
