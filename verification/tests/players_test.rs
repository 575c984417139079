use main_center::players::{
    capitalized_name, get_player_display_name, get_player_icon_name, listed_in,
    parse_player_list, player_names_in, still_listed,
};

#[test]
fn display_name_of_known_players() {
    assert_eq!(get_player_display_name("spotify.instance12345"), "Spotify");
    assert_eq!(get_player_display_name("spotify"), "Spotify");
    assert_eq!(get_player_display_name("firefox.instance_1_42"), "Firefox");
    assert_eq!(get_player_display_name("chromium.instance7"), "Chrome");
    assert_eq!(get_player_display_name("chrome"), "Chrome");
    assert_eq!(get_player_display_name("vlc"), "VLC");
    assert_eq!(get_player_display_name("rhythmbox"), "Rhythmbox");
    assert_eq!(get_player_display_name("mpv.instance3"), "MPV");
    assert_eq!(get_player_display_name("audacious"), "Audacious");
    assert_eq!(get_player_display_name("clementine"), "Clementine");
    assert_eq!(get_player_display_name("plasma-browser-integration"), "Web Browser");
}

#[test]
fn display_name_capitalizes_other_players() {
    assert_eq!(get_player_display_name("kodi"), "Kodi");
    assert_eq!(get_player_display_name("elisa.instance2"), "Elisa.instance2");
    assert_eq!(get_player_display_name("élisa"), "Élisa");
    assert_eq!(get_player_display_name("ßplayer"), "SSplayer");
    assert_eq!(get_player_display_name("Kodi"), "Kodi");
    assert_eq!(get_player_display_name("x"), "X");
}

#[test]
fn display_name_is_checked_in_order() {
    // "spotifyd" starts with "spotify": the well-known name wins.
    assert_eq!(get_player_display_name("spotifyd"), "Spotify");
    // A prefix must stand at the start.
    assert_eq!(get_player_display_name("my-vlc"), "My-vlc");
    assert_eq!(get_player_display_name("SPOTIFY"), "SPOTIFY");
}

#[test]
fn display_name_of_empty_identifier() {
    assert_eq!(get_player_display_name(""), "Unknown");
}

#[test]
fn display_names_are_never_empty() {
    for p in ["", "a", "spotify", "vlc", " ", "\n", "ü"] {
        assert!(!get_player_display_name(p).is_empty());
    }
}

#[test]
fn capitalized_name_joins_upper_first_and_rest() {
    assert_eq!(capitalized_name("kodi", &['K']), "Kodi");
    assert_eq!(capitalized_name("ßx", &['S', 'S']), "SSx");
    assert_eq!(capitalized_name("a", &['A']), "A");
}

#[test]
fn icon_names_of_players() {
    assert_eq!(get_player_icon_name("spotify.instance1"), "spotify-symbolic");
    assert_eq!(get_player_icon_name("firefox"), "firefox-symbolic");
    assert_eq!(get_player_icon_name("chromium"), "chrome-symbolic");
    assert_eq!(get_player_icon_name("chrome.instance9"), "chrome-symbolic");
    assert_eq!(get_player_icon_name("vlc"), "vlc-symbolic");
    assert_eq!(get_player_icon_name("rhythmbox"), "rhythmbox-symbolic");
    assert_eq!(get_player_icon_name("mpv"), "mpv-symbolic");
    assert_eq!(get_player_icon_name("plasma-browser-integration"), "applications-internet-symbolic");
    assert_eq!(get_player_icon_name("somebrowser"), "applications-internet-symbolic");
    assert_eq!(get_player_icon_name("audacious"), "audio-x-generic-symbolic");
    assert_eq!(get_player_icon_name(""), "audio-x-generic-symbolic");
}

#[test]
fn icon_names_are_symbolic() {
    for p in ["", "spotify", "firefox", "chrome", "vlc", "rhythmbox", "mpv", "x-browser", "kodi"] {
        assert!(get_player_icon_name(p).ends_with("-symbolic"));
    }
}

#[test]
fn player_list_is_read_line_by_line() {
    assert_eq!(parse_player_list(b"spotify\nvlc\n"), vec!["spotify", "vlc"]);
    assert_eq!(parse_player_list(b"spotify"), vec!["spotify"]);
    assert_eq!(parse_player_list(b"a\n\n\nb\n"), vec!["a", "b"]);
}

#[test]
fn player_list_of_blank_output_is_empty() {
    assert!(parse_player_list(b"").is_empty());
    assert!(parse_player_list(b"   \n\t\n").is_empty());
    assert!(parse_player_list(b"No players found\n").len() == 1);
}

#[test]
fn player_list_keeps_inner_spaces() {
    assert_eq!(player_names_in("  a \n b  "), vec!["a ", " b"]);
    assert_eq!(player_names_in("\r\nvlc\r\n"), vec!["vlc"]);
}

#[test]
fn player_list_decodes_invalid_bytes_lossily() {
    assert_eq!(parse_player_list(b"ab\xffc\n"), vec!["ab\u{FFFD}c"]);
}

#[test]
fn player_names_are_single_nonempty_lines() {
    for text in ["", "\n\n", "a\nb", " x \n\n y ", "p\n \nq"] {
        for name in player_names_in(text) {
            assert!(!name.is_empty());
            assert!(!name.contains('\n'));
        }
    }
}

#[test]
fn still_listed_needs_a_whole_line() {
    assert!(still_listed(b"spotify.instance1\nvlc\n", "vlc"));
    assert!(!still_listed(b"spotify.instance1\nvlc\n", "mpv"));
    assert!(!still_listed(b"spotify.instance1\n", "spot"));
    assert!(!still_listed(b"vlc.instance2\n", "vlc"));
    assert!(still_listed(b"  vlc  \n", "vlc"));
    assert!(!still_listed(b"", "vlc"));
    assert!(!still_listed(b"\n", ""));
    assert!(listed_in("firefox\n", "firefox"));
    assert!(!listed_in("fire", "firefox"));
}
