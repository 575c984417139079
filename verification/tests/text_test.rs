use main_center::commands::{download_args, list_players_args, playerctl_args, PlayerRequest};
use main_center::text::{
    chars_of, is_white_space, push_decimal, same_text, string_of, strip_leading_repeats, text_contains,
    text_starts_with, trim,
};

#[test]
fn chars_round_trip() {
    for s in ["", "abc", "héllo wörld", "🎵 x"] {
        let cs = chars_of(s);
        assert_eq!(cs, s.chars().collect::<Vec<char>>());
        assert_eq!(string_of(&cs), s);
    }
}

#[test]
fn trim_removes_outer_whitespace() {
    assert_eq!(trim("  a b \n"), "a b");
    assert_eq!(trim("\t\r\n"), "");
    assert_eq!(trim(""), "");
    assert_eq!(trim("\u{A0}x\u{2003}"), "x");
    assert_eq!(trim("x"), "x");
}

#[test]
fn prefixes_and_pieces() {
    assert!(text_starts_with("spotify.instance", "spotify"));
    assert!(text_starts_with("abc", ""));
    assert!(!text_starts_with("spot", "spotify"));
    assert!(text_contains("plasma-browser", "browser"));
    assert!(text_contains("abc", ""));
    assert!(!text_contains("abc", "abcd"));
    assert!(!text_contains("abc", "ac"));
    assert!(same_text("a", "a"));
    assert!(!same_text("a", "ab"));
}

#[test]
fn strip_removes_every_leading_repeat() {
    assert_eq!(strip_leading_repeats("file://file://x", "file://"), "x");
    assert_eq!(strip_leading_repeats("x file://", "file://"), "x file://");
    assert_eq!(strip_leading_repeats("abc", ""), "abc");
    assert_eq!(strip_leading_repeats("ababa", "ab"), "a");
}

#[test]
fn decimal_digits() {
    for n in [0u8, 7, 10, 99, 100, 255] {
        let mut s = String::from("v=");
        push_decimal(&mut s, n);
        assert_eq!(s, format!("v={}", n));
    }
}

#[test]
fn playerctl_command_lines() {
    assert_eq!(playerctl_args(None, PlayerRequest::PlayPause), vec!["play-pause"]);
    assert_eq!(playerctl_args(None, PlayerRequest::Previous), vec!["previous"]);
    assert_eq!(playerctl_args(None, PlayerRequest::Next), vec!["next"]);
    assert_eq!(playerctl_args(None, PlayerRequest::Status), vec!["status"]);
    assert_eq!(playerctl_args(Some("vlc"), PlayerRequest::Status), vec!["-p", "vlc", "status"]);
    assert_eq!(
        playerctl_args(Some("spotify"), PlayerRequest::NowPlaying),
        vec!["-p", "spotify", "metadata", "--format", "{{ artist }} - {{ title }}"]
    );
    assert_eq!(playerctl_args(Some("a"), PlayerRequest::Title), vec!["-p", "a", "metadata", "title"]);
    assert_eq!(playerctl_args(Some("a"), PlayerRequest::Artist), vec!["-p", "a", "metadata", "artist"]);
    assert_eq!(playerctl_args(Some("a"), PlayerRequest::ArtUrl), vec!["-p", "a", "metadata", "mpris:artUrl"]);
    assert_eq!(playerctl_args(Some("a"), PlayerRequest::Position), vec!["-p", "a", "position"]);
    assert_eq!(playerctl_args(Some("a"), PlayerRequest::Length), vec!["-p", "a", "metadata", "mpris:length"]);
    assert_eq!(playerctl_args(Some("a"), PlayerRequest::PlayPause), vec!["-p", "a", "play-pause"]);
    assert_eq!(list_players_args(), vec!["-l"]);
}

#[test]
fn download_command_line() {
    assert_eq!(
        download_args("/home/u/.cache/main_center/current_art.png", "https://x/y.jpg"),
        vec!["-s", "-o", "/home/u/.cache/main_center/current_art.png", "https://x/y.jpg"]
    );
}

#[test]
fn white_space_agrees_with_std() {
    for n in 0u32..0x11000 {
        if let Some(c) = char::from_u32(n) {
            assert_eq!(is_white_space(c), c.is_whitespace(), "at U+{:04X}", n);
        }
    }
    assert!(!is_white_space('\u{10FFFF}'));
}
