use main_center::controller::{fade_finished, no_players_text, now_playing_line_for, now_playing_text};
use main_center::MprisController;

fn names(v: &[&str]) -> Vec<String> {
    v.iter().map(|s| s.to_string()).collect()
}

#[test]
fn new_panel_is_collapsed_and_empty() {
    let c = MprisController::new();
    assert!(!c.is_expanded());
    assert!(c.compact_shown());
    assert!(!c.expanded_shown());
    assert!(c.player_tabs().is_empty());
    assert_eq!(c.current_player(), None);
    assert_eq!(c.dominant_color(), (78, 154, 240));
}

#[test]
fn first_refresh_opens_a_tab_per_player() {
    let mut c = MprisController::new();
    let plan = c.refresh(&names(&["spotify", "vlc"]));
    assert_eq!(plan.open_tabs, names(&["spotify", "vlc"]));
    assert!(plan.close_tabs.is_empty());
    assert!(!plan.collapse);
    assert!(!plan.no_players);
    assert_eq!(plan.activate, Some("spotify".to_string()));
    assert_eq!(c.player_tabs(), names(&["spotify", "vlc"]));
    assert_eq!(c.current_player(), Some("spotify".to_string()));
}

#[test]
fn refresh_closes_gone_players_and_opens_new_ones() {
    let mut c = MprisController::new();
    c.refresh(&names(&["spotify", "vlc"]));
    let plan = c.refresh(&names(&["vlc", "mpv"]));
    assert_eq!(plan.close_tabs, names(&["spotify"]));
    assert_eq!(plan.open_tabs, names(&["mpv"]));
    assert_eq!(plan.activate, Some("vlc".to_string()));
    assert_eq!(c.player_tabs(), names(&["vlc", "mpv"]));
    assert_eq!(c.current_player(), Some("vlc".to_string()));
}

#[test]
fn refresh_with_same_players_changes_nothing() {
    let mut c = MprisController::new();
    c.refresh(&names(&["spotify", "vlc"]));
    let before = c.player_tabs();
    let plan = c.refresh(&names(&["spotify", "vlc"]));
    assert!(plan.close_tabs.is_empty());
    assert!(plan.open_tabs.is_empty());
    assert_eq!(plan.activate, None);
    assert!(!plan.collapse);
    assert_eq!(c.player_tabs(), before);
}

#[test]
fn reordered_players_change_only_the_active_one() {
    let mut c = MprisController::new();
    c.refresh(&names(&["spotify", "vlc"]));
    let plan = c.refresh(&names(&["vlc", "spotify"]));
    assert!(plan.close_tabs.is_empty());
    assert!(plan.open_tabs.is_empty());
    assert_eq!(plan.activate, Some("vlc".to_string()));
    assert_eq!(c.player_tabs(), names(&["spotify", "vlc"]));
}

#[test]
fn repeated_player_gets_one_tab() {
    let mut c = MprisController::new();
    let plan = c.refresh(&names(&["vlc", "vlc", "mpv", "vlc"]));
    assert_eq!(plan.open_tabs, names(&["vlc", "mpv"]));
    assert_eq!(c.player_tabs(), names(&["vlc", "mpv"]));
}

#[test]
fn losing_all_players_closes_tabs_and_collapses() {
    let mut c = MprisController::new();
    c.refresh(&names(&["spotify", "vlc"]));
    c.header_clicked();
    assert!(c.is_expanded());
    let plan = c.refresh(&Vec::new());
    assert!(plan.no_players);
    assert_eq!(plan.close_tabs, names(&["spotify", "vlc"]));
    assert!(plan.collapse);
    assert!(plan.open_tabs.is_empty());
    assert_eq!(plan.activate, None);
    assert!(!c.is_expanded());
    assert!(c.compact_shown());
    assert!(!c.expanded_shown());
    assert!(c.player_tabs().is_empty());
    assert_eq!(c.current_player(), None);
}

#[test]
fn returning_player_gets_a_single_tab() {
    let mut c = MprisController::new();
    let first = c.refresh(&names(&["spotify"]));
    assert_eq!(first.open_tabs, names(&["spotify"]));
    let gone = c.refresh(&Vec::new());
    assert_eq!(gone.close_tabs, names(&["spotify"]));
    let back = c.refresh(&names(&["spotify"]));
    assert!(back.close_tabs.is_empty());
    assert_eq!(back.open_tabs, names(&["spotify"]));
    assert_eq!(back.activate, Some("spotify".to_string()));
    assert_eq!(c.player_tabs(), names(&["spotify"]));
}

#[test]
fn losing_all_players_while_collapsed_does_not_collapse() {
    let mut c = MprisController::new();
    c.refresh(&names(&["spotify"]));
    let plan = c.refresh(&Vec::new());
    assert_eq!(plan.close_tabs, names(&["spotify"]));
    assert!(!plan.collapse);
    assert!(c.compact_shown());
}

#[test]
fn no_players_collapses_an_expanded_panel_without_tabs() {
    let mut c = MprisController::new();
    c.header_clicked();
    let plan = c.refresh(&Vec::new());
    assert!(plan.no_players);
    assert!(plan.close_tabs.is_empty());
    assert!(plan.collapse);
    assert!(!c.is_expanded());
    assert!(!c.expanded_shown());
    assert!(c.compact_shown());
}

#[test]
fn empty_refresh_twice_is_quiet() {
    let mut c = MprisController::new();
    c.refresh(&names(&["a"]));
    c.header_clicked();
    c.refresh(&Vec::new());
    let plan = c.refresh(&Vec::new());
    assert!(plan.close_tabs.is_empty());
    assert!(!plan.collapse);
}

#[test]
fn expand_collapse_and_fade_restore_the_compact_view() {
    let mut c = MprisController::new();
    c.refresh(&names(&["vlc"]));
    c.header_clicked();
    assert!(c.is_expanded());
    assert!(c.expanded_shown());
    assert!(!c.compact_shown());
    c.collapse_clicked();
    assert!(!c.is_expanded());
    assert!(c.is_fading_out());
    assert!(c.expanded_shown());
    assert!(!c.compact_shown());
    c.fade_out_finished();
    assert!(!c.is_fading_out());
    assert!(!c.is_expanded());
    assert!(c.compact_shown());
    assert!(!c.expanded_shown());
    assert_eq!(c.player_tabs(), names(&["vlc"]));
    assert_eq!(c.current_player(), Some("vlc".to_string()));
}

#[test]
fn exactly_one_view_is_shown() {
    let mut c = MprisController::new();
    let steps: Vec<u8> = vec![0, 1, 2, 3, 0, 3, 1, 2, 2, 0, 0, 3];
    for s in steps {
        match s {
            0 => c.header_clicked(),
            1 => c.collapse_clicked(),
            2 => c.fade_out_finished(),
            _ => {
                c.refresh(&Vec::new());
            }
        }
        assert!(c.compact_shown() != c.expanded_shown());
        if !c.is_fading_out() {
            assert_eq!(c.expanded_shown(), c.is_expanded());
            assert_eq!(c.compact_shown(), !c.is_expanded());
        }
    }
}

#[test]
fn fade_end_without_fade_changes_nothing() {
    let mut c = MprisController::new();
    c.header_clicked();
    c.fade_out_finished();
    assert!(c.is_expanded());
    assert!(c.expanded_shown());
    assert!(!c.compact_shown());
}

#[test]
fn now_playing_line() {
    assert_eq!(now_playing_text("spotify", b"Artist - Song\n"), "Spotify: Artist - Song");
    assert_eq!(now_playing_text("vlc", b"\n"), "VLC: Playing");
    assert_eq!(now_playing_text("kodi", b""), "Kodi: Playing");
    assert_eq!(now_playing_line_for("", "  x  "), "Unknown: x");
}

#[test]
fn no_players_line() {
    assert_eq!(no_players_text(), "No media players available");
}

#[test]
fn fades_last_300_ms() {
    assert!(!fade_finished(0));
    assert!(!fade_finished(299));
    assert!(fade_finished(300));
    assert!(fade_finished(u128::MAX));
}

#[test]
fn header_click_during_fade_out_keeps_the_fade_out() {
    let mut c = MprisController::new();
    c.header_clicked();
    c.collapse_clicked();
    assert!(c.is_fading_out());
    c.header_clicked();
    assert!(c.is_expanded());
    assert!(c.expanded_shown());
    assert!(c.is_fading_out());
    c.fade_out_finished();
    assert!(c.is_expanded());
    assert!(c.compact_shown());
    assert!(!c.expanded_shown());
    assert!(!c.is_fading_out());
}
