//! The play/pause button: which icon it shows for a playback status, and how a
//! click flips it.
use vstd::prelude::*;
use crate::text::{from_utf8_lossy, lossy_utf8, same_text, trim, trimmed};

verus! {

broadcast use vstd::string::group_string_axioms;

/// The two faces of the play/pause button.
#[derive(Clone, Copy, Debug, PartialEq, Eq, Structural)]
pub enum PlayIcon {
    /// "media-playback-start-symbolic": nothing is playing, a click starts playback.
    Start,
    /// "media-playback-pause-symbolic": something is playing, a click pauses it.
    Pause,
}

/// The themed icon name of a face of the button.
pub open spec fn play_icon_name(icon: PlayIcon) -> Seq<char> {
    match icon {
        PlayIcon::Start => "media-playback-start-symbolic"@,
        PlayIcon::Pause => "media-playback-pause-symbolic"@,
    }
}

/// The face a click shows, given the icon name the button shows now: a
/// button that shows "pause" turns to "start", any other turns to "pause".
pub open spec fn toggled(current: Option<Seq<char>>) -> PlayIcon {
    if current == Some(play_icon_name(PlayIcon::Pause)) {
        PlayIcon::Start
    } else {
        PlayIcon::Pause
    }
}

/// Whether the text that `playerctl status` printed says that the player is playing.
pub open spec fn says_playing(status: Seq<char>) -> bool {
    trimmed(status) == "Playing"@
}

/// The face for a status: "pause" while playing, "start" otherwise.
pub open spec fn status_icon(status: Seq<char>) -> PlayIcon {
    if says_playing(status) {
        PlayIcon::Pause
    } else {
        PlayIcon::Start
    }
}

/// The face shown after a skip to the previous or next track: as for the status,
/// but the button is left alone when the status is empty.
pub open spec fn skip_icon(status: Seq<char>) -> Option<PlayIcon> {
    if says_playing(status) {
        Some(PlayIcon::Pause)
    } else if trimmed(status).len() > 0 {
        Some(PlayIcon::Start)
    } else {
        None
    }
}

impl PlayIcon {
    /// The themed icon name of this face.
    pub fn icon_name(&self) -> (name: String)
        ensures
            name@ == play_icon_name(*self),
    {
        match self {
            PlayIcon::Start => "media-playback-start-symbolic".to_string(),
            PlayIcon::Pause => "media-playback-pause-symbolic".to_string(),
        }
    }
}

/// The face the play/pause button turns to when clicked, given the icon name it
/// shows now (if any).
pub fn toggled_play_icon(current: Option<&str>) -> (icon: PlayIcon)
    ensures
        icon == toggled(
            match current {
                Some(c) => Some(c@),
                None => None,
            },
        ),
{
    match current {
        Some(c) => {
            if same_text(c, "media-playback-pause-symbolic") {
                PlayIcon::Start
            } else {
                PlayIcon::Pause
            }
        },
        None => PlayIcon::Pause,
    }
}

/// Whether a status text says "Playing", once trimmed.
fn is_playing_text(status: &str) -> (r: bool)
    ensures
        r == says_playing(status@),
{
    let t = trim(status);
    same_text(t.as_str(), "Playing")
}

/// The face for the text that `playerctl status` printed.
pub fn icon_for_status_text(status: &str) -> (icon: PlayIcon)
    ensures
        icon == status_icon(status@),
{
    if is_playing_text(status) {
        PlayIcon::Pause
    } else {
        PlayIcon::Start
    }
}

/// The face for the output of `playerctl status`.
pub fn icon_for_status(stdout: &[u8]) -> (icon: PlayIcon)
    ensures
        icon == status_icon(lossy_utf8(stdout@)),
{
    let text = from_utf8_lossy(stdout);
    icon_for_status_text(text.as_str())
}

/// The face after a skip, for the text that `playerctl status` printed; `None`
/// leaves the button as it is.
pub fn icon_after_skip_text(status: &str) -> (icon: Option<PlayIcon>)
    ensures
        icon == skip_icon(status@),
{
    let t = trim(status);
    if same_text(t.as_str(), "Playing") {
        Some(PlayIcon::Pause)
    } else if t.as_str().is_empty() {
        None
    } else {
        Some(PlayIcon::Start)
    }
}

/// The face after a skip, for the output of `playerctl status`.
pub fn icon_after_skip(stdout: &[u8]) -> (icon: Option<PlayIcon>)
    ensures
        icon == skip_icon(lossy_utf8(stdout@)),
{
    let text = from_utf8_lossy(stdout);
    icon_after_skip_text(text.as_str())
}

/// Clicking flips the button between its two faces: from "start" it goes to
/// "pause", from "pause" to "start", so two clicks give back the face shown
/// before them.
pub proof fn click_flips_face(icon: PlayIcon)
    ensures
        toggled(Some(play_icon_name(icon))) != icon,
        toggled(Some(play_icon_name(toggled(Some(play_icon_name(icon)))))) == icon,
{
    reveal_strlit("media-playback-start-symbolic");
    reveal_strlit("media-playback-pause-symbolic");
    assert(play_icon_name(PlayIcon::Start)[15] != play_icon_name(PlayIcon::Pause)[15]);
}

/// The face set right after a skip never disagrees with the face the periodic
/// status check sets, and the button is left alone only for an empty status.
pub proof fn skip_agrees_with_status(status: Seq<char>)
    ensures
        skip_icon(status) matches Some(i) ==> i == status_icon(status),
        skip_icon(status) is None <==> trimmed(status).len() == 0,
{
    reveal_strlit("Playing");
    if trimmed(status).len() == 0 {
        assert(trimmed(status) != "Playing"@);
    }
}

} // verus!
