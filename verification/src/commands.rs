//! The command lines the panel runs: `playerctl` requests and the album-art
//! download.
use vstd::prelude::*;

verus! {

broadcast use vstd::string::group_string_axioms;

/// A request to `playerctl` about one player (or about whichever player
/// `playerctl` picks, when none is named).
#[derive(Clone, Copy, Debug, PartialEq, Eq, Structural)]
pub enum PlayerRequest {
    /// Toggle between playing and paused.
    PlayPause,
    /// Skip to the previous track.
    Previous,
    /// Skip to the next track.
    Next,
    /// Print the playback status.
    Status,
    /// Print "<artist> - <title>".
    NowPlaying,
    /// Print the track title.
    Title,
    /// Print the track artist.
    Artist,
    /// Print the album-art URL.
    ArtUrl,
    /// Print the playback position, in seconds.
    Position,
    /// Print the track length, in microseconds.
    Length,
}

/// The words of a request, after the player selection.
pub open spec fn request_words(r: PlayerRequest) -> Seq<Seq<char>> {
    match r {
        PlayerRequest::PlayPause => seq!["play-pause"@],
        PlayerRequest::Previous => seq!["previous"@],
        PlayerRequest::Next => seq!["next"@],
        PlayerRequest::Status => seq!["status"@],
        PlayerRequest::NowPlaying => seq![
            "metadata"@,
            "--format"@,
            "{{ artist }} - {{ title }}"@,
        ],
        PlayerRequest::Title => seq!["metadata"@, "title"@],
        PlayerRequest::Artist => seq!["metadata"@, "artist"@],
        PlayerRequest::ArtUrl => seq!["metadata"@, "mpris:artUrl"@],
        PlayerRequest::Position => seq!["position"@],
        PlayerRequest::Length => seq!["metadata"@, "mpris:length"@],
    }
}

/// The words that select a player: `-p <player>`, or nothing.
pub open spec fn player_words(player: Option<Seq<char>>) -> Seq<Seq<char>> {
    match player {
        Some(p) => seq!["-p"@, p],
        None => Seq::empty(),
    }
}

/// Appends each word to `args`.
fn push_words(args: &mut Vec<String>, words: &[&str])
    ensures
        final(args).deep_view() == old(args).deep_view() + words@.map_values(|w: &str| w@),
{
    let ghost start = args.deep_view();
    for i in 0..words.len()
        invariant
            args.deep_view() == start + words@.map_values(|w: &str| w@).take(i as int),
    {
        let ghost before = args.deep_view();
        args.push(words[i].to_string());
        assert(args.deep_view() =~= before.push(words@[i as int]@));
        assert(words@.map_values(|w: &str| w@).take(i + 1) =~= words@.map_values(
            |w: &str| w@,
        ).take(i as int).push(words@[i as int]@));
    }
    assert(words@.map_values(|w: &str| w@).take(words.len() as int) =~= words@.map_values(
        |w: &str| w@,
    ));
}

/// The arguments of `playerctl` for `request`, addressed to `player` when one is
/// named.
pub fn playerctl_args(player: Option<&str>, request: PlayerRequest) -> (args: Vec<String>)
    ensures
        args.deep_view() == player_words(
            match player {
                Some(p) => Some(p@),
                None => None,
            },
        ) + request_words(request),
{
    let mut args: Vec<String> = Vec::new();
    match player {
        Some(p) => {
            push_words(&mut args, &["-p", p]);
        },
        None => {},
    }
    match request {
        PlayerRequest::PlayPause => push_words(&mut args, &["play-pause"]),
        PlayerRequest::Previous => push_words(&mut args, &["previous"]),
        PlayerRequest::Next => push_words(&mut args, &["next"]),
        PlayerRequest::Status => push_words(&mut args, &["status"]),
        PlayerRequest::NowPlaying => push_words(
            &mut args,
            &["metadata", "--format", "{{ artist }} - {{ title }}"],
        ),
        PlayerRequest::Title => push_words(&mut args, &["metadata", "title"]),
        PlayerRequest::Artist => push_words(&mut args, &["metadata", "artist"]),
        PlayerRequest::ArtUrl => push_words(&mut args, &["metadata", "mpris:artUrl"]),
        PlayerRequest::Position => push_words(&mut args, &["position"]),
        PlayerRequest::Length => push_words(&mut args, &["metadata", "mpris:length"]),
    }
    args
}

/// The arguments of `playerctl` that list the players.
pub fn list_players_args() -> (args: Vec<String>)
    ensures
        args.deep_view() == seq!["-l"@],
{
    let mut args: Vec<String> = Vec::new();
    push_words(&mut args, &["-l"]);
    args
}

/// The arguments of `curl` that silently download `url` into `cache_path`.
pub fn download_args(cache_path: &str, url: &str) -> (args: Vec<String>)
    ensures
        args.deep_view() == seq!["-s"@, "-o"@, cache_path@, url@],
{
    let mut args: Vec<String> = Vec::new();
    push_words(&mut args, &["-s", "-o", cache_path, url]);
    args
}

} // verus!
