# main_center media-player panel

The decision logic of a desktop panel that controls media players through
`playerctl`, verified with Verus.

- `src/text.rs` — character-level helpers (prefix, piece search, trimming,
  decimal digits, lossy UTF-8 decoding) with their models over `Seq<char>`.
- `src/players.rs` — display names and icons of players; reading the player
  list that `playerctl -l` prints.
- `src/playback.rs` — the face of the play/pause button for a status and after
  a click or a skip.
- `src/tab.rs` — one player's expanded view: label updates, where album art
  comes from, the dominant colour and the progress-bar colour.
- `src/controller.rs` — the panel's state (expanded or not, which view is
  shown, one tab per player, the active player) and how it follows the player
  list, with its laws.
- `src/commands.rs` — the `playerctl` and `curl` command lines.
- `app/lib.rs` — the GTK 4 / libadwaita widget that runs the commands, reads
  their output, animates the views and applies what the library decides.
- `tests/` — tests of the library on concrete values.
