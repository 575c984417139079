//! Media players as `playerctl` names them: their display names, their icons,
//! and the list that `playerctl -l` prints.
use vstd::prelude::*;
use crate::text::{chars_of, contains_text, occurs_at, same_text, from_utf8_lossy, lossy_utf8, push_chars, string_of, text_contains, text_starts_with, trim, trimmed};

verus! {

broadcast use vstd::string::group_string_axioms;

// ---------------------------------------------------------------------------
// Models
// ---------------------------------------------------------------------------

/// The name for `char::to_uppercase`: the uppercase mapping of `c`.
pub uninterp spec fn uppercase(c: char) -> Seq<char>;

/// The name shown for a player: a fixed name for well-known players, otherwise
/// the identifier with its first character in upper case.
pub open spec fn display_name(p: Seq<char>) -> Seq<char> {
    if "spotify"@.is_prefix_of(p) {
        "Spotify"@
    } else if "firefox"@.is_prefix_of(p) {
        "Firefox"@
    } else if "chromium"@.is_prefix_of(p) || "chrome"@.is_prefix_of(p) {
        "Chrome"@
    } else if "vlc"@.is_prefix_of(p) {
        "VLC"@
    } else if "rhythmbox"@.is_prefix_of(p) {
        "Rhythmbox"@
    } else if "mpv"@.is_prefix_of(p) {
        "MPV"@
    } else if "audacious"@.is_prefix_of(p) {
        "Audacious"@
    } else if "clementine"@.is_prefix_of(p) {
        "Clementine"@
    } else if "plasma-browser-integration"@.is_prefix_of(p) {
        "Web Browser"@
    } else if p.len() == 0 {
        "Unknown"@
    } else {
        uppercase(p[0]) + p.drop_first()
    }
}

/// The themed icon shown for a player.
pub open spec fn icon_name(p: Seq<char>) -> Seq<char> {
    if "spotify"@.is_prefix_of(p) {
        "spotify-symbolic"@
    } else if "firefox"@.is_prefix_of(p) {
        "firefox-symbolic"@
    } else if "chromium"@.is_prefix_of(p) || "chrome"@.is_prefix_of(p) {
        "chrome-symbolic"@
    } else if "vlc"@.is_prefix_of(p) {
        "vlc-symbolic"@
    } else if "rhythmbox"@.is_prefix_of(p) {
        "rhythmbox-symbolic"@
    } else if "mpv"@.is_prefix_of(p) {
        "mpv-symbolic"@
    } else if contains_text(p, "browser"@) {
        "applications-internet-symbolic"@
    } else {
        "audio-x-generic-symbolic"@
    }
}

/// The pieces of `s` between its `'\n'` characters, as `str::split('\n')` gives them.
pub open spec fn split_lines(s: Seq<char>) -> Seq<Seq<char>>
    decreases s.len(),
{
    if s.len() == 0 {
        seq![Seq::<char>::empty()]
    } else {
        let prev = split_lines(s.drop_last());
        if s.last() == '\n' {
            prev.push(Seq::<char>::empty())
        } else {
            prev.update(prev.len() - 1, prev.last().push(s.last()))
        }
    }
}

/// The non-empty lines of `ls`, in order.
pub open spec fn keep_nonempty(ls: Seq<Seq<char>>) -> Seq<Seq<char>>
    decreases ls.len(),
{
    if ls.len() == 0 {
        ls
    } else {
        let rest = keep_nonempty(ls.drop_last());
        if ls.last().len() > 0 {
            rest.push(ls.last())
        } else {
            rest
        }
    }
}

/// The players named by the output of `playerctl -l`: the non-empty lines of the
/// trimmed text.
pub open spec fn player_names(text: Seq<char>) -> Seq<Seq<char>> {
    keep_nonempty(split_lines(trimmed(text)))
}

// ---------------------------------------------------------------------------
// Lemmas
// ---------------------------------------------------------------------------

/// There is always at least one piece.
pub proof fn lemma_split_lines_nonempty(s: Seq<char>)
    ensures
        split_lines(s).len() >= 1,
    decreases s.len(),
{
    if s.len() > 0 {
        lemma_split_lines_nonempty(s.drop_last());
    }
}

/// No piece holds a `'\n'`.
pub proof fn lemma_split_lines_no_newline(s: Seq<char>)
    ensures
        forall|k: int, j: int|
            0 <= k < split_lines(s).len() && 0 <= j < split_lines(s)[k].len()
                ==> split_lines(s)[k][j] != '\n',
    decreases s.len(),
{
    if s.len() > 0 {
        lemma_split_lines_no_newline(s.drop_last());
        lemma_split_lines_nonempty(s.drop_last());
        let prev = split_lines(s.drop_last());
        if s.last() != '\n' {
            let cur = split_lines(s);
            assert forall|k: int, j: int|
                0 <= k < cur.len() && 0 <= j < cur[k].len() implies cur[k][j] != '\n' by {
                if k == prev.len() - 1 {
                    if j < prev.last().len() {
                        assert(cur[k][j] == prev[k][j]);
                    }
                } else {
                    assert(cur[k] == prev[k]);
                }
            }
        }
    }
}

/// Every kept line is one of the given lines and is non-empty.
pub proof fn lemma_keep_nonempty(ls: Seq<Seq<char>>)
    ensures
        forall|k: int|
            0 <= k < keep_nonempty(ls).len() ==> (#[trigger] keep_nonempty(ls)[k]).len() > 0
                && ls.contains(keep_nonempty(ls)[k]),
    decreases ls.len(),
{
    if ls.len() > 0 {
        lemma_keep_nonempty(ls.drop_last());
        let rest = keep_nonempty(ls.drop_last());
        assert forall|k: int| 0 <= k < keep_nonempty(ls).len() implies (
        #[trigger] keep_nonempty(ls)[k]).len() > 0 && ls.contains(keep_nonempty(ls)[k]) by {
            if k < rest.len() {
                let w = choose|w: int| 0 <= w < ls.drop_last().len() && ls.drop_last()[w] == rest[k];
                assert(ls[w] == rest[k]);
            } else {
                assert(ls[ls.len() - 1] == ls.last());
            }
        }
    }
}

// ---------------------------------------------------------------------------
// Trusted item over std
// ---------------------------------------------------------------------------

/// Calls `char::to_uppercase`. Claimed: the characters are `uppercase(c)`, and there
/// is at least one of them, as the documentation says ("one or more chars").
#[verifier::external_body]
fn to_uppercase(c: char) -> (r: Vec<char>)
    ensures
        r@ == uppercase(c),
        r@.len() >= 1,
{
    c.to_uppercase().collect()
}

// ---------------------------------------------------------------------------
// Executable functions
// ---------------------------------------------------------------------------

/// The fallback display name: `first_upper`, the upper-case form of the first
/// character of `player`, followed by the rest of `player`.
pub fn capitalized_name(player: &str, first_upper: &[char]) -> (name: String)
    requires
        player@.len() > 0,
    ensures
        name@ == first_upper@ + player@.drop_first(),
{
    let cs = chars_of(player);
    let mut name = string_of(first_upper);
    let mut k: usize = 1;
    while k < cs.len()
        invariant
            cs@ == player@,
            1 <= k <= cs.len(),
            name@ == first_upper@ + cs@.subrange(1, k as int),
        decreases cs.len() - k,
    {
        let mut one: Vec<char> = Vec::new();
        one.push(cs[k]);
        push_chars(&mut name, one.as_slice());
        assert(cs@.subrange(1, k + 1) =~= cs@.subrange(1, k as int).push(cs@[k as int]));
        assert(name@ =~= first_upper@ + cs@.subrange(1, k + 1));
        k = k + 1;
    }
    assert(cs@.subrange(1, cs@.len() as int) =~= cs@.drop_first());
    name
}

/// The name shown for a player in tab titles and the now-playing line.
pub fn get_player_display_name(player: &str) -> (name: String)
    ensures
        name@ == display_name(player@),
        name@.len() > 0,
{
    proof {
        reveal_strlit("Spotify");
        reveal_strlit("Firefox");
        reveal_strlit("Chrome");
        reveal_strlit("VLC");
        reveal_strlit("Rhythmbox");
        reveal_strlit("MPV");
        reveal_strlit("Audacious");
        reveal_strlit("Clementine");
        reveal_strlit("Web Browser");
        reveal_strlit("Unknown");
    }
    if text_starts_with(player, "spotify") {
        return "Spotify".to_string();
    } else if text_starts_with(player, "firefox") {
        return "Firefox".to_string();
    } else if text_starts_with(player, "chromium") || text_starts_with(player, "chrome") {
        return "Chrome".to_string();
    } else if text_starts_with(player, "vlc") {
        return "VLC".to_string();
    } else if text_starts_with(player, "rhythmbox") {
        return "Rhythmbox".to_string();
    } else if text_starts_with(player, "mpv") {
        return "MPV".to_string();
    } else if text_starts_with(player, "audacious") {
        return "Audacious".to_string();
    } else if text_starts_with(player, "clementine") {
        return "Clementine".to_string();
    } else if text_starts_with(player, "plasma-browser-integration") {
        return "Web Browser".to_string();
    }
    let cs = chars_of(player);
    if cs.len() == 0 {
        return "Unknown".to_string();
    }
    let upper = to_uppercase(cs[0]);
    capitalized_name(player, upper.as_slice())
}

/// The themed icon shown on a player's tab.
pub fn get_player_icon_name(player: &str) -> (name: String)
    ensures
        name@ == icon_name(player@),
{
    if text_starts_with(player, "spotify") {
        return "spotify-symbolic".to_string();
    } else if text_starts_with(player, "firefox") {
        return "firefox-symbolic".to_string();
    } else if text_starts_with(player, "chromium") || text_starts_with(player, "chrome") {
        return "chrome-symbolic".to_string();
    } else if text_starts_with(player, "vlc") {
        return "vlc-symbolic".to_string();
    } else if text_starts_with(player, "rhythmbox") {
        return "rhythmbox-symbolic".to_string();
    } else if text_starts_with(player, "mpv") {
        return "mpv-symbolic".to_string();
    } else if text_contains(player, "browser") {
        return "applications-internet-symbolic".to_string();
    }
    "audio-x-generic-symbolic".to_string()
}

/// The players named by the text that `playerctl -l` printed: its non-empty
/// lines once the text is trimmed, in order.
pub fn player_names_in(text: &str) -> (names: Vec<String>)
    ensures
        names.deep_view() == player_names(text@),
{
    let t = trim(text);
    let cs = chars_of(t.as_str());
    let ghost s = cs@;
    let mut names: Vec<String> = Vec::new();
    let mut cur: Vec<char> = Vec::new();
    assert(s.take(0) =~= Seq::<char>::empty());
    for i in 0..cs.len()
        invariant
            cs@ == s,
            s == trimmed(text@),
            names.deep_view() == keep_nonempty(split_lines(s.take(i as int)).drop_last()),
            cur@ == split_lines(s.take(i as int)).last(),
    {
        let ghost p = s.take(i as int);
        let ghost q = s.take(i + 1);
        let ghost prev = split_lines(p);
        proof {
            assert(q.drop_last() =~= p);
            assert(q.last() == cs@[i as int]);
            lemma_split_lines_nonempty(p);
            assert(prev =~= prev.drop_last().push(prev.last()));
        }
        if cs[i] == '\n' {
            if cur.len() > 0 {
                let line = string_of(cur.as_slice());
                names.push(line);
            }
            cur = Vec::new();
            proof {
                assert(split_lines(q) == prev.push(Seq::<char>::empty()));
                assert(split_lines(q).drop_last() =~= prev);
                assert(keep_nonempty(prev) == if prev.last().len() > 0 {
                    keep_nonempty(prev.drop_last()).push(prev.last())
                } else {
                    keep_nonempty(prev.drop_last())
                });
                assert(names.deep_view() =~= keep_nonempty(prev));
            }
        } else {
            cur.push(cs[i]);
            proof {
                let nxt = prev.update(prev.len() - 1, prev.last().push(cs@[i as int]));
                assert(split_lines(q) == nxt);
                assert(nxt.drop_last() =~= prev.drop_last());
            }
        }
    }
    proof {
        assert(s.take(cs.len() as int) =~= s);
        lemma_split_lines_nonempty(s);
    }
    let ghost all = split_lines(s);
    proof {
        assert(all =~= all.drop_last().push(all.last()));
    }
    if cur.len() > 0 {
        let line = string_of(cur.as_slice());
        names.push(line);
    }
    assert(names.deep_view() =~= keep_nonempty(all));
    names
}

/// The players named by the output of `playerctl -l`.
pub fn parse_player_list(stdout: &[u8]) -> (names: Vec<String>)
    ensures
        names.deep_view() == player_names(lossy_utf8(stdout@)),
{
    let text = from_utf8_lossy(stdout);
    player_names_in(text.as_str())
}

/// Whether `player` is one of the players named by the text that `playerctl -l`
/// printed: some line of the trimmed text is exactly its name.
pub fn listed_in(text: &str, player: &str) -> (r: bool)
    ensures
        r == player_names(text@).contains(player@),
{
    let names = player_names_in(text);
    let mut i: usize = 0;
    while i < names.len()
        invariant
            names.deep_view() == player_names(text@),
            i <= names.len(),
            forall|k: int| 0 <= k < i ==> player_names(text@)[k] != player@,
        decreases names.len() - i,
    {
        if same_text(names[i].as_str(), player) {
            assert(player_names(text@)[i as int] == player@);
            return true;
        }
        i = i + 1;
    }
    false
}

/// Whether `player` is one of the players named by the output of `playerctl -l`.
pub fn still_listed(stdout: &[u8], player: &str) -> (r: bool)
    ensures
        r == player_names(lossy_utf8(stdout@)).contains(player@),
{
    let text = from_utf8_lossy(stdout);
    listed_in(text.as_str(), player)
}

// ---------------------------------------------------------------------------
// Laws
// ---------------------------------------------------------------------------

/// Every icon a player's tab can show is a symbolic icon: its name ends in
/// `-symbolic`.
pub proof fn icon_name_is_symbolic(p: Seq<char>)
    ensures
        "-symbolic"@.is_suffix_of(icon_name(p)),
{
    reveal_strlit("-symbolic");
    reveal_strlit("spotify-symbolic");
    reveal_strlit("firefox-symbolic");
    reveal_strlit("chrome-symbolic");
    reveal_strlit("vlc-symbolic");
    reveal_strlit("rhythmbox-symbolic");
    reveal_strlit("mpv-symbolic");
    reveal_strlit("applications-internet-symbolic");
    reveal_strlit("audio-x-generic-symbolic");
    let n = icon_name(p);
    assert(n.subrange(n.len() - 9, n.len() as int) =~= "-symbolic"@);
}

/// Every player read from `playerctl -l` has a non-empty name without a line break.
pub proof fn player_names_are_single_nonempty_lines(text: Seq<char>)
    ensures
        forall|k: int|
            0 <= k < player_names(text).len() ==> (#[trigger] player_names(text)[k]).len() > 0
                && forall|j: int|
                0 <= j < player_names(text)[k].len() ==> player_names(text)[k][j] != '\n',
{
    let ls = split_lines(trimmed(text));
    lemma_keep_nonempty(ls);
    lemma_split_lines_no_newline(trimmed(text));
    assert forall|k: int| 0 <= k < player_names(text).len() implies (
    #[trigger] player_names(text)[k]).len() > 0 && forall|j: int|
        0 <= j < player_names(text)[k].len() ==> player_names(text)[k][j] != '\n' by {
        let w = choose|w: int| 0 <= w < ls.len() && ls[w] == player_names(text)[k];
        assert(ls[w] == player_names(text)[k]);
    }
}

/// A prefix stands at the start of every text that begins with it.
pub proof fn lemma_prefix_of_concat(p: Seq<char>, s: Seq<char>)
    ensures
        p.is_prefix_of(p + s),
{
    assert((p + s).subrange(0, p.len() as int) =~= p);
}

/// A text that differs from `p` at index `i` does not start any text that
/// begins with `p`.
pub proof fn lemma_not_prefix_at(q: Seq<char>, p: Seq<char>, s: Seq<char>, i: int)
    requires
        0 <= i < q.len(),
        i < p.len(),
        q[i] != p[i],
    ensures
        !q.is_prefix_of(p + s),
{
    if q.is_prefix_of(p + s) {
        assert((p + s).subrange(0, q.len() as int)[i] == (p + s)[i]);
    }
}

/// Known players are recognised by the start of their identifier, whatever
/// instance suffix follows it (so "spotify.instance12345" is "Spotify", and
/// "vlc.instance2" is "VLC").
pub proof fn known_players_named_by_prefix(s: Seq<char>)
    ensures
        display_name("spotify"@ + s) == "Spotify"@,
        display_name("firefox"@ + s) == "Firefox"@,
        display_name("chromium"@ + s) == "Chrome"@,
        display_name("chrome"@ + s) == "Chrome"@,
        display_name("vlc"@ + s) == "VLC"@,
        display_name("rhythmbox"@ + s) == "Rhythmbox"@,
        display_name("mpv"@ + s) == "MPV"@,
        display_name("audacious"@ + s) == "Audacious"@,
        display_name("clementine"@ + s) == "Clementine"@,
        display_name("plasma-browser-integration"@ + s) == "Web Browser"@,
{
    known_prefixes_apart(s);
}

/// Known players get their own icon by the start of their identifier, whatever
/// instance suffix follows it; a browser integration gets the web icon.
pub proof fn known_players_iconified_by_prefix(s: Seq<char>)
    ensures
        icon_name("spotify"@ + s) == "spotify-symbolic"@,
        icon_name("firefox"@ + s) == "firefox-symbolic"@,
        icon_name("chromium"@ + s) == "chrome-symbolic"@,
        icon_name("chrome"@ + s) == "chrome-symbolic"@,
        icon_name("vlc"@ + s) == "vlc-symbolic"@,
        icon_name("rhythmbox"@ + s) == "rhythmbox-symbolic"@,
        icon_name("mpv"@ + s) == "mpv-symbolic"@,
        icon_name("plasma-browser-integration"@ + s) == "applications-internet-symbolic"@,
{
    known_prefixes_apart(s);
    reveal_strlit("browser");
    reveal_strlit("plasma-browser-integration");
    let t = "plasma-browser-integration"@ + s;
    assert(t.subrange(7, 14) =~= "browser"@);
    assert(occurs_at(t, "browser"@, 7));
}

/// Which known prefixes start each known identifier followed by `s`: its own,
/// and none tested before it.
proof fn known_prefixes_apart(s: Seq<char>)
    ensures
        "spotify"@.is_prefix_of("spotify"@ + s),
        "firefox"@.is_prefix_of("firefox"@ + s),
        !"spotify"@.is_prefix_of("firefox"@ + s),
        "chromium"@.is_prefix_of("chromium"@ + s),
        !"spotify"@.is_prefix_of("chromium"@ + s),
        !"firefox"@.is_prefix_of("chromium"@ + s),
        "chrome"@.is_prefix_of("chrome"@ + s),
        !"spotify"@.is_prefix_of("chrome"@ + s),
        !"firefox"@.is_prefix_of("chrome"@ + s),
        "vlc"@.is_prefix_of("vlc"@ + s),
        !"spotify"@.is_prefix_of("vlc"@ + s),
        !"firefox"@.is_prefix_of("vlc"@ + s),
        !"chromium"@.is_prefix_of("vlc"@ + s),
        !"chrome"@.is_prefix_of("vlc"@ + s),
        "rhythmbox"@.is_prefix_of("rhythmbox"@ + s),
        !"spotify"@.is_prefix_of("rhythmbox"@ + s),
        !"firefox"@.is_prefix_of("rhythmbox"@ + s),
        !"chromium"@.is_prefix_of("rhythmbox"@ + s),
        !"chrome"@.is_prefix_of("rhythmbox"@ + s),
        !"vlc"@.is_prefix_of("rhythmbox"@ + s),
        "mpv"@.is_prefix_of("mpv"@ + s),
        !"spotify"@.is_prefix_of("mpv"@ + s),
        !"firefox"@.is_prefix_of("mpv"@ + s),
        !"chromium"@.is_prefix_of("mpv"@ + s),
        !"chrome"@.is_prefix_of("mpv"@ + s),
        !"vlc"@.is_prefix_of("mpv"@ + s),
        !"rhythmbox"@.is_prefix_of("mpv"@ + s),
        "audacious"@.is_prefix_of("audacious"@ + s),
        !"spotify"@.is_prefix_of("audacious"@ + s),
        !"firefox"@.is_prefix_of("audacious"@ + s),
        !"chromium"@.is_prefix_of("audacious"@ + s),
        !"chrome"@.is_prefix_of("audacious"@ + s),
        !"vlc"@.is_prefix_of("audacious"@ + s),
        !"rhythmbox"@.is_prefix_of("audacious"@ + s),
        !"mpv"@.is_prefix_of("audacious"@ + s),
        "clementine"@.is_prefix_of("clementine"@ + s),
        !"spotify"@.is_prefix_of("clementine"@ + s),
        !"firefox"@.is_prefix_of("clementine"@ + s),
        !"chromium"@.is_prefix_of("clementine"@ + s),
        !"chrome"@.is_prefix_of("clementine"@ + s),
        !"vlc"@.is_prefix_of("clementine"@ + s),
        !"rhythmbox"@.is_prefix_of("clementine"@ + s),
        !"mpv"@.is_prefix_of("clementine"@ + s),
        !"audacious"@.is_prefix_of("clementine"@ + s),
        "plasma-browser-integration"@.is_prefix_of("plasma-browser-integration"@ + s),
        !"spotify"@.is_prefix_of("plasma-browser-integration"@ + s),
        !"firefox"@.is_prefix_of("plasma-browser-integration"@ + s),
        !"chromium"@.is_prefix_of("plasma-browser-integration"@ + s),
        !"chrome"@.is_prefix_of("plasma-browser-integration"@ + s),
        !"vlc"@.is_prefix_of("plasma-browser-integration"@ + s),
        !"rhythmbox"@.is_prefix_of("plasma-browser-integration"@ + s),
        !"mpv"@.is_prefix_of("plasma-browser-integration"@ + s),
        !"audacious"@.is_prefix_of("plasma-browser-integration"@ + s),
        !"clementine"@.is_prefix_of("plasma-browser-integration"@ + s),
{
    reveal_strlit("spotify");
    reveal_strlit("firefox");
    reveal_strlit("chromium");
    reveal_strlit("chrome");
    reveal_strlit("vlc");
    reveal_strlit("rhythmbox");
    reveal_strlit("mpv");
    reveal_strlit("audacious");
    reveal_strlit("clementine");
    reveal_strlit("plasma-browser-integration");
    let known = seq![
        "spotify"@,
        "firefox"@,
        "chromium"@,
        "chrome"@,
        "vlc"@,
        "rhythmbox"@,
        "mpv"@,
        "audacious"@,
        "clementine"@,
        "plasma-browser-integration"@,
    ];
    assert forall|j: int| 0 <= j < known.len() implies known[j].is_prefix_of(known[j] + s) by {
        lemma_prefix_of_concat(known[j], s);
    }
    assert forall|j: int, k: int|
        0 <= k < j < known.len() && !(j == 3 && k == 2) implies !known[k].is_prefix_of(
        known[j] + s,
    ) by {
        if j == 8 && (k == 2 || k == 3) {
            lemma_not_prefix_at(known[k], known[j], s, 1);
        } else {
            lemma_not_prefix_at(known[k], known[j], s, 0);
        }
    }
    assert(known[0] == "spotify"@);
    assert(known[1] == "firefox"@);
    assert(known[2] == "chromium"@);
    assert(known[3] == "chrome"@);
    assert(known[4] == "vlc"@);
    assert(known[5] == "rhythmbox"@);
    assert(known[6] == "mpv"@);
    assert(known[7] == "audacious"@);
    assert(known[8] == "clementine"@);
    assert(known[9] == "plasma-browser-integration"@);
}

} // verus!
