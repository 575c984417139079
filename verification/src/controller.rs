//! The panel's own state: whether it is expanded, which of its two views is
//! shown, whether the expanded view is fading out, which players have a tab,
//! and which player is the active one; and how that state follows the list of
//! players that `playerctl -l` reports.
use vstd::prelude::*;
use crate::players::{
    display_name, get_player_display_name, known_players_named_by_prefix, lemma_prefix_of_concat,
};
use crate::text::{from_utf8_lossy, lossy_utf8, push_text, trim, trimmed};

verus! {

broadcast use vstd::string::group_string_axioms;

// ---------------------------------------------------------------------------
// Models
// ---------------------------------------------------------------------------

/// The abstract state of the panel.
#[verifier::ext_equal]
pub struct PanelView {
    /// The panel is expanded.
    pub expanded: bool,
    /// The compact view (header, now-playing line, buttons) is shown.
    pub compact_shown: bool,
    /// The expanded view (one tab per player) is shown.
    pub expanded_shown: bool,
    /// A collapse was asked for and its fade-out has not ended yet.
    pub fading_out: bool,
    /// The players that have a tab, in the order their tabs were opened.
    pub tabs: Seq<Seq<char>>,
    /// The active player, the first one `playerctl -l` reported.
    pub current: Option<Seq<char>>,
    /// The panel's accent colour.
    pub color: (u8, u8, u8),
}

/// The state of the panel is sound: no player has two tabs, and exactly one of
/// the two views is shown.
pub open spec fn panel_ok(v: PanelView) -> bool {
    &&& v.tabs.no_duplicates()
    &&& v.compact_shown != v.expanded_shown
}

/// The views are in step with the expanded flag: a fade-out only runs while the
/// panel is not expanded, and while no fade-out runs the view shown is the one
/// that the expanded flag asks for.
pub open spec fn view_in_step(v: PanelView) -> bool {
    &&& v.fading_out ==> !v.expanded
    &&& !v.fading_out ==> v.expanded_shown == v.expanded
}

/// The state of a new panel.
pub open spec fn initial_panel() -> PanelView {
    PanelView {
        expanded: false,
        compact_shown: true,
        expanded_shown: false,
        fading_out: false,
        tabs: Seq::empty(),
        current: None,
        color: (78u8, 154u8, 240u8),
    }
}

/// A click on the header expands the panel: the expanded view replaces the
/// compact one. A fade-out still running is not cancelled: when it ends, it
/// brings the compact view back although the panel is expanded.
pub open spec fn after_header_click(v: PanelView) -> PanelView {
    PanelView { expanded: true, compact_shown: false, expanded_shown: true, ..v }
}

/// A click on a collapse button: the panel is no longer expanded, and the
/// expanded view stays shown while it fades out.
pub open spec fn after_collapse_click(v: PanelView) -> PanelView {
    PanelView { expanded: false, fading_out: true, ..v }
}

/// The end of the fade-out: the compact view replaces the expanded one, whether
/// or not the panel was expanded again meanwhile. With no fade-out running,
/// nothing changes.
pub open spec fn after_fade_out(v: PanelView) -> PanelView {
    if v.fading_out {
        PanelView { compact_shown: true, expanded_shown: false, fading_out: false, ..v }
    } else {
        v
    }
}

/// The tabs whose player is among `players`, in order.
pub open spec fn tabs_in(tabs: Seq<Seq<char>>, players: Seq<Seq<char>>) -> Seq<Seq<char>>
    decreases tabs.len(),
{
    if tabs.len() == 0 {
        tabs
    } else {
        let rest = tabs_in(tabs.drop_last(), players);
        if players.contains(tabs.last()) {
            rest.push(tabs.last())
        } else {
            rest
        }
    }
}

/// The tabs whose player is not among `players`, in order.
pub open spec fn tabs_not_in(tabs: Seq<Seq<char>>, players: Seq<Seq<char>>) -> Seq<Seq<char>>
    decreases tabs.len(),
{
    if tabs.len() == 0 {
        tabs
    } else {
        let rest = tabs_not_in(tabs.drop_last(), players);
        if players.contains(tabs.last()) {
            rest
        } else {
            rest.push(tabs.last())
        }
    }
}

/// `tabs` followed by a tab for each player that has none yet, in the order of
/// `players`.
pub open spec fn with_tabs_for(tabs: Seq<Seq<char>>, players: Seq<Seq<char>>) -> Seq<Seq<char>>
    decreases players.len(),
{
    if players.len() == 0 {
        tabs
    } else {
        let t = with_tabs_for(tabs, players.drop_last());
        if t.contains(players.last()) {
            t
        } else {
            t.push(players.last())
        }
    }
}

/// What the panel must do after a refresh of the player list.
#[verifier::ext_equal]
pub struct PlanView {
    /// Tabs to close, with their pages: those whose player is gone (all of them
    /// when no player is left).
    pub close_tabs: Seq<Seq<char>>,
    /// Tabs to open, in this order: those of new players.
    pub open_tabs: Seq<Seq<char>>,
    /// Show the compact view in place of the expanded one.
    pub collapse: bool,
    /// The player that has just become the active one: its tab is selected and
    /// its now-playing line and play/pause button are refreshed.
    pub activate: Option<Seq<char>>,
    /// No player is left: the now-playing line says so and the button shows "start".
    pub no_players: bool,
}

/// An expanded panel collapses when no player is left.
pub open spec fn collapses(v: PanelView, players: Seq<Seq<char>>) -> bool {
    players.len() == 0 && v.expanded
}

/// The state of the panel after `playerctl -l` reported `players`.
pub open spec fn refreshed(v: PanelView, players: Seq<Seq<char>>) -> PanelView {
    let collapse = collapses(v, players);
    PanelView {
        expanded: if collapse {
            false
        } else {
            v.expanded
        },
        compact_shown: if collapse {
            true
        } else {
            v.compact_shown
        },
        expanded_shown: if collapse {
            false
        } else {
            v.expanded_shown
        },
        tabs: with_tabs_for(tabs_in(v.tabs, players), players),
        current: if players.len() == 0 {
            None
        } else {
            Some(players[0])
        },
        ..v
    }
}

/// What the panel must do after `playerctl -l` reported `players`.
pub open spec fn refresh_plan(v: PanelView, players: Seq<Seq<char>>) -> PlanView {
    let kept = tabs_in(v.tabs, players);
    PlanView {
        close_tabs: tabs_not_in(v.tabs, players),
        open_tabs: with_tabs_for(kept, players).skip(kept.len() as int),
        collapse: collapses(v, players),
        activate: if players.len() == 0 || v.current == Some(players[0]) {
            None
        } else {
            Some(players[0])
        },
        no_players: players.len() == 0,
    }
}

/// The now-playing line for `player`, given the text `playerctl metadata
/// --format "{{ artist }} - {{ title }}"` printed.
pub open spec fn now_playing_line(player: Seq<char>, metadata: Seq<char>) -> Seq<char> {
    display_name(player) + ": "@ + if trimmed(metadata).len() > 0 {
        trimmed(metadata)
    } else {
        "Playing"@
    }
}

// ---------------------------------------------------------------------------
// Lemmas
// ---------------------------------------------------------------------------

/// What `tabs_in` and `tabs_not_in` keep.
pub proof fn lemma_tabs_split(tabs: Seq<Seq<char>>, players: Seq<Seq<char>>)
    ensures
        forall|x: Seq<char>| #[trigger]
            tabs_in(tabs, players).contains(x) <==> tabs.contains(x) && players.contains(x),
        forall|x: Seq<char>| #[trigger]
            tabs_not_in(tabs, players).contains(x) <==> tabs.contains(x) && !players.contains(x),
        tabs.no_duplicates() ==> tabs_in(tabs, players).no_duplicates(),
        tabs.no_duplicates() ==> tabs_not_in(tabs, players).no_duplicates(),
    decreases tabs.len(),
{
    if tabs.len() > 0 {
        let init = tabs.drop_last();
        let last = tabs.last();
        lemma_tabs_split(init, players);
        assert(tabs =~= init.push(last));
        assert forall|x: Seq<char>| tabs.contains(x) <==> init.contains(x) || x == last by {
            if tabs.contains(x) {
                let i = choose|i: int| 0 <= i < tabs.len() && tabs[i] == x;
                if i < init.len() {
                    assert(init[i] == x);
                }
            }
            if init.contains(x) {
                let i = choose|i: int| 0 <= i < init.len() && init[i] == x;
                assert(tabs[i] == x);
            }
            if x == last {
                assert(tabs[tabs.len() - 1] == x);
            }
        }
        lemma_push_contains(tabs_in(init, players), last);
        lemma_push_contains(tabs_not_in(init, players), last);
        if tabs.no_duplicates() {
            assert(!init.contains(last)) by {
                if init.contains(last) {
                    let i = choose|i: int| 0 <= i < init.len() && init[i] == last;
                    assert(tabs[i] == tabs[tabs.len() - 1]);
                }
            }
            assert(init.no_duplicates()) by {
                assert forall|i: int, j: int|
                    0 <= i < init.len() && 0 <= j < init.len() && i != j implies init[i]
                    != init[j] by {
                    assert(init[i] == tabs[i] && init[j] == tabs[j]);
                }
            }
            lemma_push_no_dup(tabs_in(init, players), last);
            lemma_push_no_dup(tabs_not_in(init, players), last);
        }
    }
}

/// Membership in a sequence with one more element.
pub proof fn lemma_push_contains(s: Seq<Seq<char>>, x: Seq<char>)
    ensures
        forall|y: Seq<char>| #[trigger] s.push(x).contains(y) <==> s.contains(y) || y == x,
{
    assert forall|y: Seq<char>| #[trigger] s.push(x).contains(y) <==> s.contains(y) || y == x by {
        if s.push(x).contains(y) {
            let i = choose|i: int| 0 <= i < s.push(x).len() && s.push(x)[i] == y;
            if i < s.len() {
                assert(s[i] == y);
            }
        }
        if s.contains(y) {
            let i = choose|i: int| 0 <= i < s.len() && s[i] == y;
            assert(s.push(x)[i] == y);
        }
        if y == x {
            assert(s.push(x)[s.len() as int] == y);
        }
    }
}

/// Adding an element that is not there yet keeps a sequence free of duplicates.
pub proof fn lemma_push_no_dup(s: Seq<Seq<char>>, x: Seq<char>)
    requires
        s.no_duplicates(),
        !s.contains(x),
    ensures
        s.push(x).no_duplicates(),
{
    let t = s.push(x);
    assert forall|i: int, j: int| 0 <= i < t.len() && 0 <= j < t.len() && i != j implies t[i]
        != t[j] by {
        if i < s.len() && j < s.len() {
            assert(t[i] == s[i] && t[j] == s[j]);
        } else if i < s.len() {
            assert(t[i] == s[i]);
        } else if j < s.len() {
            assert(t[j] == s[j]);
        }
    }
}

/// What `with_tabs_for` holds: the given tabs first, then every player, each once.
pub proof fn lemma_with_tabs_for(tabs: Seq<Seq<char>>, players: Seq<Seq<char>>)
    ensures
        forall|x: Seq<char>| #[trigger]
            with_tabs_for(tabs, players).contains(x) <==> tabs.contains(x) || players.contains(x),
        tabs.is_prefix_of(with_tabs_for(tabs, players)),
        tabs.no_duplicates() ==> with_tabs_for(tabs, players).no_duplicates(),
    decreases players.len(),
{
    if players.len() > 0 {
        let init = players.drop_last();
        let last = players.last();
        lemma_with_tabs_for(tabs, init);
        let t = with_tabs_for(tabs, init);
        assert(players =~= init.push(last));
        lemma_push_contains(init, last);
        lemma_push_contains(t, last);
        if tabs.no_duplicates() && !t.contains(last) {
            lemma_push_no_dup(t, last);
        }
        assert(tabs =~= with_tabs_for(tabs, players).subrange(0, tabs.len() as int));
    }
}

/// When every player already has a tab, `with_tabs_for` adds none.
pub proof fn lemma_with_tabs_for_covered(tabs: Seq<Seq<char>>, players: Seq<Seq<char>>)
    requires
        forall|x: Seq<char>| players.contains(x) ==> tabs.contains(x),
    ensures
        with_tabs_for(tabs, players) == tabs,
    decreases players.len(),
{
    if players.len() > 0 {
        let init = players.drop_last();
        assert forall|x: Seq<char>| init.contains(x) implies tabs.contains(x) by {
            let i = choose|i: int| 0 <= i < init.len() && init[i] == x;
            assert(players[i] == x);
        }
        lemma_with_tabs_for_covered(tabs, init);
        assert(players[players.len() - 1] == players.last());
    }
}

/// When every tab's player is among `players`, `tabs_in` keeps them all and
/// `tabs_not_in` none.
pub proof fn lemma_tabs_all_in(tabs: Seq<Seq<char>>, players: Seq<Seq<char>>)
    requires
        forall|x: Seq<char>| tabs.contains(x) ==> players.contains(x),
    ensures
        tabs_in(tabs, players) == tabs,
        tabs_not_in(tabs, players) == Seq::<Seq<char>>::empty(),
    decreases tabs.len(),
{
    if tabs.len() > 0 {
        let init = tabs.drop_last();
        assert forall|x: Seq<char>| init.contains(x) implies players.contains(x) by {
            let i = choose|i: int| 0 <= i < init.len() && init[i] == x;
            assert(tabs[i] == x);
        }
        lemma_tabs_all_in(init, players);
        assert(tabs[tabs.len() - 1] == tabs.last());
        assert(tabs =~= init.push(tabs.last()));
    }
}

// ---------------------------------------------------------------------------
// Laws
// ---------------------------------------------------------------------------

/// Removing the tabs of players that are not among none removes every tab.
pub proof fn lemma_tabs_not_in_nothing(tabs: Seq<Seq<char>>)
    ensures
        tabs_not_in(tabs, Seq::empty()) == tabs,
        tabs_in(tabs, Seq::empty()) == Seq::<Seq<char>>::empty(),
    decreases tabs.len(),
{
    if tabs.len() > 0 {
        lemma_tabs_not_in_nothing(tabs.drop_last());
        assert(tabs =~= tabs.drop_last().push(tabs.last()));
    }
}

/// Every step of the panel keeps its state sound: no player gets two tabs, and
/// exactly one of the two views is shown.
pub proof fn steps_keep_panel_ok(v: PanelView, players: Seq<Seq<char>>)
    requires
        panel_ok(v),
    ensures
        panel_ok(initial_panel()),
        panel_ok(after_header_click(v)),
        panel_ok(after_collapse_click(v)),
        panel_ok(after_fade_out(v)),
        panel_ok(refreshed(v, players)),
{
    lemma_tabs_split(v.tabs, players);
    lemma_with_tabs_for(tabs_in(v.tabs, players), players);
}

/// The views stay in step with the expanded flag through every step but one: a
/// header click while a fade-out runs, whose fade-out then shows the compact
/// view of an expanded panel. A new panel is in step, and every other step
/// keeps it so.
pub proof fn steps_keep_view_in_step(v: PanelView, players: Seq<Seq<char>>)
    requires
        panel_ok(v),
        view_in_step(v),
    ensures
        view_in_step(initial_panel()),
        !v.fading_out ==> view_in_step(after_header_click(v)),
        view_in_step(after_collapse_click(v)),
        view_in_step(after_fade_out(v)),
        view_in_step(refreshed(v, players)),
{
}

/// While the views are in step and no fade-out runs, the panel shows its
/// expanded view exactly when it is expanded and its compact view exactly when
/// it is not; the end of a fade-out keeps them so.
pub proof fn view_follows_expanded(v: PanelView)
    requires
        panel_ok(v),
        view_in_step(v),
    ensures
        !v.fading_out ==> v.expanded_shown == v.expanded && v.compact_shown == !v.expanded,
        ({
            let w = after_fade_out(v);
            &&& !w.fading_out
            &&& w.expanded_shown == w.expanded
            &&& w.compact_shown == !w.expanded
        }),
{
}

/// After a refresh, the tabs are exactly the reported players, one tab each, and
/// the active player is the first reported one (none when no player is left);
/// the plan closes exactly the tabs of players that are gone (every tab when no
/// player is left) and opens a tab exactly for each reported player that had
/// none.
pub proof fn refresh_mirrors_players(v: PanelView, players: Seq<Seq<char>>)
    requires
        panel_ok(v),
    ensures
        ({
            let w = refreshed(v, players);
            let plan = refresh_plan(v, players);
            &&& w.tabs.no_duplicates()
            &&& forall|x: Seq<char>| #[trigger] w.tabs.contains(x) <==> players.contains(x)
            &&& w.current == (if players.len() > 0 {
                Some(players[0])
            } else {
                None
            })
            &&& forall|x: Seq<char>| #[trigger]
                plan.close_tabs.contains(x) <==> v.tabs.contains(x) && !players.contains(x)
            &&& forall|x: Seq<char>| #[trigger]
                plan.open_tabs.contains(x) <==> !v.tabs.contains(x) && players.contains(x)
            &&& plan.open_tabs.no_duplicates()
        }),
{
    let w = refreshed(v, players);
    let plan = refresh_plan(v, players);
    let kept = tabs_in(v.tabs, players);
    lemma_tabs_split(v.tabs, players);
    lemma_with_tabs_for(kept, players);
    let all = with_tabs_for(kept, players);
    let opened = all.skip(kept.len() as int);
    assert(all =~= kept + opened);
    assert forall|x: Seq<char>| #[trigger]
        opened.contains(x) <==> !v.tabs.contains(x) && players.contains(x) by {
        if opened.contains(x) {
            let i = choose|i: int| 0 <= i < opened.len() && opened[i] == x;
            assert(all[kept.len() + i] == x);
            assert(all.contains(x));
            if kept.contains(x) {
                let j = choose|j: int| 0 <= j < kept.len() && kept[j] == x;
                assert(all[j] == x);
                assert(all.no_duplicates());
                assert(false);
            }
            assert(players.contains(x));
            if v.tabs.contains(x) {
                assert(kept.contains(x));
            }
        }
        if !v.tabs.contains(x) && players.contains(x) {
            assert(all.contains(x));
            let i = choose|i: int| 0 <= i < all.len() && all[i] == x;
            if i < kept.len() {
                assert(kept[i] == x);
                assert(kept.contains(x));
                assert(false);
            } else {
                assert(opened[i - kept.len()] == x);
                assert(opened.contains(x));
            }
        }
    }
    assert(opened.no_duplicates()) by {
        assert forall|i: int, j: int|
            0 <= i < opened.len() && 0 <= j < opened.len() && i != j implies opened[i]
            != opened[j] by {
            assert(opened[i] == all[kept.len() + i] && opened[j] == all[kept.len() + j]);
        }
    }
}

/// Refreshing twice with the same player list changes nothing the second time:
/// the state stays as it is, and the plan neither opens nor closes a tab, nor
/// collapses the panel, nor activates a player.
pub proof fn refresh_is_idempotent(v: PanelView, players: Seq<Seq<char>>)
    requires
        panel_ok(v),
    ensures
        ({
            let w = refreshed(v, players);
            let plan = refresh_plan(w, players);
            &&& refreshed(w, players) == w
            &&& plan.close_tabs.len() == 0
            &&& plan.open_tabs.len() == 0
            &&& !plan.collapse
            &&& plan.activate is None
        }),
{
    let w = refreshed(v, players);
    refresh_mirrors_players(v, players);
    lemma_tabs_all_in(w.tabs, players);
    lemma_with_tabs_for_covered(w.tabs, players);
    assert(refreshed(w, players) =~= w);
    assert(w.tabs.skip(w.tabs.len() as int) =~= Seq::<Seq<char>>::empty());
}

/// When no player is left, every tab is closed with its page, no player is
/// active, and an expanded panel collapses to its compact view, whatever its
/// tabs; a panel that was not expanded keeps the view it shows.
pub proof fn losing_all_players_collapses(v: PanelView)
    requires
        panel_ok(v),
    ensures
        ({
            let w = refreshed(v, Seq::empty());
            let plan = refresh_plan(v, Seq::empty());
            &&& !w.expanded
            &&& v.expanded ==> plan.collapse && w.compact_shown && !w.expanded_shown
            &&& !v.expanded ==> !plan.collapse && w.compact_shown == v.compact_shown
                && w.expanded_shown == v.expanded_shown
            &&& w.tabs.len() == 0
            &&& w.current is None
            &&& plan.close_tabs == v.tabs
            &&& plan.open_tabs.len() == 0
        }),
{
    lemma_tabs_not_in_nothing(v.tabs);
}

/// A refresh that still lists players never collapses the panel: it keeps it
/// expanded or not, and shows the same view as before; a refresh that lists
/// none collapses it exactly when it was expanded.
pub proof fn refresh_collapses_only_without_players(v: PanelView, players: Seq<Seq<char>>)
    ensures
        players.len() > 0 ==> {
            let w = refreshed(v, players);
            &&& !refresh_plan(v, players).collapse
            &&& w.expanded == v.expanded
            &&& w.compact_shown == v.compact_shown
            &&& w.expanded_shown == v.expanded_shown
            &&& w.fading_out == v.fading_out
        },
        players.len() == 0 ==> (refresh_plan(v, players).collapse <==> v.expanded),
        players.len() == 0 ==> !refreshed(v, players).expanded,
{
}

/// The now-playing line starts with the player's display name and ": ", and goes
/// on with the trimmed metadata, or "Playing" when there is none; a Firefox
/// instance, whatever its suffix, thus gets a line that starts with "Firefox: ".
pub proof fn now_playing_line_names_the_player(
    player: Seq<char>,
    metadata: Seq<char>,
    suffix: Seq<char>,
)
    ensures
        (display_name(player) + ": "@).is_prefix_of(now_playing_line(player, metadata)),
        now_playing_line(player, metadata).skip((display_name(player) + ": "@).len() as int)
            == (if trimmed(metadata).len() > 0 {
            trimmed(metadata)
        } else {
            "Playing"@
        }),
        ("Firefox: "@).is_prefix_of(now_playing_line("firefox"@ + suffix, metadata)),
{
    let head = display_name(player) + ": "@;
    let rest = if trimmed(metadata).len() > 0 {
        trimmed(metadata)
    } else {
        "Playing"@
    };
    lemma_prefix_of_concat(head, rest);
    assert((head + rest).skip(head.len() as int) =~= rest);
    known_players_named_by_prefix(suffix);
    reveal_strlit("Firefox: ");
    reveal_strlit("Firefox");
    reveal_strlit(": ");
    assert("Firefox"@ + ": "@ =~= "Firefox: "@);
    let rest2 = if trimmed(metadata).len() > 0 {
        trimmed(metadata)
    } else {
        "Playing"@
    };
    lemma_prefix_of_concat("Firefox: "@, rest2);
}

/// Expanding the panel, collapsing it and letting the fade-out end gives back a
/// collapsed panel showing its compact view, with its tabs and active player
/// unchanged.
pub proof fn expand_then_collapse_restores(v: PanelView)
    requires
        panel_ok(v),
        view_in_step(v),
        !v.expanded,
        !v.fading_out,
    ensures
        after_fade_out(after_collapse_click(after_header_click(v))) == v,
{
}

// ---------------------------------------------------------------------------
// Executable state
// ---------------------------------------------------------------------------

/// What the panel must do after a refresh of the player list.
pub struct RefreshPlan {
    /// Tabs to close, with their pages: those whose player is gone (all of them
    /// when no player is left).
    pub close_tabs: Vec<String>,
    /// Tabs to open, in this order: those of new players.
    pub open_tabs: Vec<String>,
    /// Show the compact view in place of the expanded one.
    pub collapse: bool,
    /// The player that has just become the active one.
    pub activate: Option<String>,
    /// No player is left.
    pub no_players: bool,
}

impl View for RefreshPlan {
    type V = PlanView;

    open spec fn view(&self) -> PlanView {
        PlanView {
            close_tabs: self.close_tabs.deep_view(),
            open_tabs: self.open_tabs.deep_view(),
            collapse: self.collapse,
            activate: match self.activate {
                Some(p) => Some(p@),
                None => None,
            },
            no_players: self.no_players,
        }
    }
}

/// The state of the media-player panel.
pub struct MprisController {
    expanded: bool,
    compact_shown: bool,
    expanded_shown: bool,
    fading_out: bool,
    player_tabs: Vec<String>,
    current_player: Option<String>,
    dominant_color: (u8, u8, u8),
}

impl View for MprisController {
    type V = PanelView;

    closed spec fn view(&self) -> PanelView {
        PanelView {
            expanded: self.expanded,
            compact_shown: self.compact_shown,
            expanded_shown: self.expanded_shown,
            fading_out: self.fading_out,
            tabs: self.player_tabs.deep_view(),
            current: match self.current_player {
                Some(p) => Some(p@),
                None => None,
            },
            color: self.dominant_color,
        }
    }
}

/// Whether `name` is among `names`.
fn has_name(names: &Vec<String>, name: &String) -> (r: bool)
    ensures
        r == names.deep_view().contains(name@),
{
    let mut i: usize = 0;
    while i < names.len()
        invariant
            i <= names.len(),
            forall|k: int| 0 <= k < i ==> names.deep_view()[k] != name@,
        decreases names.len() - i,
    {
        if names[i] == *name {
            assert(names.deep_view()[i as int] == name@);
            return true;
        }
        i = i + 1;
    }
    false
}

impl MprisController {
    #[verifier::type_invariant]
    spec fn sound(self) -> bool {
        panel_ok(self@)
    }

    /// A new panel: collapsed, showing its compact view, with no tabs and no
    /// active player.
    pub fn new() -> (c: MprisController)
        ensures
            c@ == initial_panel(),
    {
        let c = MprisController {
            expanded: false,
            compact_shown: true,
            expanded_shown: false,
            fading_out: false,
            player_tabs: Vec::new(),
            current_player: None,
            dominant_color: (78, 154, 240),
        };
        assert(c@.tabs =~= Seq::<Seq<char>>::empty());
        c
    }

    /// The panel is expanded.
    pub fn is_expanded(&self) -> (r: bool)
        ensures
            r == self@.expanded,
    {
        self.expanded
    }

    /// The compact view is shown.
    pub fn compact_shown(&self) -> (r: bool)
        ensures
            r == self@.compact_shown,
    {
        self.compact_shown
    }

    /// The expanded view is shown.
    pub fn expanded_shown(&self) -> (r: bool)
        ensures
            r == self@.expanded_shown,
    {
        self.expanded_shown
    }

    /// The expanded view is fading out after a collapse.
    pub fn is_fading_out(&self) -> (r: bool)
        ensures
            r == self@.fading_out,
    {
        self.fading_out
    }

    /// Sets the four layout flags, keeping the tabs, the active player and the
    /// colour.
    fn set_layout(&mut self, expanded: bool, compact_shown: bool, expanded_shown: bool, fading_out: bool)
        requires
            panel_ok(
                PanelView { expanded, compact_shown, expanded_shown, fading_out, ..old(self)@ },
            ),
        ensures
            final(self)@ == (PanelView {
                expanded,
                compact_shown,
                expanded_shown,
                fading_out,
                ..old(self)@
            }),
    {
        proof {
            use_type_invariant(&*self);
        }
        let mut tabs: Vec<String> = Vec::new();
        std::mem::swap(&mut tabs, &mut self.player_tabs);
        assert(tabs.deep_view() == old(self)@.tabs);
        let mut current: Option<String> = None;
        std::mem::swap(&mut current, &mut self.current_player);
        let color = self.dominant_color;
        *self = MprisController {
            expanded,
            compact_shown,
            expanded_shown,
            fading_out,
            player_tabs: tabs,
            current_player: current,
            dominant_color: color,
        };
    }

    /// The players that have a tab.
    pub fn player_tabs(&self) -> (tabs: Vec<String>)
        ensures
            tabs.deep_view() == self@.tabs,
    {
        let mut tabs: Vec<String> = Vec::new();
        for i in 0..self.player_tabs.len()
            invariant
                tabs.deep_view() == self.player_tabs.deep_view().take(i as int),
        {
            let ghost before = tabs.deep_view();
            let t = self.player_tabs[i].clone();
            assert(t@ == self.player_tabs.deep_view()[i as int]);
            tabs.push(t);
            assert(tabs.deep_view() =~= before.push(t@));
            assert(tabs.deep_view() =~= self.player_tabs.deep_view().take(i + 1));
        }
        assert(tabs.deep_view() =~= self.player_tabs.deep_view());
        tabs
    }

    /// The active player, if any.
    pub fn current_player(&self) -> (p: Option<String>)
        ensures
            match p {
                Some(s) => self@.current == Some(s@),
                None => self@.current is None,
            },
    {
        match &self.current_player {
            Some(s) => Some(s.clone()),
            None => None,
        }
    }

    /// The panel's accent colour.
    pub fn dominant_color(&self) -> (c: (u8, u8, u8))
        ensures
            c == self@.color,
    {
        self.dominant_color
    }

    /// A click on the header: the panel expands. A running fade-out goes on.
    pub fn header_clicked(&mut self)
        ensures
            final(self)@ == after_header_click(old(self)@),
            panel_ok(final(self)@),
    {
        proof {
            use_type_invariant(&*self);
            steps_keep_panel_ok(self@, Seq::empty());
        }
        let f = self.fading_out;
        self.set_layout(true, false, true, f);
    }

    /// A click on a collapse button: the panel is no longer expanded; the
    /// expanded view fades out.
    pub fn collapse_clicked(&mut self)
        ensures
            final(self)@ == after_collapse_click(old(self)@),
            panel_ok(final(self)@),
    {
        proof {
            use_type_invariant(&*self);
            steps_keep_panel_ok(self@, Seq::empty());
        }
        let c = self.compact_shown;
        let e = self.expanded_shown;
        self.set_layout(false, c, e, true);
    }

    /// The end of the fade-out: the compact view is shown again, even when the
    /// panel was expanded again while it ran. With no fade-out running, nothing
    /// changes.
    pub fn fade_out_finished(&mut self)
        ensures
            final(self)@ == after_fade_out(old(self)@),
            panel_ok(final(self)@),
    {
        proof {
            use_type_invariant(&*self);
            steps_keep_panel_ok(self@, Seq::empty());
        }
        if self.fading_out {
            let x = self.expanded;
            self.set_layout(x, true, false, false);
        }
    }

    /// Follows the list of players that `playerctl -l` reported, and says what the
    /// panel must do: which tabs to close and open, whether to collapse, and
    /// which player has become the active one.
    pub fn refresh(&mut self, players: &Vec<String>) -> (plan: RefreshPlan)
        ensures
            final(self)@ == refreshed(old(self)@, players.deep_view()),
            plan@ == refresh_plan(old(self)@, players.deep_view()),
            panel_ok(final(self)@),
    {
        proof {
            use_type_invariant(&*self);
            steps_keep_panel_ok(self@, players.deep_view());
        }
        let ghost v = self@;
        let ghost ps = players.deep_view();
        let ghost old_tabs = self.player_tabs.deep_view();
        let mut kept: Vec<String> = Vec::new();
        let mut closed: Vec<String> = Vec::new();
        for i in 0..self.player_tabs.len()
            invariant
                old_tabs == self.player_tabs.deep_view(),
                ps == players.deep_view(),
                kept.deep_view() == tabs_in(old_tabs.take(i as int), ps),
                closed.deep_view() == tabs_not_in(old_tabs.take(i as int), ps),
        {
            proof {
                assert(old_tabs.take(i + 1).drop_last() =~= old_tabs.take(i as int));
                assert(old_tabs.take(i + 1).last() == old_tabs[i as int]);
            }
            let t = self.player_tabs[i].clone();
            if has_name(players, &t) {
                kept.push(t);
                assert(kept.deep_view() =~= tabs_in(old_tabs.take(i + 1), ps));
            } else {
                closed.push(t);
                assert(closed.deep_view() =~= tabs_not_in(old_tabs.take(i + 1), ps));
            }
        }
        assert(old_tabs.take(old_tabs.len() as int) =~= old_tabs);
        let ghost kept_v = kept.deep_view();
        let n_kept = kept.len();
        let mut tabs = kept;
        let mut opened: Vec<String> = Vec::new();
        assert(ps.take(0) =~= Seq::<Seq<char>>::empty());
        assert(tabs.deep_view().skip(n_kept as int) =~= Seq::<Seq<char>>::empty());
        for j in 0..players.len()
            invariant
                ps == players.deep_view(),
                kept_v.len() == n_kept,
                tabs.deep_view() == with_tabs_for(kept_v, ps.take(j as int)),
                n_kept <= tabs.len(),
                tabs.deep_view().subrange(0, n_kept as int) == kept_v,
                opened.deep_view() == tabs.deep_view().skip(n_kept as int),
        {
            proof {
                assert(ps.take(j + 1).drop_last() =~= ps.take(j as int));
                assert(ps.take(j + 1).last() == ps[j as int]);
            }
            let p = players[j].clone();
            assert(p@ == ps[j as int]);
            if !has_name(&tabs, &p) {
                let ghost t0 = tabs.deep_view();
                let ghost o0 = opened.deep_view();
                tabs.push(p.clone());
                opened.push(p);
                assert(tabs.deep_view() =~= t0.push(ps[j as int]));
                assert(opened.deep_view() =~= o0.push(ps[j as int]));
                assert(tabs.deep_view().subrange(0, n_kept as int) =~= kept_v);
                assert(opened.deep_view() =~= tabs.deep_view().skip(n_kept as int));
            }
            assert(tabs.deep_view() =~= with_tabs_for(kept_v, ps.take(j + 1)));
        }
        assert(ps.take(ps.len() as int) =~= ps);
        let collapse = players.len() == 0 && self.expanded;
        let expanded = if collapse {
            false
        } else {
            self.expanded
        };
        let compact_shown = if collapse {
            true
        } else {
            self.compact_shown
        };
        let expanded_shown = if collapse {
            false
        } else {
            self.expanded_shown
        };
        let (current, activate) = if players.len() == 0 {
            (None, None)
        } else {
            let first = players[0].clone();
            let activate = match &self.current_player {
                Some(c) => {
                    if *c == first {
                        None
                    } else {
                        Some(first.clone())
                    }
                },
                None => Some(first.clone()),
            };
            (Some(first), activate)
        };
        let fading_out = self.fading_out;
        let c = self.dominant_color;
        *self = MprisController {
            expanded,
            compact_shown,
            expanded_shown,
            fading_out,
            player_tabs: tabs,
            current_player: current,
            dominant_color: c,
        };
        assert(self@ =~= refreshed(v, ps));
        let plan = RefreshPlan {
            close_tabs: closed,
            open_tabs: opened,
            collapse,
            activate,
            no_players: players.len() == 0,
        };
        assert(plan@ =~= refresh_plan(v, ps));
        plan
    }
}

// ---------------------------------------------------------------------------
// Texts and timing of the compact view
// ---------------------------------------------------------------------------

/// The now-playing line for `player`, given the text `playerctl metadata --format
/// "{{ artist }} - {{ title }}"` printed for it: "<name>: <artist> - <title>", or
/// "<name>: Playing" when the text is empty once trimmed.
pub fn now_playing_line_for(player: &str, metadata: &str) -> (line: String)
    ensures
        line@ == now_playing_line(player@, metadata@),
{
    let mut line = get_player_display_name(player);
    push_text(&mut line, ": ");
    let m = trim(metadata);
    if m.as_str().is_empty() {
        push_text(&mut line, "Playing");
    } else {
        push_text(&mut line, m.as_str());
    }
    line
}

/// The now-playing line for `player`, given the output of its metadata query.
pub fn now_playing_text(player: &str, stdout: &[u8]) -> (line: String)
    ensures
        line@ == now_playing_line(player@, lossy_utf8(stdout@)),
{
    let text = from_utf8_lossy(stdout);
    now_playing_line_for(player, text.as_str())
}

/// The now-playing line when no player is left.
pub fn no_players_text() -> (line: String)
    ensures
        line@ == "No media players available"@,
{
    "No media players available".to_string()
}

/// Whether a fade that started `elapsed_ms` milliseconds ago has ended: fades
/// last 300 ms.
pub fn fade_finished(elapsed_ms: u128) -> (r: bool)
    ensures
        r == (elapsed_ms >= 300),
{
    elapsed_ms >= 300
}

} // verus!
