//! The expanded view of one player: its title and artist labels, its album art,
//! and the colour of its progress bar.
use vstd::prelude::*;
use crate::players::{lemma_not_prefix_at, lemma_prefix_of_concat, player_names, still_listed};
use crate::text::{
    decimal, from_utf8_lossy, lossy_utf8, push_decimal, push_text, strip_leading,
    strip_leading_repeats, text_starts_with, trim, trimmed,
};

verus! {

broadcast use vstd::string::group_string_axioms;

/// The accent colour used until album art gives one (libadwaita blue).
pub open spec fn default_color() -> (u8, u8, u8) {
    (78u8, 154u8, 240u8)
}

/// The text to show in a label for the output of a `playerctl metadata` query:
/// the trimmed text, or nothing (the label keeps its text) when it is empty.
pub open spec fn label_update(text: Seq<char>) -> Option<Seq<char>> {
    if trimmed(text).len() > 0 {
        Some(trimmed(text))
    } else {
        None
    }
}

/// Where the album art at `url` comes from.
#[derive(Debug)]
pub enum ArtworkSource {
    /// A `file://` URL: the image is read from this path.
    LocalFile(String),
    /// An `http://` or `https://` URL: the image is downloaded from it.
    Download(String),
    /// Any other URL: the placeholder icon is shown.
    Unsupported,
}

/// `url` is a local file URL.
pub open spec fn is_file_url(url: Seq<char>) -> bool {
    "file://"@.is_prefix_of(url)
}

/// `url` is a web URL.
pub open spec fn is_web_url(url: Seq<char>) -> bool {
    "http://"@.is_prefix_of(url) || "https://"@.is_prefix_of(url)
}

/// `source` is where the album art at `url` comes from.
pub open spec fn source_of(url: Seq<char>, source: ArtworkSource) -> bool {
    match source {
        ArtworkSource::LocalFile(path) => is_file_url(url) && path@ == strip_leading(
            url,
            "file://"@,
        ),
        ArtworkSource::Download(u) => !is_file_url(url) && is_web_url(url) && u@ == url,
        ArtworkSource::Unsupported => !is_file_url(url) && !is_web_url(url),
    }
}

/// The colour of a progress bar, given the colour of the album art last shown.
pub open spec fn bar_color_of(art: Option<(u8, u8, u8)>) -> (u8, u8, u8) {
    match art {
        Some(a) => a,
        None => default_color(),
    }
}

/// The style rule that colours a player's progress bar with `c`, at the starting
/// width of 20%.
pub open spec fn accent_css_text(c: (u8, u8, u8)) -> Seq<char> {
    "box.content::before { width: 20%; border-color: currentColor; background-color: rgba("@
        + decimal(c.0 as nat) + ", "@ + decimal(c.1 as nat) + ", "@ + decimal(c.2 as nat)
        + ", 0.7); }"@
}

/// The dominant colour of an album-art image of the given size and channel count.
/// Pixels are not read: every image gets the default accent colour, whether it is
/// too small (under 5 pixels wide or high), has fewer than 3 channels, or not.
pub fn get_dominant_color(width: i32, height: i32, n_channels: i32) -> (c: (u8, u8, u8))
    ensures
        c == default_color(),
{
    let default_color: (u8, u8, u8) = (78, 154, 240);
    if width < 5 || height < 5 {
        return default_color;
    }
    if n_channels < 3 {
        return default_color;
    }
    default_color
}

/// Whether a downloaded album-art image may be shown, given how `curl` ended
/// (`None` when it could not run, else whether it reported success): only a
/// download that succeeded has put the image in the cache.
pub fn download_succeeded(curl_success: Option<bool>) -> (r: bool)
    ensures
        r == (curl_success == Some(true)),
{
    match curl_success {
        Some(ok) => ok,
        None => false,
    }
}

/// Where the album art at `url` comes from.
pub fn artwork_source(url: &str) -> (source: ArtworkSource)
    ensures
        source_of(url@, source),
{
    if text_starts_with(url, "file://") {
        ArtworkSource::LocalFile(strip_leading_repeats(url, "file://"))
    } else if text_starts_with(url, "http://") || text_starts_with(url, "https://") {
        ArtworkSource::Download(url.to_string())
    } else {
        ArtworkSource::Unsupported
    }
}

/// What to do with the album art for the text that `playerctl metadata mpris:artUrl`
/// printed: nothing when it is empty once trimmed, else show the art of the
/// trimmed URL.
pub fn artwork_for_text(text: &str) -> (r: Option<ArtworkSource>)
    ensures
        trimmed(text@).len() == 0 ==> r is None,
        trimmed(text@).len() > 0 ==> (r matches Some(s) && source_of(trimmed(text@), s)),
{
    let url = trim(text);
    if url.as_str().is_empty() {
        None
    } else {
        Some(artwork_source(url.as_str()))
    }
}

/// What to do with the album art for the output of `playerctl metadata mpris:artUrl`.
pub fn artwork_for(stdout: &[u8]) -> (r: Option<ArtworkSource>)
    ensures
        trimmed(lossy_utf8(stdout@)).len() == 0 ==> r is None,
        trimmed(lossy_utf8(stdout@)).len() > 0 ==> (r matches Some(s) && source_of(
            trimmed(lossy_utf8(stdout@)),
            s,
        )),
{
    let text = from_utf8_lossy(stdout);
    artwork_for_text(text.as_str())
}

/// The new text of a title or artist label for the text a metadata query printed.
pub fn label_update_text(text: &str) -> (r: Option<String>)
    ensures
        match r {
            Some(t) => label_update(text@) == Some(t@),
            None => label_update(text@) is None,
        },
{
    let t = trim(text);
    if t.as_str().is_empty() {
        None
    } else {
        Some(t)
    }
}

/// The new text of a title or artist label for the output of a metadata query.
pub fn label_update_for(stdout: &[u8]) -> (r: Option<String>)
    ensures
        match r {
            Some(t) => label_update(lossy_utf8(stdout@)) == Some(t@),
            None => label_update(lossy_utf8(stdout@)) is None,
        },
{
    let text = from_utf8_lossy(stdout);
    label_update_text(text.as_str())
}

/// The style rule that colours a progress bar with `c`, at the starting width.
pub fn accent_css(c: (u8, u8, u8)) -> (css: String)
    ensures
        css@ == accent_css_text(c),
{
    let mut css = String::new();
    push_text(
        &mut css,
        "box.content::before { width: 20%; border-color: currentColor; background-color: rgba(",
    );
    push_decimal(&mut css, c.0);
    push_text(&mut css, ", ");
    push_decimal(&mut css, c.1);
    push_text(&mut css, ", ");
    push_decimal(&mut css, c.2);
    push_text(&mut css, ", 0.7); }");
    css
}

/// The state kept for the expanded view of one player.
pub struct PlayerTab {
    player: String,
    dominant_color: Option<(u8, u8, u8)>,
}

impl PlayerTab {
    /// The player this view shows.
    pub closed spec fn player_name(&self) -> Seq<char> {
        self.player@
    }

    /// The colour taken from the album art last shown, if any.
    pub closed spec fn art_color(&self) -> Option<(u8, u8, u8)> {
        self.dominant_color
    }

    /// The view of `player`, before any album art was shown.
    pub fn new(player: &str) -> (tab: PlayerTab)
        ensures
            tab.player_name() == player@,
            tab.art_color() is None,
    {
        PlayerTab { player: player.to_string(), dominant_color: None }
    }

    /// The player this view shows.
    pub fn player(&self) -> (p: &str)
        ensures
            p@ == self.player_name(),
    {
        self.player.as_str()
    }

    /// Whether the view keeps polling, given the output of `playerctl -l` when the
    /// command ran (`None` when it could not run): it stops once no line of the
    /// list names its player.
    pub fn keeps_polling(&self, list_output: Option<&[u8]>) -> (r: bool)
        ensures
            r == match list_output {
                Some(b) => player_names(lossy_utf8(b@)).contains(self.player_name()),
                None => true,
            },
    {
        match list_output {
            Some(b) => still_listed(b, self.player.as_str()),
            None => true,
        }
    }

    /// Records the colour of the album art just shown, and gives the style rule
    /// that colours the progress bar with it.
    pub fn record_art_color(&mut self, c: (u8, u8, u8)) -> (css: String)
        ensures
            final(self).art_color() == Some(c),
            final(self).player_name() == old(self).player_name(),
            css@ == accent_css_text(c),
    {
        self.dominant_color = Some(c);
        accent_css(c)
    }

    /// The colour of the progress bar: that of the album art last shown, or the
    /// default accent colour.
    pub fn bar_color(&self) -> (c: (u8, u8, u8))
        ensures
            c == bar_color_of(self.art_color()),
    {
        match self.dominant_color {
            Some(a) => a,
            None => (78, 154, 240),
        }
    }
}

/// The progress bar takes the colour of the album art last recorded, and the
/// default accent colour before any.
pub proof fn bar_takes_recorded_color(c: (u8, u8, u8))
    ensures
        bar_color_of(Some(c)) == c,
        bar_color_of(None) == default_color(),
{
}

/// A `file://` URL always gives a path that no longer starts with `file://`.
pub proof fn local_path_is_bare(url: Seq<char>, source: ArtworkSource)
    requires
        source_of(url, source),
        source is LocalFile,
    ensures
        source matches ArtworkSource::LocalFile(path) && !"file://"@.is_prefix_of(path@),
{
    reveal_strlit("file://");
    lemma_strip_leading_bare(url, "file://"@);
}

/// Stripping every leading repetition of a non-empty pattern leaves a text that
/// does not start with it.
pub proof fn lemma_strip_leading_bare(s: Seq<char>, p: Seq<char>)
    requires
        p.len() > 0,
    ensures
        !p.is_prefix_of(strip_leading(s, p)),
    decreases s.len(),
{
    if p.is_prefix_of(s) {
        lemma_strip_leading_bare(s.skip(p.len() as int), p);
    }
}

/// Every web address is downloaded from exactly that address, whatever follows
/// its `http://` or `https://` scheme.
pub proof fn web_urls_are_downloaded(s: Seq<char>, source: ArtworkSource, secure: bool)
    requires
        source_of((if secure { "https://"@ } else { "http://"@ }) + s, source),
    ensures
        source matches ArtworkSource::Download(u) && u@ == (if secure {
            "https://"@
        } else {
            "http://"@
        }) + s,
{
    reveal_strlit("https://");
    reveal_strlit("http://");
    reveal_strlit("file://");
    let scheme = if secure {
        "https://"@
    } else {
        "http://"@
    };
    lemma_prefix_of_concat(scheme, s);
    lemma_not_prefix_at("file://"@, scheme, s, 0);
}

/// A URL whose text starts with `http://` or `https://`, and not with
/// `file://`, is downloaded from exactly that URL.
pub proof fn web_prefix_means_download(url: Seq<char>, source: ArtworkSource)
    requires
        source_of(url, source),
        "http://"@.is_prefix_of(url) || "https://"@.is_prefix_of(url),
        !"file://"@.is_prefix_of(url),
    ensures
        source matches ArtworkSource::Download(u) && u@ == url,
{
}

/// A URL whose text starts with `file://` is read from the local file it names.
pub proof fn file_prefix_means_local(url: Seq<char>, source: ArtworkSource)
    requires
        source_of(url, source),
        "file://"@.is_prefix_of(url),
    ensures
        source is LocalFile,
{
}

/// A URL with none of the `file://`, `http://` and `https://` schemes gets the
/// placeholder icon.
pub proof fn other_urls_unsupported(url: Seq<char>, source: ArtworkSource)
    requires
        source_of(url, source),
        !"file://"@.is_prefix_of(url),
        !"http://"@.is_prefix_of(url),
        !"https://"@.is_prefix_of(url),
    ensures
        source is Unsupported,
{
}

} // verus!
