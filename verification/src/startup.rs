//! What is decided before the first frame: who is signed in, where to begin, and what to
//! say of it.

use crate::app::{AppState, Focus, PANE_ORDER, Pane, StateView, ToastKind};
use crate::background::{GUEST_NOTICE, KeptLibrary, KeptLibraryView, preload_from_cache};
use crate::config::{self, AuthKind, Config, ConfigView, expand_tilde};
use crate::model::{Playlist, PlaylistView, to_tracks};
use crate::player::{CommandLog, PlayerCommand, PlayerCommandView};
use crate::text::{self, decimal_text, join3, same_text};
use crate::theme::{self, Theme};
use vstd::prelude::*;

verus! {

impl ConfigView {
    /// Where the cookies are, if that is set.
    pub open spec fn cookie_path(self, home: Option<Seq<char>>) -> Option<Seq<char>> {
        match self.auth.cookie_file {
            Some(p) => Some(config::expanded(p, home)),
            None => None,
        }
    }

    /// The first frame is already that of a guest: cookies are the way to sign in, and
    /// there is no file of them.
    pub open spec fn begins_as_guest(self, is_file: bool) -> bool {
        self.auth.kind == AuthKind::Cookie && (self.auth.cookie_file is None || !is_file)
    }
}

/// Where the cookies are, if that is set.
pub fn cookie_path(cfg: &Config, home: Option<&str>) -> (r: Option<String>)
    ensures
        r.deep_view() == cfg.deep_view().cookie_path(config::seen(home)),
{
    match &cfg.auth.cookie_file {
        Some(p) => Some(expand_tilde(p.as_str(), home)),
        None => None,
    }
}

/// Whether the first frame is already that of a guest. `is_file` says whether there is a
/// file where the cookies are. That they have expired cannot be seen yet.
pub fn guest_startup(cfg: &Config, is_file: bool) -> (r: bool)
    ensures
        r == cfg.deep_view().begins_as_guest(is_file),
{
    cfg.auth.kind == AuthKind::Cookie && (cfg.auth.cookie_file.is_none() || !is_file)
}

/// The cookies that the player is given. A guest has none to give.
pub fn cookies_for_player(cfg: &Config, guest: bool, home: Option<&str>) -> (r: Option<String>)
    ensures
        r.deep_view() == (if guest {
            None::<Seq<char>>
        } else {
            cfg.deep_view().cookie_path(config::seen(home))
        }),
{
    if guest {
        None
    } else {
        cookie_path(cfg, home)
    }
}

/// Where the cookies are, or what the user is told where one cannot sign in.
pub open spec fn signed_in_with(c: ConfigView, home: Option<Seq<char>>, at: Seq<char>) -> Result<
    Seq<char>,
    Seq<char>,
> {
    if c.auth.kind == AuthKind::OAuth {
        Err(
            "auth.kind = \"oauth\" is no longer supported \u{2014} Google stopped accepting device-flow tokens on YouTube Music's endpoints. Set auth.kind = \"cookie\" and auth.cookie_file in "@
                + at + " (see the README for how to export cookies)."@,
        )
    } else {
        match c.cookie_path(home) {
            Some(p) => Ok(p),
            None => Err(
                "auth.cookie_file is not set in "@ + at
                    + " \u{2014} see the README for how to export your cookies"@,
            ),
        }
    }
}

/// Where the cookies are that one signs in with. `at` is where the settings are.
pub fn sign_in(cfg: &Config, home: Option<&str>, at: &str) -> (r: Result<String, String>)
    ensures
        match signed_in_with(cfg.deep_view(), config::seen(home), at@) {
            Ok(p) => r matches Ok(q) && q@ == p,
            Err(m) => r matches Err(n) && n@ == m,
        },
{
    if cfg.auth.kind == AuthKind::OAuth {
        return Err(
            join3(
                "auth.kind = \"oauth\" is no longer supported \u{2014} Google stopped accepting device-flow tokens on YouTube Music's endpoints. Set auth.kind = \"cookie\" and auth.cookie_file in ",
                at,
                " (see the README for how to export cookies).",
            ),
        );
    }
    match cookie_path(cfg, home) {
        Some(p) => Ok(p),
        None => Err(
            join3(
                "auth.cookie_file is not set in ",
                at,
                " \u{2014} see the README for how to export your cookies",
            ),
        ),
    }
}

/// What the user is told where the cookies at a place are of no use.
pub fn cookies_refused(path: &str) -> (r: String)
    ensures
        r@ == "could not use the cookie file at "@ + path@
            + " \u{2014} it may have expired; re-export it"@,
{
    join3(
        "could not use the cookie file at ",
        path,
        " \u{2014} it may have expired; re-export it",
    )
}

/// Whether one goes on as a guest where one cannot sign in. A way to sign in that cannot
/// work stays an error.
pub fn goes_on_as_guest(cfg: &Config) -> (r: bool)
    ensures
        r == (cfg.auth.kind != AuthKind::OAuth),
{
    !(cfg.auth.kind == AuthKind::OAuth)
}

/// Tells the player to shuffle, where the settings say so. That it does not is what it
/// starts with.
pub fn apply_startup_shuffle(player: &mut CommandLog, shuffle: bool)
    ensures
        final(player)@ == (if shuffle {
            old(player)@.push(PlayerCommandView::SetShuffle(true))
        } else {
            old(player)@
        }),
{
    if shuffle {
        player.send(PlayerCommand::SetShuffle(true));
    }
}

/// The volume to begin with: the last one, or else the one that is set.
pub open spec fn first_volume(remembered: Option<u8>, set: u16) -> int {
    match remembered {
        Some(v) => v as int,
        None => if set <= 100 {
            set as int
        } else {
            100
        },
    }
}

/// The volume to begin with.
pub fn startup_volume(remembered: Option<u8>, cfg: &Config) -> (r: u8)
    ensures
        r == first_volume(remembered, cfg.playback.volume),
{
    match remembered {
        Some(v) => v,
        None => if cfg.playback.volume <= 100 {
            cfg.playback.volume as u8
        } else {
            100
        },
    }
}

/// The pane to begin with. A guest could not enter the panes of an account.
pub open spec fn first_pane(c: ConfigView, guest: bool) -> Pane {
    if guest {
        Pane::Search
    } else {
        c.ui.start_pane.opens()
    }
}

/// The place of a pane in the order of the number keys.
pub open spec fn place_of(pane: Pane) -> int {
    match pane {
        Pane::Home => 0,
        Pane::Playlists => 1,
        Pane::Songs => 2,
        Pane::Albums => 3,
        Pane::Artists => 4,
        Pane::Search => 5,
        Pane::Queue => 6,
        Pane::Downloads => 7,
    }
}

fn place_of_pane(pane: Pane) -> (r: usize)
    ensures
        r == place_of(pane),
        r < 8,
{
    match pane {
        Pane::Home => 0,
        Pane::Playlists => 1,
        Pane::Songs => 2,
        Pane::Albums => 3,
        Pane::Artists => 4,
        Pane::Search => 5,
        Pane::Queue => 6,
        Pane::Downloads => 7,
    }
}

/// The state of the first frame.
pub open spec fn first_state(
    c: ConfigView,
    guest: bool,
    volume: u8,
    kept: Option<KeptLibraryView>,
) -> StateView {
    let s = StateView {
        volume,
        shuffle: c.playback.shuffle,
        guest,
        pane: first_pane(c, guest),
        sidebar_selected: place_of(first_pane(c, guest)) as usize,
        focus: if guest {
            Focus::SearchInput
        } else {
            Focus::Main
        },
        ..StateView::initial()
    };
    let s = match kept {
        Some(k) => if guest {
            s.preloaded(None, None, k.downloads)
        } else {
            s.preloaded(k.playlists, k.songs, k.downloads)
        },
        None => s,
    };
    if guest {
        s.told(ToastKind::Info, GUEST_NOTICE@)
    } else {
        s
    }
}

/// The state of the first frame, given what came of reading what is kept, where there is
/// anything to read from. What is kept of a library is not a guest's to see; what was
/// downloaded is.
pub fn startup_state(cfg: &Config, guest: bool, volume: u8, kept: Option<KeptLibrary>) -> (r:
    AppState)
    ensures
        r@ == first_state(cfg.deep_view(), guest, volume, kept.deep_view()),
{
    let pane = if guest {
        Pane::Search
    } else {
        cfg.ui.start_pane.pane()
    };
    let mut state = AppState::default();
    state.set_volume(volume);
    state.set_shuffle(cfg.playback.shuffle);
    state.set_guest(guest);
    state.set_pane(pane);
    state.set_sidebar_selected(place_of_pane(pane));
    if guest {
        state.set_focus(Focus::SearchInput);
    } else {
        state.set_focus(Focus::Main);
    }
    proof {
        reveal(StateView::preloaded);
    }
    if let Some(k) = kept {
        if guest {
            if let Ok(downloads) = k.downloads {
                state.set_downloaded_tracks(to_tracks(&downloads));
            }
        } else {
            preload_from_cache(k.playlists, k.songs, k.downloads, &mut state);
        }
    }
    if guest {
        state.tell(ToastKind::Info, GUEST_NOTICE);
    }
    state
}

/// Whether a library that comes back empty may be a cookie that expired: there has to be
/// one.
pub fn cookie_may_expire(cfg: &Config, guest: bool) -> (r: bool)
    ensures
        r == (cfg.auth.kind == AuthKind::Cookie && !guest),
{
    cfg.auth.kind == AuthKind::Cookie && !guest
}

/// The user's own theme: the one in use where that is it, else the one that the file of a
/// theme holds, if it holds one.
pub open spec fn own_theme_of(theme: Theme, name: Seq<char>, file: Option<Seq<char>>) -> Option<
    Theme,
> {
    if name == "custom"@ {
        Some(theme)
    } else {
        match file {
            Some(t) => match theme::theme_parsed(t) {
                Ok(own) => Some(own),
                Err(_) => None,
            },
            None => None,
        }
    }
}

/// The user's own theme, given the one in use, its name, and the file of a theme.
pub fn own_theme(theme: Theme, name: &str, file: Option<&str>) -> (r: Option<Theme>)
    ensures
        r == own_theme_of(theme, name@, config::seen(file)),
{
    if same_text(name, "custom") {
        return Some(theme);
    }
    match file {
        Some(text) => match Theme::from_toml_str(text) {
            Ok(t) => Some(t),
            Err(_) => None,
        },
        None => None,
    }
}

/// One playlist on a line.
pub open spec fn playlist_line(p: PlaylistView) -> Seq<char> {
    match p.track_count {
        Some(n) => p.title + "\t"@ + text::decimal(n as nat) + " tracks"@,
        None => p.title,
    }
}

/// The playlists of a library, one to a line. A library that came back empty is an error:
/// an expired cookie is answered with nothing at all.
pub fn playlist_lines(playlists: &Vec<Playlist>) -> (r: Result<Vec<String>, String>)
    ensures
        match r {
            Ok(v) => playlists@.len() > 0 && v.deep_view() == playlists.deep_view().map_values(
                |p: PlaylistView| playlist_line(p),
            ),
            Err(m) => playlists@.len() == 0 && m@
                == "the library came back empty \u{2014} if that is wrong, the cookie or token has expired"@,
        },
{
    if playlists.len() == 0 {
        return Err(
            "the library came back empty \u{2014} if that is wrong, the cookie or token has expired".to_owned(),
        );
    }
    let mut out: Vec<String> = Vec::new();
    let mut i: usize = 0;
    while i < playlists.len()
        invariant
            i <= playlists@.len(),
            out@.len() == i,
            forall|k: int|
                0 <= k < i ==> (#[trigger] out@[k])@ == playlist_line(playlists@[k].deep_view()),
        decreases playlists@.len() - i,
    {
        let p = &playlists[i];
        let line = match p.track_count {
            Some(n) => {
                let count = decimal_text(n);
                let mut s = join3(p.title.as_str(), "\t", count.as_str());
                s.append(" tracks");
                s
            },
            None => p.title.clone(),
        };
        out.push(line);
        i += 1;
    }
    assert(out.deep_view() =~= playlists.deep_view().map_values(
        |p: PlaylistView| playlist_line(p),
    ));
    Ok(out)
}

/// A guest begins where a guest may be, and sees nothing of a library that was kept.
pub proof fn a_guest_sees_no_library(c: ConfigView, volume: u8, kept: Option<KeptLibraryView>)
    ensures
        ({
            let s = first_state(c, true, volume, kept);
            &&& s.guest
            &&& !s.pane.needs_account()
            &&& s.playlists.len() == 0
            &&& s.tracks.len() == 0
            &&& s.focus == Focus::SearchInput
        }),
{
    reveal(StateView::told);
    reveal(StateView::toasted);
    reveal(StateView::preloaded);
}

/// The row that is marked in the sidebar is that of the pane that is open.
pub proof fn the_sidebar_begins_on_the_open_pane(
    c: ConfigView,
    guest: bool,
    volume: u8,
    kept: Option<KeptLibraryView>,
)
    ensures
        ({
            let s = first_state(c, guest, volume, kept);
            s.sidebar_selected < 8 && PANE_ORDER@[s.sidebar_selected as int] == s.pane
        }),
{
    reveal(StateView::told);
    reveal(StateView::toasted);
    reveal(StateView::preloaded);
}

} // verus!
