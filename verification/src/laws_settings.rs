//! What the settings are for: that each is read under its own name, that what is not set
//! has its default, and that a theme, a directory and a key are those that were set.

use crate::config::{
    self, AuthKind, ConfigErrorView, ConfigView, StartPane, StorageSettings, ThemeChoiceView,
};
use crate::document::{self, ScalarView};
use crate::event_loop::ThemeStateView;
use crate::keymap;
use crate::laws_outside::lemma_pieces_end;
use crate::model;
use crate::outline::{self, NodeView};
use crate::startup;
use crate::text;
use crate::theme::{self, Color, Theme, PRESETS};
use vstd::prelude::*;

verus! {

/// What stands in a document.
pub type Document = Seq<(Seq<char>, NodeView)>;

/// A section of a document is a table, or is not there.
pub open spec fn is_plain(d: Document, section: Seq<char>) -> bool {
    match outline::value_of(d, section) {
        None => true,
        Some(n) => n is Table,
    }
}

/// What a document sets under a name in a section.
pub open spec fn given(d: Document, section: Seq<char>, name: Seq<char>) -> Option<NodeView> {
    match outline::value_of(d, section) {
        Some(NodeView::Table(t)) => outline::value_of(t, name),
        _ => None,
    }
}

/// A switch is as it is set, or else as it is by default.
pub open spec fn is_flag(n: Option<NodeView>, b: bool, otherwise: bool) -> bool {
    match n {
        None => b == otherwise,
        Some(NodeView::Flag(set)) => b == set,
        Some(_) => false,
    }
}

/// A number is the one that is set, or else the one it is by default.
pub open spec fn is_number(n: Option<NodeView>, x: int, otherwise: int) -> bool {
    match n {
        None => x == otherwise,
        Some(NodeView::Number(Some(set), _)) => x == set,
        Some(_) => false,
    }
}

/// A text is the one that is set, or there is none.
pub open spec fn is_text(n: Option<NodeView>, s: Option<Seq<char>>) -> bool {
    match n {
        None => s is None,
        Some(NodeView::Text(set)) => s == Some(set),
        Some(_) => false,
    }
}

/// How playback starts is as it is set under `playback`; else at a volume of seventy, in
/// order.
pub proof fn playback_is_as_it_is_set(d: Document, c: ConfigView)
    requires
        config::settings(d) == Ok::<ConfigView, Seq<char>>(c),
        is_plain(d, "playback"@),
    ensures
        is_number(given(d, "playback"@, "volume"@), c.playback.volume as int, 70),
        is_flag(given(d, "playback"@, "shuffle"@), c.playback.shuffle, false),
{
}

/// How one signs in is as it is set under `auth`; else with cookies, of which there are none.
pub proof fn signing_in_is_as_it_is_set(d: Document, c: ConfigView)
    requires
        config::settings(d) == Ok::<ConfigView, Seq<char>>(c),
        is_plain(d, "auth"@),
    ensures
        is_text(given(d, "auth"@, "cookie_file"@), c.auth.cookie_file),
        given(d, "auth"@, "kind"@) is None ==> c.auth.kind == AuthKind::Cookie,
        given(d, "auth"@, "kind"@) matches Some(NodeView::Text(s)) ==> (c.auth.kind
            == AuthKind::Cookie <==> s == "cookie"@) && (c.auth.kind == AuthKind::OAuth <==> s
            == "oauth"@),
{
    reveal_strlit("cookie");
    reveal_strlit("oauth");
    assert("cookie"@[0] == 'c' && "oauth"@[0] == 'o');
}

/// How keys behave is as it is set under `behaviour`; else by steps of five, and quitting
/// asks nothing.
pub proof fn behaviour_is_as_it_is_set(d: Document, c: ConfigView)
    requires
        config::settings(d) == Ok::<ConfigView, Seq<char>>(c),
        is_plain(d, "behaviour"@),
    ensures
        is_number(
            given(d, "behaviour"@, "seek_step_secs"@),
            c.behaviour.seek_step_secs as int,
            5,
        ),
        is_number(given(d, "behaviour"@, "volume_step"@), c.behaviour.volume_step as int, 5),
        is_flag(given(d, "behaviour"@, "confirm_on_quit"@), c.behaviour.confirm_on_quit, false),
{
}

/// What is kept is as it is set under `storage`; else a cache of a gigabyte, two tracks
/// ahead.
pub proof fn storage_is_as_it_is_set(d: Document, c: ConfigView)
    requires
        config::settings(d) == Ok::<ConfigView, Seq<char>>(c),
        is_plain(d, "storage"@),
    ensures
        is_text(given(d, "storage"@, "download_dir"@), c.storage.download_dir),
        is_number(given(d, "storage"@, "cache_size_mb"@), c.storage.cache_size_mb as int, 1024),
        is_number(given(d, "storage"@, "prefetch_count"@), c.storage.prefetch_count as int, 2),
{
}

/// How things look is as it is set under `ui`.
pub proof fn looks_are_as_they_are_set(d: Document, c: ConfigView)
    requires
        config::settings(d) == Ok::<ConfigView, Seq<char>>(c),
        is_plain(d, "ui"@),
    ensures
        is_flag(given(d, "ui"@, "vim_keys"@), c.ui.vim_keys, true),
        is_number(given(d, "ui"@, "tick_ms"@), c.ui.tick_ms as int, 250),
        is_text(given(d, "ui"@, "accent"@), c.ui.accent),
        is_flag(given(d, "ui"@, "album_art"@), c.ui.album_art, true),
        is_text(given(d, "ui"@, "theme_file"@), c.ui.theme_file),
        is_flag(given(d, "ui"@, "auto_reload_theme"@), c.ui.auto_reload_theme, false),
        is_flag(given(d, "ui"@, "mouse"@), c.ui.mouse, true),
        given(d, "ui"@, "theme"@) is None ==> c.ui.theme is Auto,
        given(d, "ui"@, "theme"@) matches Some(NodeView::Text(s)) ==> c.ui.theme is Auto
            || c.ui.theme == ThemeChoiceView::Named(s),
        given(d, "ui"@, "start_pane"@) is None ==> c.ui.start_pane == StartPane::Playlists,
        given(d, "ui"@, "start_pane"@) matches Some(NodeView::Text(s)) ==> config::pane_named(
            Some(s),
        ) == Some(c.ui.start_pane),
{
}

/// A source to start with goes by the name it has in the sidebar, in small letters; the
/// songs go by two.
pub proof fn a_pane_to_start_with_goes_by_its_name()
    ensures
        config::pane_named(Some("home"@)) matches Some(p) && p.opens() is Home,
        config::pane_named(Some("playlists"@)) matches Some(p) && p.opens() is Playlists,
        config::pane_named(Some("songs"@)) matches Some(p) && p.opens() is Songs,
        config::pane_named(Some("fav"@)) == config::pane_named(Some("songs"@)),
        config::pane_named(Some("albums"@)) matches Some(p) && p.opens() is Albums,
        config::pane_named(Some("artists"@)) matches Some(p) && p.opens() is Artists,
        config::pane_named(Some("search"@)) matches Some(p) && p.opens() is Search,
        config::pane_named(Some("queue"@)) matches Some(p) && p.opens() is Queue,
{
    reveal_strlit("home");
    reveal_strlit("playlists");
    reveal_strlit("songs");
    reveal_strlit("fav");
    reveal_strlit("albums");
    reveal_strlit("artists");
    reveal_strlit("search");
    reveal_strlit("queue");
    assert("home"@.len() == 4 && "playlists"@.len() == 9 && "songs"@.len() == 5);
    assert("fav"@.len() == 3 && "albums"@.len() == 6 && "artists"@.len() == 7);
    assert("search"@.len() == 6 && "queue"@.len() == 5);
    assert("songs"@[0] == 's' && "queue"@[0] == 'q');
    assert("albums"@[0] == 'a' && "search"@[0] == 's');
}

/// A document that sets nothing is read as the settings where none are given.
pub proof fn nothing_set_is_the_default()
    ensures
        config::settings(Seq::empty()) == Ok::<ConfigView, Seq<char>>(ConfigView::standard()),
        config::fault(ConfigView::standard()) is None,
{
    assert(config::settings(Seq::empty())->Ok_0 =~~= ConfigView::standard());
}

/// Settings are refused exactly for a volume that is no percentage and for a step of
/// nothing or less; the refusal says which it is.
pub proof fn only_what_cannot_be_used_is_refused(c: ConfigView)
    ensures
        config::fault(c) is None <==> c.playback.volume <= 100 && c.behaviour.seek_step_secs > 0
            && c.behaviour.volume_step > 0,
        config::fault(c) matches Some(ConfigErrorView::Volume(v)) ==> v == c.playback.volume && v
            > 100,
        config::fault(c) matches Some(ConfigErrorView::Step(key, n)) ==> n <= 0 && (key
            == "behaviour.seek_step_secs"@ && n == c.behaviour.seek_step_secs || key
            == "behaviour.volume_step"@ && n == c.behaviour.volume_step),
{
}

/// A path below `~` is below the user's own directory; any other, and any where that is not
/// known, stands as it is.
pub proof fn a_tilde_is_the_users_own_directory(p: Seq<char>, home: Seq<char>)
    ensures
        config::expanded(p, None) == p,
        !(p.len() >= 2 && p[0] == '~' && p[1] == '/') ==> config::expanded(p, Some(home)) == p,
        ({
            let below = seq!['~', '/'] + p;
            let at = config::expanded(below, Some(home));
            p.len() > 0 && p[0] != '/' ==> text::begins(at, home) && at.len() >= p.len() && at.skip(
                at.len() - p.len(),
            ) == p && at.len() <= home.len() + 1 + p.len()
        }),
{
    let below = seq!['~', '/'] + p;
    assert(below.subrange(2, below.len() as int) =~= p);
    let at = config::expanded(below, Some(home));
    reveal_strlit("/");
    if p.len() > 0 && p[0] != '/' {
        assert(at.subrange(0, home.len() as int) =~= home);
        assert(at.skip(at.len() - p.len()) =~= p);
    }
}

/// Downloads go where they are set to go, whatever else is known.
pub proof fn downloads_go_where_they_are_set_to(
    c: StorageSettings,
    dir: Seq<char>,
    home: Option<Seq<char>>,
    audio: Option<Seq<char>>,
    env_home: Option<Seq<char>>,
)
    ensures
        c.download_dir == Some(dir) ==> c.downloads_to(home, audio, env_home) == config::expanded(
            dir,
            env_home,
        ),
        c.download_dir is None && home is Some && audio is Some ==> c.downloads_to(
            home,
            audio,
            env_home,
        ) == text::path_joined(audio->0, "ytm"@),
        c.download_dir is None && (home is None || audio is None) && home == env_home && home
            is Some ==> c.downloads_to(home, audio, env_home) == text::path_joined(
            text::path_joined(home->0, "Music"@),
            "ytm"@,
        ),
{
}

/// A terminal whose background is light has the light theme, and any other the dark one.
pub proof fn the_theme_suits_the_background(fg: Seq<char>, bg: Seq<char>)
    requires
        forall|i: int| 0 <= i < bg.len() ==> bg[i] != ';',
    ensures
        ({
            let light = text::trimmed(bg) == "7"@ || text::trimmed(bg) == "15"@;
            let name = config::auto_name(Some(fg.push(';') + bg));
            &&& light ==> name == "dawn"@
            &&& !light ==> name == "tokyonight"@
        }),
        config::auto_name(None) == "tokyonight"@,
{
    lemma_pieces_end(fg, bg, ';', 0);
}

/// A hexadecimal digit.
pub open spec fn hex(d: int) -> char {
    if d < 10 {
        ('0' as int + d) as char
    } else {
        ('a' as int + d - 10) as char
    }
}

/// A colour as it is written.
pub open spec fn hex_text(c: Color) -> Seq<char> {
    seq![
        '#',
        hex(c.r as int / 16),
        hex(c.r as int % 16),
        hex(c.g as int / 16),
        hex(c.g as int % 16),
        hex(c.b as int / 16),
        hex(c.b as int % 16),
    ]
}

proof fn lemma_hex(d: int)
    requires
        0 <= d < 16,
    ensures
        theme::hex_digit(hex(d)) == Some(d),
{
}

/// A colour that is written is read as that colour.
pub proof fn a_written_colour_is_read(c: Color)
    ensures
        theme::colour_of(hex_text(c)) == Some(c),
{
    lemma_hex(c.r as int / 16);
    lemma_hex(c.r as int % 16);
    lemma_hex(c.g as int / 16);
    lemma_hex(c.g as int % 16);
    lemma_hex(c.b as int / 16);
    lemma_hex(c.b as int % 16);
}

/// A colour that a theme's file names last is the one that the theme has, and the other
/// colours are as they were.
pub proof fn a_named_colour_is_set(
    t: Theme,
    table: Seq<(Seq<char>, Seq<char>)>,
    c: Color,
)
    requires
        theme::coloured(t, table) is Some,
    ensures
        ({
            let before = theme::coloured(t, table)->0;
            let after = |name: Seq<char>| theme::coloured(t, table.push((name, hex_text(c))));
            &&& after("fg"@) == Some(Theme { fg: c, ..before })
            &&& after("fg_dim"@) == Some(Theme { fg_dim: c, ..before })
            &&& after("fg_bright"@) == Some(Theme { fg_bright: c, ..before })
            &&& after("accent"@) == Some(Theme { accent: c, ..before })
            &&& after("error"@) == Some(Theme { error: c, ..before })
            &&& after("bg_sel"@) == Some(Theme { bg_sel: c, ..before })
            &&& after("preset"@) == Some(before)
        }),
{
    a_written_colour_is_read(c);
    reveal_strlit("fg");
    reveal_strlit("fg_dim");
    reveal_strlit("fg_bright");
    reveal_strlit("accent");
    reveal_strlit("error");
    reveal_strlit("bg_sel");
    reveal_strlit("preset");
    assert("fg"@.len() == 2 && "fg_dim"@.len() == 6 && "fg_bright"@.len() == 9);
    assert("accent"@.len() == 6 && "error"@.len() == 5 && "bg_sel"@.len() == 6);
    assert("preset"@.len() == 6);
    assert("fg_dim"@[0] == 'f' && "accent"@[0] == 'a' && "bg_sel"@[0] == 'b');
    assert("preset"@[0] == 'p');
    assert(table.push(("fg"@, hex_text(c))).drop_last() =~= table);
    assert(table.push(("fg_dim"@, hex_text(c))).drop_last() =~= table);
    assert(table.push(("fg_bright"@, hex_text(c))).drop_last() =~= table);
    assert(table.push(("accent"@, hex_text(c))).drop_last() =~= table);
    assert(table.push(("error"@, hex_text(c))).drop_last() =~= table);
    assert(table.push(("bg_sel"@, hex_text(c))).drop_last() =~= table);
    assert(table.push(("preset"@, hex_text(c))).drop_last() =~= table);
}

/// A theme's file starts from the preset it names last; one that names none starts from the
/// first of the built-in ones.
pub proof fn a_theme_starts_from_its_preset(
    table: Seq<(Seq<char>, Seq<char>)>,
    name: Seq<char>,
    key: Seq<char>,
    value: Seq<char>,
)
    ensures
        theme::base_of(table.push(("preset"@, name))) == theme::preset_named(name),
        key != "preset"@ ==> theme::base_of(table.push((key, value))) == theme::base_of(table),
        theme::base_of(Seq::empty()) == Some(theme::theme_at(0)),
        theme::themed(Seq::empty()) == Some(theme::theme_at(0)),
{
    assert(table.push((key, value)).drop_last() =~= table);
}

/// A built-in theme goes by its name: the one at a place by the name at that place.
pub proof fn a_built_in_theme_goes_by_its_name(i: int)
    requires
        0 <= i < 6,
    ensures
        theme::preset_named(PRESETS@[i]@) == Some(theme::theme_at(i)),
{
    reveal_strlit("tokyonight");
    reveal_strlit("gruvbox");
    reveal_strlit("nord");
    reveal_strlit("dracula");
    reveal_strlit("dawn");
    reveal_strlit("paper");
    assert("tokyonight"@.len() == 10 && "gruvbox"@.len() == 7 && "nord"@.len() == 4);
    assert("dracula"@.len() == 7 && "dawn"@.len() == 4 && "paper"@.len() == 5);
    assert("gruvbox"@[0] == 'g' && "dracula"@[0] == 'd');
    assert("nord"@[0] == 'n' && "dawn"@[0] == 'd');
    reveal_with_fuel(theme::preset_at, 8);
}

/// The theme that one comes to is the one of the name that is said, and cycling keeps the
/// user's own.
pub proof fn the_theme_is_the_one_that_is_named(themes: ThemeStateView)
    ensures
        ({
            let after = themes.cycled();
            &&& after.custom == themes.custom
            &&& after.name != "custom"@ && theme::preset_named(after.name) is Some ==> Some(
                after.theme,
            ) == theme::preset_named(after.name)
            &&& after.name == "custom"@ && themes.custom is Some ==> Some(after.theme)
                == themes.custom
        }),
{
}

/// An accent is set on top of the theme that is named, and changes nothing but the accent.
pub proof fn an_accent_changes_only_the_accent(
    c: ConfigView,
    colours: Option<Seq<char>>,
    t: Theme,
    name: Seq<char>,
    accent: Color,
)
    requires
        (ConfigView {
            ui: config::UiView { accent: None, ..c.ui },
            ..c
        }).resolves_to(None, colours, Ok((t, name))),
        c.ui.accent == Some(hex_text(accent)),
    ensures
        c.resolves_to(None, colours, Ok((Theme { accent, ..t }, name))),
        name == c.theme_name(colours),
        theme::preset_named(name) == Some(t),
{
    a_written_colour_is_read(accent);
}

/// Where no key is set, the keys are the built-in ones.
pub proof fn without_keys_there_are_the_built_in_ones(c: ConfigView)
    requires
        c.keys.len() == 0,
    ensures
        config::keys_of(c) == Some(keymap::built_in(c.ui.vim_keys)),
{
    assert(c.keys =~= Seq::empty());
}

/// The editor is the visual one where there is one, else the plain one; blanks are none.
pub proof fn the_visual_editor_comes_first(v: Seq<char>, e: Option<Seq<char>>)
    ensures
        text::trimmed(v).len() > 0 ==> config::editor_of(Some(v), e) == Some(v),
        text::trimmed(v).len() == 0 ==> config::editor_of(Some(v), e) == config::editor_of(None, e),
        e matches Some(x) && text::trimmed(x).len() > 0 ==> config::editor_of(None, e) == e,
        config::editor_of(None, None) is None,
{
}

/// The number that a row of decimal digits writes.
pub open spec fn worth(s: Seq<char>) -> int
    decreases s.len(),
{
    if s.len() == 0 {
        0
    } else {
        worth(s.drop_last()) * 10 + (s.last() as int - '0' as int)
    }
}

/// A number in decimal is worth that number, is all digits, and begins with no zero but
/// where it is nothing else.
pub proof fn a_number_is_written_as_it_is(n: nat)
    ensures
        ({
            let s = text::decimal(n);
            &&& worth(s) == n
            &&& s.len() > 0
            &&& forall|i: int| 0 <= i < s.len() ==> '0' <= #[trigger] s[i] <= '9'
            &&& n > 0 ==> s[0] != '0'
        }),
    decreases n,
{
    let s = text::decimal(n);
    if n >= 10 {
        a_number_is_written_as_it_is(n / 10);
        assert(s.drop_last() =~= text::decimal(n / 10));
    } else {
        assert(s.drop_last() =~= Seq::empty());
        assert(worth(s.drop_last()) == 0);
    }
}

/// A time is written as minutes and seconds below an hour, and as hours, minutes and
/// seconds from an hour on: the parts add up to it, and the later ones have two digits.
pub proof fn a_time_is_written_as_it_is(secs: nat)
    ensures
        ({
            let (h, m, s) = (secs / 3600, secs / 60 % 60, secs % 60);
            let tail = seq![':'] + model::two_digits(s);
            &&& h * 3600 + m * 60 + s == secs && m < 60 && s < 60
            &&& h == 0 ==> model::clock(secs) == text::decimal(m) + tail
            &&& h > 0 ==> model::clock(secs) == text::decimal(h) + seq![':'] + model::two_digits(m)
                + tail
            &&& model::two_digits(s).len() == 2 && worth(model::two_digits(s)) == s
            &&& model::two_digits(m).len() == 2 && worth(model::two_digits(m)) == m
        }),
{
    lemma_two_digits(secs % 60);
    lemma_two_digits(secs / 60 % 60);
    assert(secs / 3600 == secs / 60 / 60);
    let tail = seq![':'] + model::two_digits(secs % 60);
    if secs < 3600 {
        assert(model::clock(secs) =~= text::decimal(secs / 60 % 60) + tail);
    } else {
        assert(model::clock(secs) =~= text::decimal(secs / 3600) + seq![':'] + model::two_digits(
            secs / 60 % 60,
        ) + tail);
    }
}

proof fn lemma_two_digits(n: nat)
    requires
        n < 60,
    ensures
        model::two_digits(n).len() == 2,
        worth(model::two_digits(n)) == n,
{
    let s = model::two_digits(n);
    reveal_with_fuel(worth, 3);
    if n < 10 {
        assert(s =~= seq!['0', text::digit(n as int)]);
        assert(s.drop_last() =~= seq!['0']);
        assert(s.drop_last().drop_last() =~= Seq::empty());
    } else {
        assert(text::decimal(n / 10) =~= seq![text::digit(n as int / 10)]);
        assert(s.drop_last() =~= seq![text::digit(n as int / 10)]);
        assert(s.drop_last().drop_last() =~= Seq::empty());
    }
}

/// Texts are joined in their order, with what separates them between each two and nowhere
/// else.
pub proof fn joined_texts_are_separated(parts: Seq<Seq<char>>, p: Seq<char>, sep: Seq<char>)
    ensures
        model::joined(Seq::empty(), sep).len() == 0,
        parts.len() == 0 ==> model::joined(parts.push(p), sep) == p,
        parts.len() > 0 ==> model::joined(parts.push(p), sep) == model::joined(parts, sep) + sep + p,
{
    assert(parts.push(p).drop_last() =~= parts);
}

/// A playlist is listed by its title, with how many tracks it has where that is known.
pub proof fn a_playlist_is_listed_by_its_title(p: model::PlaylistView)
    ensures
        text::begins(startup::playlist_line(p), p.title),
        p.track_count is None ==> startup::playlist_line(p) == p.title,
        p.track_count matches Some(n) ==> text::has_part(
            startup::playlist_line(p),
            text::decimal(n as nat),
        ),
{
    let line = startup::playlist_line(p);
    assert(line.subrange(0, p.title.len() as int) =~= p.title);
    match p.track_count {
        Some(n) => {
            let k = (p.title.len() + "\t"@.len()) as int;
            let d = text::decimal(n as nat);
            assert(line.subrange(k, k + d.len()) =~= d);
            assert(text::part_at(line, d, k));
        },
        None => {},
    }
}

/// A theme's file is where it is set to be, below the user's own directory where it begins
/// with `~`; the user's own theme is the one in use where that is it, and else what that
/// file holds.
pub proof fn the_own_theme_is_that_of_its_file(
    c: ConfigView,
    home: Option<Seq<char>>,
    t: Theme,
    name: Seq<char>,
    file: Option<Seq<char>>,
)
    ensures
        c.ui.theme_file is None <==> c.theme_path(home) is None,
        c.ui.theme_file matches Some(p) ==> c.theme_path(home) == Some(config::expanded(p, home)),
        name == "custom"@ ==> startup::own_theme_of(t, name, file) == Some(t),
        name != "custom"@ && file is None ==> startup::own_theme_of(t, name, file) is None,
        name != "custom"@ && file is Some ==> match startup::own_theme_of(t, name, file) {
            Some(own) => theme::theme_parsed(file->0) == Ok::<Theme, Seq<char>>(own),
            None => theme::theme_parsed(file->0) is Err,
        },
{
}

/// The keys that are set are taken as they are, in their order, where all of them are texts.
pub proof fn keys_are_taken_as_they_are(t: Seq<(Seq<char>, ScalarView)>)
    ensures
        match document::texts_in(t) {
            Some(table) => table.len() == t.len() && forall|i: int|
                0 <= i < t.len() ==> #[trigger] t[i] == (table[i].0, ScalarView::Text(table[i].1)),
            None => exists|i: int| 0 <= i < t.len() && !((#[trigger] t[i]).1 is Text),
        },
    decreases t.len(),
{
    if t.len() > 0 {
        let rest = t.drop_last();
        keys_are_taken_as_they_are(rest);
        match document::texts_in(rest) {
            Some(before) => {
                match document::texts_in(t) {
                    Some(table) => {
                        assert forall|i: int| 0 <= i < t.len() implies #[trigger] t[i] == (
                            table[i].0,
                            ScalarView::Text(table[i].1),
                        ) by {
                            if i < rest.len() {
                                assert(rest[i] == t[i]);
                                assert(table[i] == before[i]);
                            }
                        }
                    },
                    None => {
                        assert(!(t[t.len() - 1].1 is Text));
                    },
                }
            },
            None => {
                let i = choose|i: int| 0 <= i < rest.len() && !((#[trigger] rest[i]).1 is Text);
                assert(t[i] == rest[i]);
            },
        }
    }
}

/// Texts that differ only in the case of their letters pass the same filters, and filters
/// that do let the same texts pass.
pub proof fn case_is_of_no_consequence_to_a_filter(
    f: Seq<char>,
    g: Seq<char>,
    a: Seq<char>,
    b: Seq<char>,
)
    requires
        f.len() > 0,
        g.len() > 0,
    ensures
        text::lowercase(f) == text::lowercase(g) && text::lowercase(a) == text::lowercase(b)
            ==> text::passes(f, a) == text::passes(g, b),
        text::passes(f, a) <==> exists|k: int|
            0 <= k && k + text::lowercase(f).len() <= text::lowercase(a).len()
                && #[trigger] text::lowercase(a).subrange(k, k + text::lowercase(f).len())
                == text::lowercase(f),
        text::passes(Seq::empty(), a),
{
    let (t, p) = (text::lowercase(a), text::lowercase(f));
    if text::passes(f, a) {
        let k = choose|k: int| text::part_at(t, p, k);
        assert(t.subrange(k, k + p.len()) == p);
    }
    if exists|k: int|
        0 <= k && k + p.len() <= t.len() && #[trigger] t.subrange(k, k + p.len()) == p {
        let k = choose|k: int|
            0 <= k && k + p.len() <= t.len() && #[trigger] t.subrange(k, k + p.len()) == p;
        assert(text::part_at(t, p, k));
    }
}

} // verus!
