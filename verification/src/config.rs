//! The settings, their defaults, and the rules a file of them has to keep.

use crate::app::Pane;
use crate::copied::Copied;
use crate::document::{self, Scalar, ScalarView, only_texts};
use crate::event::InputAction;
use crate::keymap::{self, KeyMap};
use crate::outline::{
    self, Group, GroupView, NodeView, Opened, choose_name, find, find_blocked, find_group,
    numbers_fit, open, read_outline,
};
use crate::text::{
    self, chars_of, join2, join3, join_path, push_decimal, same_text, split_text, text_of, trim,
};
use crate::theme::{self, Theme, parse_hex};
use toml::de::DeValue;
use vstd::prelude::*;

verus! {

/// How one signs in.
#[derive(Debug, Clone, Copy, PartialEq, Eq, Structural)]
pub enum AuthKind {
    /// Kept only so that an old configuration naming it still loads, with a clear
    /// error later.
    OAuth,
    Cookie,
}

/// How one signs in, and with what.
#[derive(Debug, Clone, PartialEq, Eq)]
pub struct AuthConfig {
    pub kind: AuthKind,
    pub cookie_file: Option<String>,
}

/// How playback starts.
#[derive(Debug, Clone, Copy, PartialEq, Eq, Structural)]
pub struct PlaybackConfig {
    pub volume: u16,
    pub shuffle: bool,
}

/// Which built-in theme to start with. `Auto` picks from the terminal's background.
#[derive(Debug, Clone, PartialEq, Eq)]
pub enum ThemeChoice {
    Auto,
    Named(String),
}

/// The source the application opens on.
#[derive(Debug, Clone, Copy, PartialEq, Eq, Structural)]
pub enum StartPane {
    Home,
    Playlists,
    /// The liked and saved songs.
    Fav,
    Albums,
    Artists,
    Search,
    Queue,
}

/// How things look.
#[derive(Debug, Clone, PartialEq, Eq)]
pub struct UiConfig {
    pub vim_keys: bool,
    pub tick_ms: u64,
    pub accent: Option<String>,
    pub album_art: bool,
    pub theme_file: Option<String>,
    /// Reload the theme file when it changes on disk.
    pub auto_reload_theme: bool,
    pub theme: ThemeChoice,
    pub start_pane: StartPane,
    /// Scroll wheel and click support.
    pub mouse: bool,
}

/// Tunables that change how existing keys behave, rather than which key does what.
#[derive(Debug, Clone, Copy, PartialEq, Eq, Structural)]
pub struct BehaviourConfig {
    pub seek_step_secs: i64,
    pub volume_step: i64,
    /// Ask before quitting. Off by default: `q` quits at once.
    pub confirm_on_quit: bool,
}

/// Where audio is kept, and how much of it.
#[derive(Debug, Clone, PartialEq, Eq)]
pub struct StorageConfig {
    pub download_dir: Option<String>,
    pub cache_size_mb: u64,
    pub prefetch_count: usize,
}

/// All settings.
#[derive(Debug, Clone, PartialEq, Eq)]
pub struct Config {
    /// Where this was loaded from.
    pub config_path: String,
    pub auth: AuthConfig,
    pub playback: PlaybackConfig,
    pub ui: UiConfig,
    pub behaviour: BehaviourConfig,
    pub storage: StorageConfig,
    /// The `[keys]` table as it stands: the keymap knows the names of actions.
    pub keys: Vec<(String, Scalar)>,
}

/// The model of an `AuthConfig`.
#[verifier::ext_equal]
pub struct AuthView {
    pub kind: AuthKind,
    pub cookie_file: Option<Seq<char>>,
}

/// The model of a `ThemeChoice`.
#[verifier::ext_equal]
pub enum ThemeChoiceView {
    Auto,
    Named(Seq<char>),
}

/// The model of a `UiConfig`.
#[verifier::ext_equal]
pub struct UiView {
    pub vim_keys: bool,
    pub tick_ms: u64,
    pub accent: Option<Seq<char>>,
    pub album_art: bool,
    pub theme_file: Option<Seq<char>>,
    pub auto_reload_theme: bool,
    pub theme: ThemeChoiceView,
    pub start_pane: StartPane,
    pub mouse: bool,
}

/// The model of a `StorageConfig`.
#[verifier::ext_equal]
pub struct StorageSettings {
    pub download_dir: Option<Seq<char>>,
    pub cache_size_mb: u64,
    pub prefetch_count: usize,
}

/// The model of a `Config`.
#[verifier::ext_equal]
pub struct ConfigView {
    pub config_path: Seq<char>,
    pub auth: AuthView,
    pub playback: PlaybackConfig,
    pub ui: UiView,
    pub behaviour: BehaviourConfig,
    pub storage: StorageSettings,
    pub keys: Seq<(Seq<char>, ScalarView)>,
}

impl DeepView for AuthConfig {
    type V = AuthView;

    open spec fn deep_view(&self) -> AuthView {
        AuthView { kind: self.kind, cookie_file: self.cookie_file.deep_view() }
    }
}

impl DeepView for ThemeChoice {
    type V = ThemeChoiceView;

    open spec fn deep_view(&self) -> ThemeChoiceView {
        match self {
            ThemeChoice::Auto => ThemeChoiceView::Auto,
            ThemeChoice::Named(n) => ThemeChoiceView::Named(n@),
        }
    }
}

impl DeepView for UiConfig {
    type V = UiView;

    open spec fn deep_view(&self) -> UiView {
        UiView {
            vim_keys: self.vim_keys,
            tick_ms: self.tick_ms,
            accent: self.accent.deep_view(),
            album_art: self.album_art,
            theme_file: self.theme_file.deep_view(),
            auto_reload_theme: self.auto_reload_theme,
            theme: self.theme.deep_view(),
            start_pane: self.start_pane,
            mouse: self.mouse,
        }
    }
}

impl DeepView for StorageConfig {
    type V = StorageSettings;

    open spec fn deep_view(&self) -> StorageSettings {
        StorageSettings {
            download_dir: self.download_dir.deep_view(),
            cache_size_mb: self.cache_size_mb,
            prefetch_count: self.prefetch_count,
        }
    }
}

impl DeepView for Config {
    type V = ConfigView;

    open spec fn deep_view(&self) -> ConfigView {
        ConfigView {
            config_path: self.config_path@,
            auth: self.auth.deep_view(),
            playback: self.playback,
            ui: self.ui.deep_view(),
            behaviour: self.behaviour,
            storage: self.storage.deep_view(),
            keys: self.keys.deep_view(),
        }
    }
}

impl ConfigView {
    /// The settings where none are given.
    pub open spec fn standard() -> ConfigView {
        ConfigView {
            config_path: Seq::empty(),
            auth: AuthView { kind: AuthKind::Cookie, cookie_file: None },
            playback: PlaybackConfig { volume: 70, shuffle: false },
            ui: UiView {
                vim_keys: true,
                tick_ms: 250,
                accent: None,
                album_art: true,
                theme_file: None,
                auto_reload_theme: false,
                theme: ThemeChoiceView::Auto,
                start_pane: StartPane::Playlists,
                mouse: true,
            },
            behaviour: BehaviourConfig {
                seek_step_secs: 5,
                volume_step: 5,
                confirm_on_quit: false,
            },
            storage: StorageSettings { download_dir: None, cache_size_mb: 1024, prefetch_count: 2 },
            keys: Seq::empty(),
        }
    }
}

impl Default for AuthConfig {
    fn default() -> (r: AuthConfig)
        ensures
            r.deep_view() == ConfigView::standard().auth,
    {
        AuthConfig { kind: AuthKind::Cookie, cookie_file: None }
    }
}

impl Default for PlaybackConfig {
    fn default() -> (r: PlaybackConfig)
        ensures
            r == ConfigView::standard().playback,
    {
        PlaybackConfig { volume: 70, shuffle: false }
    }
}

impl Default for ThemeChoice {
    fn default() -> (r: ThemeChoice)
        ensures
            r.deep_view() == ThemeChoiceView::Auto,
    {
        ThemeChoice::Auto
    }
}

impl Default for StartPane {
    fn default() -> (r: StartPane)
        ensures
            r == StartPane::Playlists,
    {
        StartPane::Playlists
    }
}

impl Default for UiConfig {
    fn default() -> (r: UiConfig)
        ensures
            r.deep_view() == ConfigView::standard().ui,
    {
        UiConfig {
            vim_keys: true,
            tick_ms: 250,
            accent: None,
            album_art: true,
            theme_file: None,
            auto_reload_theme: false,
            theme: ThemeChoice::Auto,
            start_pane: StartPane::Playlists,
            mouse: true,
        }
    }
}

impl Default for BehaviourConfig {
    fn default() -> (r: BehaviourConfig)
        ensures
            r == (BehaviourConfig { seek_step_secs: 5, volume_step: 5, confirm_on_quit: false }),
    {
        BehaviourConfig { seek_step_secs: 5, volume_step: 5, confirm_on_quit: false }
    }
}

impl Default for StorageConfig {
    fn default() -> (r: StorageConfig)
        ensures
            r.deep_view() == ConfigView::standard().storage,
    {
        StorageConfig { download_dir: None, cache_size_mb: 1024, prefetch_count: 2 }
    }
}

impl Default for Config {
    fn default() -> (r: Config)
        ensures
            r.deep_view() == ConfigView::standard(),
    {
        let r = Config {
            config_path: String::new(),
            auth: AuthConfig::default(),
            playback: PlaybackConfig::default(),
            ui: UiConfig::default(),
            behaviour: BehaviourConfig::default(),
            storage: StorageConfig::default(),
            keys: Vec::new(),
        };
        assert(r.deep_view() =~= ConfigView::standard());
        r
    }
}

impl BehaviourConfig {
    /// A seek step has a step back.
    pub open spec fn in_range(self) -> bool {
        self.seek_step_secs > i64::MIN
    }
}

impl StartPane {
    /// The pane it is.
    pub open spec fn opens(self) -> Pane {
        match self {
            StartPane::Home => Pane::Home,
            StartPane::Playlists => Pane::Playlists,
            StartPane::Fav => Pane::Songs,
            StartPane::Albums => Pane::Albums,
            StartPane::Artists => Pane::Artists,
            StartPane::Search => Pane::Search,
            StartPane::Queue => Pane::Queue,
        }
    }

    /// The pane it is.
    pub fn pane(self) -> (r: Pane)
        ensures
            r == self.opens(),
    {
        match self {
            StartPane::Home => Pane::Home,
            StartPane::Playlists => Pane::Playlists,
            StartPane::Fav => Pane::Songs,
            StartPane::Albums => Pane::Albums,
            StartPane::Artists => Pane::Artists,
            StartPane::Search => Pane::Search,
            StartPane::Queue => Pane::Queue,
        }
    }
}

/// What a section of a document holds; nothing where it is absent. `None` where something
/// else than a group of settings stands there.
pub open spec fn section(d: Seq<(Seq<char>, NodeView)>, name: Seq<char>) -> Option<GroupView> {
    outline::group_of(outline::value_of(d, name))
}

/// A switch, or its default; `None` where something else is set.
pub open spec fn flag_in(g: GroupView, place: int, key: Seq<char>, d: bool) -> Option<bool> {
    match g.setting(place, key) {
        None => Some(d),
        Some(NodeView::Flag(b)) => Some(b),
        Some(_) => None,
    }
}

/// A whole number within bounds, or its default; `None` where something else is set.
pub open spec fn number_in(
    g: GroupView,
    place: int,
    key: Seq<char>,
    d: int,
    lo: int,
    hi: int,
) -> Option<int> {
    match g.setting(place, key) {
        None => Some(d),
        Some(NodeView::Number(Some(n), _)) => if lo <= n <= hi {
            Some(n as int)
        } else {
            None
        },
        Some(_) => None,
    }
}

/// A text, if one is set; `None` where something else is.
pub open spec fn text_in(g: GroupView, place: int, key: Seq<char>) -> Option<Option<Seq<char>>> {
    match g.setting(place, key) {
        None => Some(None),
        Some(NodeView::Text(s)) => Some(Some(s)),
        Some(_) => None,
    }
}

/// One of several names, if one is set; `None` where something else is.
pub open spec fn name_in(g: GroupView, place: int, key: Seq<char>) -> Option<Option<Seq<char>>> {
    match g.setting(place, key) {
        None => Some(None),
        Some(n) => match outline::choice(n) {
            Some(s) => Some(Some(s)),
            None => None,
        },
    }
}

/// A letter of the alphabet in lower case, where it is one in upper case.
pub open spec fn small(c: char) -> char {
    if 'A' <= c <= 'Z' {
        (c as int + 32) as char
    } else {
        c
    }
}

/// A text is this one, but for the case of letters of the alphabet.
pub open spec fn same_but_case(s: Seq<char>, t: Seq<char>) -> bool {
    s.len() == t.len() && forall|i: int| 0 <= i < s.len() ==> small(#[trigger] s[i]) == small(t[i])
}

/// How one signs in, by its name.
pub open spec fn kind_named(s: Option<Seq<char>>) -> Option<AuthKind> {
    match s {
        None => Some(AuthKind::Cookie),
        Some(n) => if n == "cookie"@ {
            Some(AuthKind::Cookie)
        } else if n == "oauth"@ {
            Some(AuthKind::OAuth)
        } else {
            None
        },
    }
}

/// A theme, by what is set.
pub open spec fn theme_set(s: Option<Seq<char>>) -> ThemeChoiceView {
    match s {
        None => ThemeChoiceView::Auto,
        Some(n) => if same_but_case(n, "auto"@) {
            ThemeChoiceView::Auto
        } else {
            ThemeChoiceView::Named(n)
        },
    }
}

/// A source to open on, by its name.
pub open spec fn pane_named(s: Option<Seq<char>>) -> Option<StartPane> {
    match s {
        None => Some(StartPane::Playlists),
        Some(n) => if n == "home"@ {
            Some(StartPane::Home)
        } else if n == "playlists"@ {
            Some(StartPane::Playlists)
        } else if n == "fav"@ || n == "songs"@ {
            Some(StartPane::Fav)
        } else if n == "albums"@ {
            Some(StartPane::Albums)
        } else if n == "artists"@ {
            Some(StartPane::Artists)
        } else if n == "search"@ {
            Some(StartPane::Search)
        } else if n == "queue"@ {
            Some(StartPane::Queue)
        } else {
            None
        },
    }
}

/// The names of the sections.
pub open spec fn section_names() -> Seq<Seq<char>> {
    seq!["auth"@, "playback"@, "ui"@, "behaviour"@, "storage"@, "keys"@]
}

/// The settings of `[auth]`, in their order.
pub open spec fn auth_names() -> Seq<Seq<char>> {
    seq!["kind"@, "cookie_file"@]
}

/// The settings of `[playback]`, in their order.
pub open spec fn playback_names() -> Seq<Seq<char>> {
    seq!["volume"@, "shuffle"@]
}

/// The settings of `[ui]`, in their order.
pub open spec fn ui_names() -> Seq<Seq<char>> {
    seq![
        "vim_keys"@,
        "tick_ms"@,
        "accent"@,
        "album_art"@,
        "theme_file"@,
        "auto_reload_theme"@,
        "theme"@,
        "start_pane"@,
        "mouse"@,
    ]
}

/// The settings of `[behaviour]`, in their order.
pub open spec fn behaviour_names() -> Seq<Seq<char>> {
    seq!["seek_step_secs"@, "volume_step"@, "confirm_on_quit"@]
}

/// The settings of `[storage]`, in their order.
pub open spec fn storage_names() -> Seq<Seq<char>> {
    seq!["download_dir"@, "cache_size_mb"@, "prefetch_count"@]
}

/// The `[auth]` settings, or the first that is not of its kind.
pub open spec fn auth_of(g: GroupView) -> Result<AuthView, Seq<char>> {
    match name_in(g, 0, "kind"@) {
        None => Err("kind"@),
        Some(kind) => match kind_named(kind) {
            None => Err("kind"@),
            Some(kind) => match text_in(g, 1, "cookie_file"@) {
                None => Err("cookie_file"@),
                Some(cookie_file) => Ok(AuthView { kind, cookie_file }),
            },
        },
    }
}

/// The `[playback]` settings, or the first that is not of its kind.
pub open spec fn playback_of(g: GroupView) -> Result<PlaybackConfig, Seq<char>> {
    match number_in(g, 0, "volume"@, 70, 0, u16::MAX as int) {
        None => Err("volume"@),
        Some(volume) => match flag_in(g, 1, "shuffle"@, false) {
            None => Err("shuffle"@),
            Some(shuffle) => Ok(PlaybackConfig { volume: volume as u16, shuffle }),
        },
    }
}

/// The `[ui]` settings, or the first that is not of its kind.
pub open spec fn ui_of(g: GroupView) -> Result<UiView, Seq<char>> {
    match flag_in(g, 0, "vim_keys"@, true) {
        None => Err("vim_keys"@),
        Some(vim_keys) => match number_in(g, 1, "tick_ms"@, 250, 0, u64::MAX as int) {
            None => Err("tick_ms"@),
            Some(tick_ms) => match text_in(g, 2, "accent"@) {
                None => Err("accent"@),
                Some(accent) => match flag_in(g, 3, "album_art"@, true) {
                    None => Err("album_art"@),
                    Some(album_art) => match text_in(g, 4, "theme_file"@) {
                        None => Err("theme_file"@),
                        Some(theme_file) => match flag_in(g, 5, "auto_reload_theme"@, false) {
                            None => Err("auto_reload_theme"@),
                            Some(auto_reload_theme) => match text_in(g, 6, "theme"@) {
                                None => Err("theme"@),
                                Some(theme) => match name_in(g, 7, "start_pane"@) {
                                    None => Err("start_pane"@),
                                    Some(pane) => match pane_named(pane) {
                                        None => Err("start_pane"@),
                                        Some(start_pane) => match flag_in(g, 8, "mouse"@, true) {
                                            None => Err("mouse"@),
                                            Some(mouse) => Ok(
                                                UiView {
                                                    vim_keys,
                                                    tick_ms: tick_ms as u64,
                                                    accent,
                                                    album_art,
                                                    theme_file,
                                                    auto_reload_theme,
                                                    theme: theme_set(theme),
                                                    start_pane,
                                                    mouse,
                                                },
                                            ),
                                        },
                                    },
                                },
                            },
                        },
                    },
                },
            },
        },
    }
}

/// The `[behaviour]` settings, or the first that is not of its kind.
pub open spec fn behaviour_of(g: GroupView) -> Result<BehaviourConfig, Seq<char>> {
    match number_in(g, 0, "seek_step_secs"@, 5, i64::MIN as int, i64::MAX as int) {
        None => Err("seek_step_secs"@),
        Some(seek) => match number_in(g, 1, "volume_step"@, 5, i64::MIN as int, i64::MAX as int) {
            None => Err("volume_step"@),
            Some(volume) => match flag_in(g, 2, "confirm_on_quit"@, false) {
                None => Err("confirm_on_quit"@),
                Some(confirm_on_quit) => Ok(
                    BehaviourConfig {
                        seek_step_secs: seek as i64,
                        volume_step: volume as i64,
                        confirm_on_quit,
                    },
                ),
            },
        },
    }
}

/// The `[storage]` settings, or the first that is not of its kind.
pub open spec fn storage_of(g: GroupView) -> Result<StorageSettings, Seq<char>> {
    match text_in(g, 0, "download_dir"@) {
        None => Err("download_dir"@),
        Some(download_dir) => match number_in(g, 1, "cache_size_mb"@, 1024, 0, u64::MAX as int) {
            None => Err("cache_size_mb"@),
            Some(size) => match number_in(g, 2, "prefetch_count"@, 2, 0, usize::MAX as int) {
                None => Err("prefetch_count"@),
                Some(count) => Ok(
                    StorageSettings {
                        download_dir,
                        cache_size_mb: size as u64,
                        prefetch_count: count as usize,
                    },
                ),
            },
        },
    }
}

/// A value of a `[keys]` table as it is carried along.
pub open spec fn plain(n: NodeView) -> ScalarView {
    match n {
        NodeView::Text(s) => ScalarView::Text(s),
        NodeView::Number(Some(n), _) => if i64::MIN <= n <= i64::MAX {
            ScalarView::Number(n as i64)
        } else {
            ScalarView::Other
        },
        NodeView::Flag(b) => ScalarView::Flag(b),
        _ => ScalarView::Other,
    }
}

/// The values of a `[keys]` table as they are carried along.
pub open spec fn plain_table(t: Seq<(Seq<char>, NodeView)>) -> Seq<(Seq<char>, ScalarView)> {
    Seq::new(t.len(), |i: int| (t[i].0, plain(t[i].1)))
}

/// The name under which `serde` hands on a date of TOML where a table is asked for.
pub const DATE_NAME: &'static str = "$__toml_private_datetime";

/// The `[keys]` table; `None` where something else stands there, or a number in it does
/// not fit. A date is a table of one text.
pub open spec fn keys_table(d: Seq<(Seq<char>, NodeView)>) -> Option<Seq<(Seq<char>, ScalarView)>> {
    match outline::value_of(d, "keys"@) {
        None => Some(Seq::empty()),
        Some(NodeView::Date(s)) => Some(seq![(DATE_NAME@, ScalarView::Text(s))]),
        Some(NodeView::Table(t)) => if outline::all_fit(NodeView::Table(t)) {
            Some(plain_table(t))
        } else {
            None
        },
        Some(_) => None,
    }
}

/// A setting by its section and its name.
pub open spec fn dotted(section: Seq<char>, key: Seq<char>) -> Seq<char> {
    section + "."@ + key
}

/// What is read from a section, or the setting of it that is not of its kind.
pub open spec fn in_section<T>(name: Seq<char>, r: Option<Result<T, Seq<char>>>) -> Result<
    T,
    Seq<char>,
> {
    match r {
        Some(Ok(x)) => Ok(x),
        Some(Err(key)) => Err(dotted(name, key)),
        None => Err(name),
    }
}

/// The sections of a document that have settings, each read.
pub open spec fn auth_read(d: Seq<(Seq<char>, NodeView)>) -> Result<AuthView, Seq<char>> {
    in_section(
        "auth"@,
        match section(d, "auth"@) {
            Some(g) => Some(
                match g.blocked(auth_names()) {
                    Some(key) => Err(key),
                    None => auth_of(g),
                },
            ),
            None => None,
        },
    )
}

pub open spec fn playback_read(d: Seq<(Seq<char>, NodeView)>) -> Result<PlaybackConfig, Seq<char>> {
    in_section(
        "playback"@,
        match section(d, "playback"@) {
            Some(g) => Some(
                match g.blocked(playback_names()) {
                    Some(key) => Err(key),
                    None => playback_of(g),
                },
            ),
            None => None,
        },
    )
}

pub open spec fn ui_read(d: Seq<(Seq<char>, NodeView)>) -> Result<UiView, Seq<char>> {
    in_section(
        "ui"@,
        match section(d, "ui"@) {
            Some(g) => Some(
                match g.blocked(ui_names()) {
                    Some(key) => Err(key),
                    None => ui_of(g),
                },
            ),
            None => None,
        },
    )
}

pub open spec fn behaviour_read(d: Seq<(Seq<char>, NodeView)>) -> Result<
    BehaviourConfig,
    Seq<char>,
> {
    in_section(
        "behaviour"@,
        match section(d, "behaviour"@) {
            Some(g) => Some(
                match g.blocked(behaviour_names()) {
                    Some(key) => Err(key),
                    None => behaviour_of(g),
                },
            ),
            None => None,
        },
    )
}

pub open spec fn storage_read(d: Seq<(Seq<char>, NodeView)>) -> Result<StorageSettings, Seq<char>> {
    in_section(
        "storage"@,
        match section(d, "storage"@) {
            Some(g) => Some(
                match g.blocked(storage_names()) {
                    Some(key) => Err(key),
                    None => storage_of(g),
                },
            ),
            None => None,
        },
    )
}

/// The settings of a document, or the first that is not of its kind. What it does not set
/// has its default, and what is no setting is passed over, where that can be.
pub open spec fn settings(d: Seq<(Seq<char>, NodeView)>) -> Result<ConfigView, Seq<char>> {
    match outline::blocked(d, section_names()) {
        Some(name) => Err(name),
        None => sections_read(d),
    }
}

/// The settings of the sections of a document.
pub open spec fn sections_read(d: Seq<(Seq<char>, NodeView)>) -> Result<ConfigView, Seq<char>> {
    match auth_read(d) {
        Err(name) => Err(name),
        Ok(auth) => match playback_read(d) {
            Err(name) => Err(name),
            Ok(playback) => match ui_read(d) {
                Err(name) => Err(name),
                Ok(ui) => match behaviour_read(d) {
                    Err(name) => Err(name),
                    Ok(behaviour) => match storage_read(d) {
                        Err(name) => Err(name),
                        Ok(storage) => match keys_table(d) {
                            None => Err("keys"@),
                            Some(keys) => Ok(
                                ConfigView {
                                    config_path: Seq::empty(),
                                    auth,
                                    playback,
                                    ui,
                                    behaviour,
                                    storage,
                                    keys,
                                },
                            ),
                        },
                    },
                },
            },
        },
    }
}

/// Why settings cannot be used.
#[derive(Debug, Clone, PartialEq, Eq)]
pub enum ConfigError {
    Io { path: String, reason: String },
    Parse(String),
    Volume(u16),
    Step(String, i64),
    UnknownTheme(String),
    BadAccent(String),
    Theme(String),
}

/// The model of a `ConfigError`.
#[verifier::ext_equal]
pub enum ConfigErrorView {
    Io { path: Seq<char>, reason: Seq<char> },
    Parse(Seq<char>),
    Volume(u16),
    Step(Seq<char>, i64),
    UnknownTheme(Seq<char>),
    BadAccent(Seq<char>),
    Theme(Seq<char>),
}

impl DeepView for ConfigError {
    type V = ConfigErrorView;

    open spec fn deep_view(&self) -> ConfigErrorView {
        match self {
            ConfigError::Io { path, reason } => ConfigErrorView::Io {
                path: path@,
                reason: reason@,
            },
            ConfigError::Parse(m) => ConfigErrorView::Parse(m@),
            ConfigError::Volume(v) => ConfigErrorView::Volume(*v),
            ConfigError::Step(key, n) => ConfigErrorView::Step(key@, *n),
            ConfigError::UnknownTheme(n) => ConfigErrorView::UnknownTheme(n@),
            ConfigError::BadAccent(a) => ConfigErrorView::BadAccent(a@),
            ConfigError::Theme(m) => ConfigErrorView::Theme(m@),
        }
    }
}

/// What is wrong with settings that are all of their kinds: the volume must be a
/// percentage, and a step of nothing would make its key do nothing.
pub open spec fn fault(c: ConfigView) -> Option<ConfigErrorView> {
    if c.playback.volume > 100 {
        Some(ConfigErrorView::Volume(c.playback.volume))
    } else if c.behaviour.seek_step_secs <= 0 {
        Some(ConfigErrorView::Step("behaviour.seek_step_secs"@, c.behaviour.seek_step_secs))
    } else if c.behaviour.volume_step <= 0 {
        Some(ConfigErrorView::Step("behaviour.volume_step"@, c.behaviour.volume_step))
    } else {
        None
    }
}

/// A text as Rust source would write it, with what needs it escaped.
pub uninterp spec fn quoted(s: Seq<char>) -> Seq<char>;

/// `str`'s `Debug` text: the text in quotation marks, with what needs it escaped.
#[verifier::external_body]
fn quote(s: &str) -> (r: String)
    ensures
        r@ == quoted(s@),
{
    format!("{s:?}")
}

/// A whole number in decimal, with its sign where it is below nothing.
pub open spec fn signed(n: int) -> Seq<char> {
    if n < 0 {
        "-"@ + text::decimal((-n) as nat)
    } else {
        text::decimal(n as nat)
    }
}

fn push_signed(out: &mut String, n: i64)
    ensures
        final(out)@ == old(out)@ + signed(n as int),
{
    if n < 0 {
        out.append("-");
        let m: u64 = (-(n as i128)) as u64;
        push_decimal(out, m);
        assert(out@ =~= old(out)@ + signed(n as int));
    } else {
        push_decimal(out, n as u64);
    }
}

/// What the user is told.
pub open spec fn error_text(e: ConfigErrorView) -> Seq<char> {
    match e {
        ConfigErrorView::Io { path, reason } => "could not read config at "@ + path + ": "@ + reason,
        ConfigErrorView::Parse(m) => "config is not valid TOML: "@ + m,
        ConfigErrorView::Volume(v) => "config key `playback.volume` must be 0-100, got "@ + text::decimal(
            v as nat,
        ),
        ConfigErrorView::Step(key, n) => "config key `"@ + key
            + "` must be greater than 0, got "@ + signed(n as int),
        ConfigErrorView::UnknownTheme(n) => "config key `ui.theme` names no built-in theme: "@
            + quoted(n),
        ConfigErrorView::BadAccent(a) =>
            "config key `ui.accent` is not a hex color like \"#7aa2f7\": "@ + quoted(a),
        ConfigErrorView::Theme(m) => "theme file is not valid: "@ + m,
    }
}

impl ConfigError {
    /// What the user is told.
    pub fn message(&self) -> (r: String)
        ensures
            r@ == error_text(self.deep_view()),
    {
        match self {
            ConfigError::Io { path, reason } => {
                let mut s = join3("could not read config at ", path.as_str(), ": ");
                s.append(reason.as_str());
                s
            },
            ConfigError::Parse(m) => join2("config is not valid TOML: ", m.as_str()),
            ConfigError::Volume(v) => {
                let mut s = "config key `playback.volume` must be 0-100, got ".to_owned();
                push_decimal(&mut s, *v as u64);
                s
            },
            ConfigError::Step(key, n) => {
                let mut s = join3("config key `", key.as_str(), "` must be greater than 0, got ");
                push_signed(&mut s, *n);
                s
            },
            ConfigError::UnknownTheme(n) => {
                let q = quote(n.as_str());
                join2("config key `ui.theme` names no built-in theme: ", q.as_str())
            },
            ConfigError::BadAccent(a) => {
                let q = quote(a.as_str());
                join2("config key `ui.accent` is not a hex color like \"#7aa2f7\": ", q.as_str())
            },
            ConfigError::Theme(m) => join2("theme file is not valid: ", m.as_str()),
        }
    }
}

fn flag_or(g: &Group<'_>, place: usize, key: &str, d: bool) -> (r: Option<bool>)
    ensures
        r == flag_in(g.group(), place as int, key@, d),
{
    match g.setting(place, key) {
        None => Some(d),
        Some(Opened::Flag(b)) => Some(b),
        Some(_) => None,
    }
}

fn number_or(g: &Group<'_>, place: usize, key: &str, d: i128, lo: i128, hi: i128) -> (r: Option<
    i128,
>)
    ensures
        match r {
            Some(n) => number_in(g.group(), place as int, key@, d as int, lo as int, hi as int)
                == Some(n as int),
            None => number_in(
                g.group(),
                place as int,
                key@,
                d as int,
                lo as int,
                hi as int,
            ) is None,
        },
{
    match g.setting(place, key) {
        None => Some(d),
        Some(Opened::Number(Some(n), _)) => if lo <= n && n <= hi {
            Some(n)
        } else {
            None
        },
        Some(_) => None,
    }
}

fn text_or(g: &Group<'_>, place: usize, key: &str) -> (r: Option<Option<String>>)
    ensures
        r.deep_view() == text_in(g.group(), place as int, key@),
{
    match g.setting(place, key) {
        None => Some(None),
        Some(Opened::Text(s)) => Some(Some(s)),
        Some(_) => None,
    }
}

fn name_or(g: &Group<'_>, place: usize, key: &str) -> (r: Option<Option<String>>)
    ensures
        r.deep_view() == name_in(g.group(), place as int, key@),
{
    match g.setting(place, key) {
        None => Some(None),
        Some(o) => match choose_name(o) {
            Some(s) => Some(Some(s)),
            None => None,
        },
    }
}

fn small_of(c: char) -> (r: char)
    ensures
        r == small(c),
{
    match c {
        'A'..='Z' => ((c as u8) + 32) as char,
        _ => c,
    }
}

fn equal_but_case(s: &str, t: &str) -> (r: bool)
    ensures
        r == same_but_case(s@, t@),
{
    let a = chars_of(s);
    let b = chars_of(t);
    if a.len() != b.len() {
        return false;
    }
    let mut i: usize = 0;
    while i < a.len()
        invariant
            a@ == s@,
            b@ == t@,
            a@.len() == b@.len(),
            i <= a@.len(),
            forall|k: int| 0 <= k < i ==> small(#[trigger] a@[k]) == small(b@[k]),
        decreases a@.len() - i,
    {
        if small_of(a[i]) != small_of(b[i]) {
            assert(small(s@[i as int]) != small(t@[i as int]));
            return false;
        }
        i += 1;
    }
    true
}

fn kind_from(s: Option<String>) -> (r: Option<AuthKind>)
    ensures
        r == kind_named(s.deep_view()),
{
    match s {
        None => Some(AuthKind::Cookie),
        Some(n) => if same_text(n.as_str(), "cookie") {
            Some(AuthKind::Cookie)
        } else if same_text(n.as_str(), "oauth") {
            Some(AuthKind::OAuth)
        } else {
            None
        },
    }
}

fn theme_from(s: Option<String>) -> (r: ThemeChoice)
    ensures
        r.deep_view() == theme_set(s.deep_view()),
{
    match s {
        None => ThemeChoice::Auto,
        Some(n) => if equal_but_case(n.as_str(), "auto") {
            ThemeChoice::Auto
        } else {
            ThemeChoice::Named(n)
        },
    }
}

fn pane_from(s: Option<String>) -> (r: Option<StartPane>)
    ensures
        r == pane_named(s.deep_view()),
{
    match s {
        None => Some(StartPane::Playlists),
        Some(n) => if same_text(n.as_str(), "home") {
            Some(StartPane::Home)
        } else if same_text(n.as_str(), "playlists") {
            Some(StartPane::Playlists)
        } else if same_text(n.as_str(), "fav") || same_text(n.as_str(), "songs") {
            Some(StartPane::Fav)
        } else if same_text(n.as_str(), "albums") {
            Some(StartPane::Albums)
        } else if same_text(n.as_str(), "artists") {
            Some(StartPane::Artists)
        } else if same_text(n.as_str(), "search") {
            Some(StartPane::Search)
        } else if same_text(n.as_str(), "queue") {
            Some(StartPane::Queue)
        } else {
            None
        },
    }
}

fn auth_from(g: &Group<'_>) -> (r: Result<AuthConfig, &'static str>)
    ensures
        match auth_of(g.group()) {
            Ok(v) => r matches Ok(x) && x.deep_view() == v,
            Err(key) => r matches Err(k) && k@ == key,
        },
{
    let kind = match name_or(g, 0, "kind") {
        Some(x) => x,
        None => return Err("kind"),
    };
    let kind = match kind_from(kind) {
        Some(x) => x,
        None => return Err("kind"),
    };
    let cookie_file = match text_or(g, 1, "cookie_file") {
        Some(x) => x,
        None => return Err("cookie_file"),
    };
    Ok(AuthConfig { kind, cookie_file })
}

fn playback_from(g: &Group<'_>) -> (r: Result<PlaybackConfig, &'static str>)
    ensures
        match playback_of(g.group()) {
            Ok(v) => r matches Ok(x) && x == v,
            Err(key) => r matches Err(k) && k@ == key,
        },
{
    let volume: i128 = match number_or(g, 0, "volume", 70, 0, u16::MAX as i128) {
        Some(x) => x,
        None => return Err("volume"),
    };
    let shuffle = match flag_or(g, 1, "shuffle", false) {
        Some(x) => x,
        None => return Err("shuffle"),
    };
    Ok(PlaybackConfig { volume: volume as u16, shuffle })
}

fn ui_from(g: &Group<'_>) -> (r: Result<UiConfig, &'static str>)
    ensures
        match ui_of(g.group()) {
            Ok(v) => r matches Ok(x) && x.deep_view() == v,
            Err(key) => r matches Err(k) && k@ == key,
        },
{
    let vim_keys = match flag_or(g, 0, "vim_keys", true) {
        Some(x) => x,
        None => return Err("vim_keys"),
    };
    let tick_ms: i128 = match number_or(g, 1, "tick_ms", 250, 0, u64::MAX as i128) {
        Some(x) => x,
        None => return Err("tick_ms"),
    };
    let accent = match text_or(g, 2, "accent") {
        Some(x) => x,
        None => return Err("accent"),
    };
    let album_art = match flag_or(g, 3, "album_art", true) {
        Some(x) => x,
        None => return Err("album_art"),
    };
    let theme_file = match text_or(g, 4, "theme_file") {
        Some(x) => x,
        None => return Err("theme_file"),
    };
    let auto_reload_theme = match flag_or(g, 5, "auto_reload_theme", false) {
        Some(x) => x,
        None => return Err("auto_reload_theme"),
    };
    let theme = match text_or(g, 6, "theme") {
        Some(x) => x,
        None => return Err("theme"),
    };
    let pane = match name_or(g, 7, "start_pane") {
        Some(x) => x,
        None => return Err("start_pane"),
    };
    let start_pane = match pane_from(pane) {
        Some(x) => x,
        None => return Err("start_pane"),
    };
    let mouse = match flag_or(g, 8, "mouse", true) {
        Some(x) => x,
        None => return Err("mouse"),
    };
    Ok(
        UiConfig {
            vim_keys,
            tick_ms: tick_ms as u64,
            accent,
            album_art,
            theme_file,
            auto_reload_theme,
            theme: theme_from(theme),
            start_pane,
            mouse,
        },
    )
}

fn behaviour_from(g: &Group<'_>) -> (r: Result<BehaviourConfig, &'static str>)
    ensures
        match behaviour_of(g.group()) {
            Ok(v) => r matches Ok(x) && x == v,
            Err(key) => r matches Err(k) && k@ == key,
        },
{
    let seek: i128 = match number_or(g, 0, "seek_step_secs", 5, i64::MIN as i128, i64::MAX as i128) {
        Some(x) => x,
        None => return Err("seek_step_secs"),
    };
    let volume: i128 = match number_or(g, 1, "volume_step", 5, i64::MIN as i128, i64::MAX as i128) {
        Some(x) => x,
        None => return Err("volume_step"),
    };
    let confirm_on_quit = match flag_or(g, 2, "confirm_on_quit", false) {
        Some(x) => x,
        None => return Err("confirm_on_quit"),
    };
    Ok(
        BehaviourConfig {
            seek_step_secs: seek as i64,
            volume_step: volume as i64,
            confirm_on_quit,
        },
    )
}

fn storage_from(g: &Group<'_>) -> (r: Result<StorageConfig, &'static str>)
    ensures
        match storage_of(g.group()) {
            Ok(v) => r matches Ok(x) && x.deep_view() == v,
            Err(key) => r matches Err(k) && k@ == key,
        },
{
    let download_dir = match text_or(g, 0, "download_dir") {
        Some(x) => x,
        None => return Err("download_dir"),
    };
    let size: i128 = match number_or(g, 1, "cache_size_mb", 1024, 0, u64::MAX as i128) {
        Some(x) => x,
        None => return Err("cache_size_mb"),
    };
    let count: i128 = match number_or(g, 2, "prefetch_count", 2, 0, usize::MAX as i128) {
        Some(x) => x,
        None => return Err("prefetch_count"),
    };
    Ok(
        StorageConfig {
            download_dir,
            cache_size_mb: size as u64,
            prefetch_count: count as usize,
        },
    )
}

fn auth_section(d: &Vec<(String, DeValue<'_>)>) -> (r: Result<AuthConfig, String>)
    ensures
        match auth_read(outline::entries(d@)) {
            Ok(v) => r matches Ok(x) && x.deep_view() == v,
            Err(name) => r matches Err(n) && n@ == name,
        },
{
    let known: Vec<&'static str> = vec!["kind", "cookie_file"];
    assert(known.deep_view() =~= auth_names());
    match find_group(d, "auth") {
        Some(g) => match g.find_blocked(&known) {
            Some(key) => Err(join3("auth", ".", key.as_str())),
            None => match auth_from(&g) {
                Ok(x) => Ok(x),
                Err(key) => Err(join3("auth", ".", key)),
            },
        },
        None => Err("auth".to_owned()),
    }
}

fn playback_section(d: &Vec<(String, DeValue<'_>)>) -> (r: Result<PlaybackConfig, String>)
    ensures
        match playback_read(outline::entries(d@)) {
            Ok(v) => r matches Ok(x) && x == v,
            Err(name) => r matches Err(n) && n@ == name,
        },
{
    let known: Vec<&'static str> = vec!["volume", "shuffle"];
    assert(known.deep_view() =~= playback_names());
    match find_group(d, "playback") {
        Some(g) => match g.find_blocked(&known) {
            Some(key) => Err(join3("playback", ".", key.as_str())),
            None => match playback_from(&g) {
                Ok(x) => Ok(x),
                Err(key) => Err(join3("playback", ".", key)),
            },
        },
        None => Err("playback".to_owned()),
    }
}

fn ui_section(d: &Vec<(String, DeValue<'_>)>) -> (r: Result<UiConfig, String>)
    ensures
        match ui_read(outline::entries(d@)) {
            Ok(v) => r matches Ok(x) && x.deep_view() == v,
            Err(name) => r matches Err(n) && n@ == name,
        },
{
    let known: Vec<&'static str> = vec![
        "vim_keys",
        "tick_ms",
        "accent",
        "album_art",
        "theme_file",
        "auto_reload_theme",
        "theme",
        "start_pane",
        "mouse",
    ];
    assert(known.deep_view() =~= ui_names());
    match find_group(d, "ui") {
        Some(g) => match g.find_blocked(&known) {
            Some(key) => Err(join3("ui", ".", key.as_str())),
            None => match ui_from(&g) {
                Ok(x) => Ok(x),
                Err(key) => Err(join3("ui", ".", key)),
            },
        },
        None => Err("ui".to_owned()),
    }
}

fn behaviour_section(d: &Vec<(String, DeValue<'_>)>) -> (r: Result<BehaviourConfig, String>)
    ensures
        match behaviour_read(outline::entries(d@)) {
            Ok(v) => r matches Ok(x) && x == v,
            Err(name) => r matches Err(n) && n@ == name,
        },
{
    let known: Vec<&'static str> = vec!["seek_step_secs", "volume_step", "confirm_on_quit"];
    assert(known.deep_view() =~= behaviour_names());
    match find_group(d, "behaviour") {
        Some(g) => match g.find_blocked(&known) {
            Some(key) => Err(join3("behaviour", ".", key.as_str())),
            None => match behaviour_from(&g) {
                Ok(x) => Ok(x),
                Err(key) => Err(join3("behaviour", ".", key)),
            },
        },
        None => Err("behaviour".to_owned()),
    }
}

fn storage_section(d: &Vec<(String, DeValue<'_>)>) -> (r: Result<StorageConfig, String>)
    ensures
        match storage_read(outline::entries(d@)) {
            Ok(v) => r matches Ok(x) && x.deep_view() == v,
            Err(name) => r matches Err(n) && n@ == name,
        },
{
    let known: Vec<&'static str> = vec!["download_dir", "cache_size_mb", "prefetch_count"];
    assert(known.deep_view() =~= storage_names());
    match find_group(d, "storage") {
        Some(g) => match g.find_blocked(&known) {
            Some(key) => Err(join3("storage", ".", key.as_str())),
            None => match storage_from(&g) {
                Ok(x) => Ok(x),
                Err(key) => Err(join3("storage", ".", key)),
            },
        },
        None => Err("storage".to_owned()),
    }
}

fn plain_value(o: Opened<'_>) -> (r: Scalar)
    ensures
        r.deep_view() == plain(o.node()),
{
    match o {
        Opened::Text(s) => Scalar::Text(s),
        Opened::Number(Some(n), _) => if i64::MIN as i128 <= n && n <= i64::MAX as i128 {
            Scalar::Number(n as i64)
        } else {
            Scalar::Other
        },
        Opened::Flag(b) => Scalar::Flag(b),
        _ => Scalar::Other,
    }
}

fn keys_from(d: &Vec<(String, DeValue<'_>)>) -> (r: Option<Vec<(String, Scalar)>>)
    ensures
        r.deep_view() == keys_table(outline::entries(d@)),
{
    let mut out: Vec<(String, Scalar)> = Vec::new();
    assert(out.deep_view() =~= Seq::<(Seq<char>, ScalarView)>::empty());
    match find(d, "keys") {
        None => Some(out),
        Some(Opened::Date(s)) => {
            let ghost v = s@;
            out.push((DATE_NAME.to_owned(), Scalar::Text(s)));
            assert(out.deep_view() =~= seq![(DATE_NAME@, ScalarView::Text(v))]);
            Some(out)
        },
        Some(Opened::Table(t)) => {
            let ghost all = outline::entries(t@);
            let ghost want = plain_table(all);
            let mut i: usize = 0;
            assert(want.take(0) =~= Seq::<(Seq<char>, ScalarView)>::empty());
            while i < t.len()
                invariant
                    i <= t@.len() == all.len(),
                    all == outline::entries(t@),
                    want == plain_table(all),
                    outline::value_of(outline::entries(d@), "keys"@) == Some(NodeView::Table(all)),
                    out.deep_view() == want.take(i as int),
                    forall|k: int| 0 <= k < i ==> outline::all_fit((#[trigger] all[k]).1),
                decreases t@.len() - i,
            {
                assert(all[i as int] == (t@[i as int].0@, outline::held(t@[i as int].1)));
                if !numbers_fit(&t[i].1) {
                    assert(!outline::all_fit(NodeView::Table(all)));
                    return None;
                }
                let ghost before = out.deep_view();
                let v = plain_value(open(&t[i].1));
                let ghost e = (t@[i as int].0@, v.deep_view());
                assert(want[i as int] == e);
                out.push((t[i].0.clone(), v));
                assert(out.deep_view() =~= before.push(e));
                i += 1;
                assert(want.take(i as int) =~= want.take(i - 1).push(want[i - 1]));
            }
            assert(out.deep_view() =~= want);
            assert(outline::all_fit(NodeView::Table(all)));
            Some(out)
        },
        Some(_) => None,
    }
}

fn settings_from(d: &Vec<(String, DeValue<'_>)>) -> (r: Result<Config, String>)
    ensures
        match settings(outline::entries(d@)) {
            Ok(v) => r matches Ok(x) && x.deep_view() == v,
            Err(name) => r matches Err(n) && n@ == name,
        },
{
    let known: Vec<&'static str> = vec!["auth", "playback", "ui", "behaviour", "storage", "keys"];
    assert(known.deep_view() =~= section_names());
    if let Some(name) = find_blocked(d, &known) {
        return Err(name);
    }
    let auth = match auth_section(d) {
        Ok(x) => x,
        Err(name) => return Err(name),
    };
    let playback = match playback_section(d) {
        Ok(x) => x,
        Err(name) => return Err(name),
    };
    let ui = match ui_section(d) {
        Ok(x) => x,
        Err(name) => return Err(name),
    };
    let behaviour = match behaviour_section(d) {
        Ok(x) => x,
        Err(name) => return Err(name),
    };
    let storage = match storage_section(d) {
        Ok(x) => x,
        Err(name) => return Err(name),
    };
    let keys = match keys_from(d) {
        Some(x) => x,
        None => return Err("keys".to_owned()),
    };
    let config_path = String::new();
    assert(config_path@ =~= Seq::<char>::empty());
    Ok(Config { config_path, auth, playback, ui, behaviour, storage, keys })
}

/// What is said of a setting that is not of its kind.
pub open spec fn of_another_kind(name: Seq<char>) -> Seq<char> {
    "`"@ + name + "` is not of the kind it has to be"@
}

/// The settings of a text, or the error they are refused with.
pub open spec fn settings_read(s: Seq<char>) -> Result<ConfigView, ConfigErrorView> {
    match outline::outlined(s) {
        Err(why) => Err(ConfigErrorView::Parse(why)),
        Ok(d) => match settings(d) {
            Err(name) => Err(ConfigErrorView::Parse(of_another_kind(name))),
            Ok(c) => match fault(c) {
                Some(e) => Err(e),
                None => Ok(c),
            },
        },
    }
}

/// The model of an answer.
pub open spec fn outcome<T: DeepView>(r: Result<T, ConfigError>) -> Result<T::V, ConfigErrorView> {
    match r {
        Ok(v) => Ok(v.deep_view()),
        Err(e) => Err(e.deep_view()),
    }
}

impl Config {
    /// The settings that a text gives.
    pub fn from_toml_str(s: &str) -> (r: Result<Config, ConfigError>)
        ensures
            outcome(r) == settings_read(s@),
    {
        let d = match read_outline(s) {
            Ok(d) => d,
            Err(why) => return Err(ConfigError::Parse(why)),
        };
        let c = match settings_from(&d) {
            Ok(c) => c,
            Err(name) => {
                return Err(
                    ConfigError::Parse(join3("`", name.as_str(), "` is not of the kind it has to be")),
                );
            },
        };
        if c.playback.volume > 100 {
            return Err(ConfigError::Volume(c.playback.volume));
        }
        if c.behaviour.seek_step_secs <= 0 {
            return Err(
                ConfigError::Step(
                    "behaviour.seek_step_secs".to_owned(),
                    c.behaviour.seek_step_secs,
                ),
            );
        }
        if c.behaviour.volume_step <= 0 {
            return Err(
                ConfigError::Step("behaviour.volume_step".to_owned(), c.behaviour.volume_step),
            );
        }
        Ok(c)
    }

    /// The settings of the file at `path`, given what came of reading it: its text,
    /// nothing where there is no such file, or why it could not be read. A missing file
    /// is not an error: the defaults are valid.
    pub fn load(path: &str, file: Result<Option<String>, String>) -> (r: Result<
        Config,
        ConfigError,
    >)
        ensures
            match file {
                Ok(Some(text)) => outcome(r) == match settings_read(text@) {
                    Ok(c) => Ok(ConfigView { config_path: path@, ..c }),
                    Err(e) => Err(e),
                },
                Ok(None) => outcome(r) == Ok::<ConfigView, ConfigErrorView>(
                    ConfigView { config_path: path@, ..ConfigView::standard() },
                ),
                Err(reason) => outcome(r) == Err::<ConfigView, ConfigErrorView>(
                    ConfigErrorView::Io { path: path@, reason: reason@ },
                ),
            },
    {
        let mut c = match file {
            Ok(Some(text)) => {
                let r = Config::from_toml_str(text.as_str());
                match r {
                    Ok(c) => c,
                    Err(e) => return Err(e),
                }
            },
            Ok(None) => Config::default(),
            Err(reason) => return Err(ConfigError::Io { path: path.to_owned(), reason }),
        };
        let ghost before = c.deep_view();
        c.config_path = path.to_owned();
        assert(ConfigView { config_path: before.config_path, ..c.deep_view() } =~= before);
        Ok(c)
    }

    /// Where the settings are, below the directory for them.
    pub fn default_path(config_dir: &str) -> (r: String)
        ensures
            r@ == text::path_joined(config_dir@, "config.toml"@),
    {
        join_path(config_dir, "config.toml")
    }
}

/// Where the logs are, below the directory for what can be made again.
pub fn log_dir(cache_dir: &str) -> (r: String)
    ensures
        r@ == text::path_joined(cache_dir@, "logs"@),
{
    join_path(cache_dir, "logs")
}

/// The model of a text that may be absent.
pub open spec fn seen(s: Option<&str>) -> Option<Seq<char>> {
    match s {
        Some(t) => Some(t@),
        None => None,
    }
}

/// A path with its leading `~/` taken for the user's own directory, where that is
/// known.
pub open spec fn expanded(p: Seq<char>, home: Option<Seq<char>>) -> Seq<char> {
    match home {
        Some(h) if p.len() >= 2 && p[0] == '~' && p[1] == '/' => text::path_joined(
            h,
            p.subrange(2, p.len() as int),
        ),
        _ => p,
    }
}

/// A path with its leading `~/` taken for the user's own directory, where that is
/// known.
pub fn expand_tilde(p: &str, home: Option<&str>) -> (r: String)
    ensures
        r@ == expanded(p@, seen(home)),
{
    let v = chars_of(p);
    if let Some(h) = home {
        if v.len() >= 2 && v[0] == '~' && v[1] == '/' {
            let rest = text_of(v.as_slice(), 2, v.len());
            return join_path(h, rest.as_str());
        }
    }
    p.to_owned()
}

/// The directories of the user's that are known.
#[derive(Debug, Clone, PartialEq, Eq)]
pub struct UserDirs {
    /// The user's own, as the system has it.
    pub home: Option<String>,
    /// Where the system keeps audio.
    pub audio: Option<String>,
    /// The user's own, as the environment has it.
    pub env_home: Option<String>,
}

impl StorageSettings {
    /// Where downloads go.
    pub open spec fn downloads_to(
        self,
        home: Option<Seq<char>>,
        audio: Option<Seq<char>>,
        env_home: Option<Seq<char>>,
    ) -> Seq<char> {
        match (self.download_dir, home, audio, env_home) {
            (Some(d), _, _, _) => expanded(d, env_home),
            (None, Some(_), Some(a), _) => text::path_joined(a, "ytm"@),
            (None, Some(h), None, _) => text::path_joined(text::path_joined(h, "Music"@), "ytm"@),
            (None, None, _, Some(h)) => text::path_joined(text::path_joined(h, "Music"@), "ytm"@),
            (None, None, _, None) => "./downloads"@,
        }
    }
}

impl StorageConfig {
    /// Where downloads go: the directory that is set, the user's own for audio, or one
    /// beside where the program runs.
    pub fn download_dir(&self, dirs: &UserDirs) -> (r: String)
        ensures
            r@ == self.deep_view().downloads_to(
                dirs.home.deep_view(),
                dirs.audio.deep_view(),
                dirs.env_home.deep_view(),
            ),
    {
        match (&self.download_dir, &dirs.home, &dirs.audio, &dirs.env_home) {
            (Some(d), _, _, Some(h)) => expand_tilde(d.as_str(), Some(h.as_str())),
            (Some(d), _, _, None) => expand_tilde(d.as_str(), None),
            (None, Some(_), Some(a), _) => join_path(a.as_str(), "ytm"),
            (None, Some(h), None, _) => {
                let music = join_path(h.as_str(), "Music");
                join_path(music.as_str(), "ytm")
            },
            (None, None, _, Some(h)) => {
                let music = join_path(h.as_str(), "Music");
                join_path(music.as_str(), "ytm")
            },
            (None, None, _, None) => "./downloads".to_owned(),
        }
    }
}

/// The last field of what a terminal says of its colours: the number of its background.
pub open spec fn background_field(colours: Seq<char>) -> Seq<char> {
    text::trimmed(text::pieces(colours, ';').last())
}

/// The theme for a terminal that says this of its colours. Only 7 and 15 are light.
pub open spec fn auto_name(colours: Option<Seq<char>>) -> Seq<char> {
    match colours {
        Some(v) if background_field(v) == "7"@ || background_field(v) == "15"@ => "dawn"@,
        _ => "tokyonight"@,
    }
}

/// The theme for a terminal that says this of its colours in `COLORFGBG`. What is not
/// known to be light is taken to be dark, the safer guess.
pub fn auto_theme_name(colours: Option<&str>) -> (r: String)
    ensures
        r@ == auto_name(seen(colours)),
{
    if let Some(v) = colours {
        let fields = split_text(v, ';');
        assert(fields@.len() == fields.deep_view().len());
        let last = trim(fields[fields.len() - 1].as_str());
        if same_text(last.as_str(), "7") || same_text(last.as_str(), "15") {
            return "dawn".to_owned();
        }
    }
    "tokyonight".to_owned()
}

impl ConfigView {
    /// The name of the theme that is chosen, for a terminal that says this of its
    /// colours.
    pub open spec fn theme_name(self, colours: Option<Seq<char>>) -> Seq<char> {
        match self.ui.theme {
            ThemeChoiceView::Auto => auto_name(colours),
            ThemeChoiceView::Named(n) => n,
        }
    }

    /// Where the file of a theme is, if one is set.
    pub open spec fn theme_path(self, home: Option<Seq<char>>) -> Option<Seq<char>> {
        match self.ui.theme_file {
            Some(p) => Some(expanded(p, home)),
            None => None,
        }
    }

    /// The theme of these settings and its name. A file of a theme is the more specific
    /// answer; without one, the accent is set on top of the theme that is named.
    pub open spec fn resolves_to(
        self,
        file: Option<Result<Seq<char>, ConfigErrorView>>,
        colours: Option<Seq<char>>,
        r: Result<(Theme, Seq<char>), ConfigErrorView>,
    ) -> bool {
        match file {
            Some(Err(e)) => r == Err::<(Theme, Seq<char>), ConfigErrorView>(e),
            Some(Ok(text)) => match theme::theme_parsed(text) {
                Err(why) => r == Err::<(Theme, Seq<char>), ConfigErrorView>(
                    ConfigErrorView::Theme(why),
                ),
                Ok(t) => r == Ok::<(Theme, Seq<char>), ConfigErrorView>((t, "custom"@)),
            },
            None => {
                let name = self.theme_name(colours);
                match theme::preset_named(name) {
                    None => r == Err::<(Theme, Seq<char>), ConfigErrorView>(
                        ConfigErrorView::UnknownTheme(name),
                    ),
                    Some(t) => match self.ui.accent {
                        None => r == Ok::<(Theme, Seq<char>), ConfigErrorView>((t, name)),
                        Some(hex) => match theme::colour_of(hex) {
                            Some(accent) => r == Ok::<(Theme, Seq<char>), ConfigErrorView>(
                                (Theme { accent, ..t }, name),
                            ),
                            None => r == Err::<(Theme, Seq<char>), ConfigErrorView>(
                                ConfigErrorView::BadAccent(hex),
                            ),
                        },
                    },
                }
            },
        }
    }
}

/// The model of what came of reading a file.
pub open spec fn file_view(file: Option<Result<String, ConfigError>>) -> Option<
    Result<Seq<char>, ConfigErrorView>,
> {
    match file {
        Some(Ok(t)) => Some(Ok(t@)),
        Some(Err(e)) => Some(Err(e.deep_view())),
        None => None,
    }
}

/// Where the file of a theme is, if one is set.
pub fn theme_file_path(cfg: &Config, home: Option<&str>) -> (r: Option<String>)
    ensures
        r.deep_view() == cfg.deep_view().theme_path(seen(home)),
{
    match &cfg.ui.theme_file {
        Some(p) => Some(expand_tilde(p.as_str(), home)),
        None => None,
    }
}

/// The theme to start with, and its name, so that the cycle of themes knows where it
/// is. `file` is what came of reading the file of a theme, where one is set.
pub fn resolve_theme(
    cfg: &Config,
    file: Option<Result<String, ConfigError>>,
    colours: Option<&str>,
) -> (r: Result<(Theme, String), ConfigError>)
    ensures
        cfg.deep_view().resolves_to(
            file_view(file),
            seen(colours),
            match r {
                Ok((t, n)) => Ok((t, n@)),
                Err(e) => Err(e.deep_view()),
            },
        ),
{
    match file {
        Some(Ok(text)) => {
            return match Theme::from_toml_str(text.as_str()) {
                Ok(t) => Ok((t, "custom".to_owned())),
                Err(e) => Err(ConfigError::Theme(e)),
            };
        },
        Some(Err(e)) => return Err(e),
        None => {},
    }
    let name = match &cfg.ui.theme {
        ThemeChoice::Auto => auto_theme_name(colours),
        ThemeChoice::Named(n) => n.clone(),
    };
    let mut theme = match Theme::preset(name.as_str()) {
        Some(t) => t,
        None => return Err(ConfigError::UnknownTheme(name)),
    };
    if let Some(hex) = &cfg.ui.accent {
        match parse_hex(hex.as_str()) {
            Some(c) => {
                theme.accent = c;
            },
            None => return Err(ConfigError::BadAccent(hex.clone())),
        }
    }
    Ok((theme, name))
}

/// The keys of these settings; `None` where one is no text.
pub open spec fn keys_of(c: ConfigView) -> Option<Map<char, InputAction>> {
    match document::texts_in(c.keys) {
        Some(table) => Some(keymap::overridden(keymap::built_in(c.ui.vim_keys), table)),
        None => None,
    }
}

/// The keys of these settings.
pub fn keymap_of(cfg: &Config) -> (r: Option<KeyMap>)
    ensures
        match keys_of(cfg.deep_view()) {
            Some(m) => r matches Some(k) && k@ == m,
            None => r is None,
        },
{
    match only_texts(&cfg.keys) {
        Some(table) => Some(KeyMap::with_overrides(&table, cfg.ui.vim_keys)),
        None => None,
    }
}

/// What is taken over from settings that were edited.
pub struct ReloadedConfig {
    pub keymap: KeyMap,
    pub theme: Theme,
    pub theme_name: String,
    pub behaviour: BehaviourConfig,
    pub custom_theme: Option<Theme>,
    pub theme_file: Option<String>,
    pub auto_reload_theme: bool,
}

/// Why settings that were edited are not taken over.
#[derive(Debug, Clone, PartialEq, Eq)]
pub enum ReloadError {
    Config(ConfigError),
    /// A key is no text.
    Keys,
}

impl ConfigView {
    /// What is taken over from these settings, given what came of reading the file of a
    /// theme that they name, if they do; or why nothing is.
    pub open spec fn reloads_to(
        self,
        home: Option<Seq<char>>,
        file: Option<Result<Seq<char>, ConfigErrorView>>,
        colours: Option<Seq<char>>,
        r: Result<ReloadedConfig, ReloadError>,
    ) -> bool {
        match keys_of(self) {
            None => r == Err::<ReloadedConfig, ReloadError>(ReloadError::Keys),
            Some(keys) => match r {
                Ok(c) => {
                    &&& c.keymap@ == keys
                    &&& self.resolves_to(file, colours, Ok((c.theme, c.theme_name@)))
                    &&& c.custom_theme == (if c.theme_name@ == "custom"@ {
                        Some(c.theme)
                    } else {
                        None::<Theme>
                    })
                    &&& c.behaviour == self.behaviour
                    &&& c.auto_reload_theme == self.ui.auto_reload_theme
                    &&& c.theme_file.deep_view() == self.theme_path(home)
                },
                Err(ReloadError::Config(e)) => self.resolves_to(
                    file,
                    colours,
                    Err(e.deep_view()),
                ),
                Err(ReloadError::Keys) => false,
            },
        }
    }
}

/// What is taken over from settings, given what came of reading the file of a theme that
/// they name, if they do.
pub fn reload(
    cfg: &Config,
    home: Option<&str>,
    file: Option<Result<String, ConfigError>>,
    colours: Option<&str>,
) -> (r: Result<ReloadedConfig, ReloadError>)
    ensures
        cfg.deep_view().reloads_to(seen(home), file_view(file), seen(colours), r),
{
    let keymap = match keymap_of(cfg) {
        Some(k) => k,
        None => return Err(ReloadError::Keys),
    };
    let (theme, theme_name) = match resolve_theme(cfg, file, colours) {
        Ok(t) => t,
        Err(e) => return Err(ReloadError::Config(e)),
    };
    let custom_theme = if same_text(theme_name.as_str(), "custom") {
        Some(theme)
    } else {
        None
    };
    Ok(
        ReloadedConfig {
            keymap,
            theme,
            theme_name,
            behaviour: cfg.behaviour,
            custom_theme,
            theme_file: theme_file_path(cfg, home),
            auto_reload_theme: cfg.ui.auto_reload_theme,
        },
    )
}

/// What is taken over from a text of settings.
pub fn reload_config(
    text: &str,
    home: Option<&str>,
    file: Option<Result<String, ConfigError>>,
    colours: Option<&str>,
) -> (r: Result<ReloadedConfig, ReloadError>)
    ensures
        match settings_read(text@) {
            Ok(c) => c.reloads_to(seen(home), file_view(file), seen(colours), r),
            Err(e) => r matches Err(ReloadError::Config(f)) && f.deep_view() == e,
        },
{
    match Config::from_toml_str(text) {
        Ok(cfg) => reload(&cfg, home, file, colours),
        Err(e) => Err(ReloadError::Config(e)),
    }
}

/// The command that opens an editor: the first of the two that says anything.
pub open spec fn editor_of(visual: Option<Seq<char>>, editor: Option<Seq<char>>) -> Option<
    Seq<char>,
> {
    match (visual, editor) {
        (Some(v), _) if text::trimmed(v).len() > 0 => Some(v),
        (_, Some(e)) if text::trimmed(e).len() > 0 => Some(e),
        _ => None,
    }
}

/// The command that opens an editor: `$VISUAL` first, and then `$EDITOR`.
pub fn editor_command(visual: Option<String>, editor: Option<String>) -> (r: Option<String>)
    ensures
        r.deep_view() == editor_of(visual.deep_view(), editor.deep_view()),
{
    if let Some(v) = visual {
        let t = trim(v.as_str());
        if t.as_str().unicode_len() > 0 {
            return Some(v);
        }
    }
    if let Some(e) = editor {
        let t = trim(e.as_str());
        if t.as_str().unicode_len() > 0 {
            return Some(e);
        }
    }
    None
}

/// Whether an edit changes anything: the text is another, or a theme stands in a file
/// of its own, which may have changed without it.
pub fn worth_applying(before: &str, after: &str, reloaded: &ReloadedConfig) -> (r: bool)
    ensures
        r == (before@ != after@ || reloaded.theme_file is Some),
{
    !same_text(before, after) || reloaded.theme_file.is_some()
}

/// Settings that are accepted have a volume that is a percentage, and steps that are
/// greater than nothing.
pub proof fn accepted_settings_are_usable(s: Seq<char>, c: ConfigView)
    requires
        settings_read(s) == Ok::<ConfigView, ConfigErrorView>(c),
    ensures
        c.playback.volume <= 100,
        c.behaviour.seek_step_secs > 0,
        c.behaviour.volume_step > 0,
        c.behaviour.in_range(),
{
}

/// An accent, and a theme that is named, are of no consequence where a theme stands in
/// a file of its own.
pub proof fn a_theme_file_wins(
    a: ConfigView,
    b: ConfigView,
    text: Seq<char>,
    colours: Option<Seq<char>>,
    t: Theme,
    name: Seq<char>,
)
    requires
        a.resolves_to(Some(Ok(text)), colours, Ok((t, name))),
    ensures
        b.resolves_to(Some(Ok(text)), colours, Ok((t, name))),
        name == "custom"@,
{
}

/// Whatever a terminal says of its colours, the theme that is picked for it is built in.
pub proof fn the_automatic_theme_is_built_in(colours: Option<Seq<char>>)
    ensures
        theme::preset_named(auto_name(colours)) is Some,
{
    reveal_with_fuel(crate::theme::preset_at, 12);
}

} // verus!
