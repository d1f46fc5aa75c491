use ytm::app::{AppState, Focus, Pane};
use ytm::background::{read_library, KeptLibrary};
use ytm::cache::Cache;
use ytm::cli::{CacheAction, Cli, Command};
use ytm::config::{
    auto_theme_name, editor_command, expand_tilde, keymap_of, reload_config, resolve_theme,
    worth_applying, AuthKind, Config, ConfigError, ReloadError, StartPane, StorageConfig, UserDirs,
};
use ytm::config_file::{
    example_entries, example_sections, insert_into_section, is_section_header, report_added,
    section_body, toml_key_of, top_up, ExampleEntry, TopUp, EXAMPLE_TOML,
};
use ytm::document::{read, Item, Scalar};
use ytm::event::InputAction;
use ytm::help;
use ytm::keymap::KeyMap;
use ytm::model::{Playlist, Track, TrackDuration};
use ytm::outline::read_texts;
use ytm::nowplaying::{progress_bar, second_under, span_between};
use ytm::render::{
    body_and_nowplaying, draw_main, fit_heading, heading_parts, render, spinner_row, target_in,
    ClickTarget,
    ART_GAP, ART_WIDTH, SIDEBAR_WIDTH,
};
use ytm::screen::{
    align_right, fill_to, pad_to_width, split_area, truncate_to_width, Rect, Want,
};
use ytm::resolver::jar_is_fresh;
use ytm::startup::{
    cookie_may_expire, cookie_path, cookies_for_player, cookies_refused, goes_on_as_guest, own_theme, playlist_lines, sign_in,
    startup_state, startup_volume,
};
use ytm::state_file::{default_path, load, save, RuntimeState};
use ytm::text::{decimal_text, join_path, lines_of, passes_filter, trim};
use ytm::theme::{parse_hex, Theme};

#[test]
fn an_area_is_split_into_what_its_parts_ask_for() {
    let area = Rect::new(3, 4, 50, 20);
    let wants = vec![Want::Length(2), Want::Min(1), Want::Length(5)];
    assert_eq!(
        split_area(area, true, wants.clone()),
        [Rect::new(3, 4, 50, 2), Rect::new(3, 6, 50, 13), Rect::new(3, 19, 50, 5)]
    );
    assert_eq!(
        split_area(area, false, wants),
        [Rect::new(3, 4, 2, 20), Rect::new(5, 4, 43, 20), Rect::new(48, 4, 5, 20)]
    );
}

#[test]
fn parts_that_just_fit_leave_nothing_over() {
    let wants = vec![Want::Length(0), Want::Length(4), Want::Min(0)];
    assert_eq!(
        split_area(Rect::new(0, 0, 4, 1), false, wants),
        [Rect::new(0, 0, 0, 1), Rect::new(0, 0, 4, 1), Rect::new(4, 0, 0, 1)]
    );
}

#[test]
fn parts_that_do_not_fit_stay_in_the_area() {
    for h in 0..6 {
        let area = Rect::new(1, 2, 10, h);
        let wants = vec![
            Want::Length(1),
            Want::Length(1),
            Want::Length(1),
            Want::Length(1),
            Want::Min(0),
        ];
        let parts = split_area(area, true, wants);
        assert_eq!(parts.len(), 5);
        for p in parts {
            assert_eq!((p.x, p.width), (1, 10));
            assert!(p.y >= 2 && p.y + p.height <= 2 + h, "{p:?} in {area:?}");
        }
    }
}

#[test]
fn the_bar_takes_its_rows_first() {
    assert_eq!(
        body_and_nowplaying(Rect::new(0, 0, 80, 24)),
        (Rect::new(0, 0, 80, 19), Rect::new(0, 19, 80, 5))
    );
    assert_eq!(
        body_and_nowplaying(Rect::new(0, 0, 80, 5)),
        (Rect::new(0, 0, 80, 0), Rect::new(0, 0, 80, 5))
    );
    assert_eq!(
        body_and_nowplaying(Rect::new(0, 0, 80, 3)),
        (Rect::new(0, 0, 80, 0), Rect::new(0, 0, 80, 3))
    );
}

#[test]
fn an_area_at_the_end_of_the_coordinates_is_split_as_far_as_they_go() {
    let area = Rect { x: 0, y: 65530, width: 10, height: 100 };
    let (body, bar) = body_and_nowplaying(area);
    assert_eq!(body, Rect { x: 0, y: 65530, width: 10, height: 0 });
    assert_eq!(bar, Rect { x: 0, y: 65530, width: 10, height: 5 });
}

#[test]
fn the_panes_lie_side_by_side() {
    let s = AppState::default();
    let plan = render(&s, Rect::new(0, 0, 120, 30), true, true).expect("there is room");
    assert_eq!(plan.sidebar, Rect::new(0, 0, SIDEBAR_WIDTH, 25));
    assert_eq!(plan.rule, Rect::new(SIDEBAR_WIDTH, 0, 1, 25));
    let art = plan.art.expect("wide enough for art");
    assert_eq!(art, Rect::new(120 - ART_WIDTH, 0, ART_WIDTH, 25));
    assert_eq!(plan.main.x, SIDEBAR_WIDTH + 1);
    assert_eq!(plan.main.x + plan.main.width + ART_GAP, art.x);
    assert_eq!(plan.bar, Rect::new(0, 25, 120, 5));
    assert!(render(&s, Rect::new(0, 0, 0, 30), true, true).is_none());
}

#[test]
fn the_list_is_drawn_where_clicks_find_it() {
    let mut s = AppState::default();
    s.pane = Pane::Songs;
    s.tracks = vec![Track::stub("a", "A")];
    let area = Rect::new(23, 0, 60, 20);
    let plan = draw_main(&s, area).expect("there is room");
    let top = plan.list_area.y;
    let (body, bar) = (Rect::new(0, 0, 83, 20), Rect::new(0, 20, 83, 5));
    assert_eq!(target_in(body, bar, 30, top, top), ClickTarget::Row(0));
    assert_eq!(target_in(body, bar, 30, top + 3, top), ClickTarget::Row(3));
    assert_eq!(target_in(body, bar, 30, top - 1, top), ClickTarget::Nothing);
    assert_eq!(target_in(body, bar, 30, 24, top), ClickTarget::Progress(30));
    assert_eq!(target_in(body, bar, 30, 23, top), ClickTarget::Nothing);
    assert_eq!(plan.list_area.y + plan.list_area.height, 20);
}

#[test]
fn wide_characters_are_measured_in_cells() {
    assert_eq!(truncate_to_width("日本語", 6), "日本語");
    assert_eq!(truncate_to_width("日本語", 5), "日本");
    assert_eq!(truncate_to_width("abc", 2), "ab");
    assert_eq!(truncate_to_width("abc", 0), "");
    assert_eq!(pad_to_width("日", 4), "日  ");
    assert_eq!(pad_to_width("abcdef", 3), "abc");
    assert_eq!(fill_to("x".to_owned(), 1, 3), "x  ");
    assert_eq!(align_right("7", 3), "  7");
}

#[test]
fn the_spinner_turns_in_the_heading_while_something_loads() {
    let area = Rect::new(24, 0, 60, 20);
    let mut s = AppState::default();
    let still = draw_main(&s, area).expect("there is room");
    assert_eq!(still.spinner, None);
    s.loading = true;
    let turning = draw_main(&s, area).expect("there is room");
    assert_eq!(turning.spinner, Some(turning.heading_area));
    assert_eq!(spinner_row(&s, Rect::new(1, 2, 3, 1)), Some(Rect::new(1, 2, 3, 1)));
}

#[test]
fn a_badge_that_does_not_fit_is_dropped() {
    let both = fit_heading("Songs".to_owned(), Some(" 3".to_owned()), 5, 2, 7);
    assert_eq!(both, ("Songs".to_owned(), Some(" 3".to_owned())));
    let one = fit_heading("Songs".to_owned(), Some(" 3".to_owned()), 5, 2, 6);
    assert_eq!(one, ("Songs".to_owned(), None));
    let mut s = AppState::default();
    s.pane = Pane::Songs;
    s.tracks = vec![Track::stub("a", "A"), Track::stub("b", "B")];
    s.focus = Focus::Main;
    s.toggle_visual();
    assert_eq!(heading_parts(&s, 40), ("Fav".to_owned(), Some("  VISUAL 1".to_owned())));
    assert_eq!(heading_parts(&s, 5), ("Fav".to_owned(), None));
}

#[test]
fn the_overlay_stands_inside_its_border() {
    let km = KeyMap::new(true);
    let o = help::draw(&km, Rect::new(0, 0, 100, 40)).expect("there is room");
    assert_eq!(o.inner.x, o.rect.x + 1);
    assert_eq!(o.inner.y, o.rect.y + 1);
    assert_eq!(o.inner.width + 2, o.rect.width);
    assert_eq!(o.inner.height + 2, o.rect.height);
    assert!(o.rect.width <= 90 && o.rect.height <= 36);
    assert!(help::draw(&km, Rect::new(0, 0, 2, 2)).is_none());
    assert_eq!(help::layout(30, 120, 10), (3, 40));
    assert_eq!(help::layout(10, 120, 10), (1, 120));
    assert_eq!(help::layout(30, 11, 10), (1, 11));
    assert_eq!(help::action_label(InputAction::Quit), Some("quit"));
    assert_eq!(help::action_label(InputAction::ForceQuit), None);
}

#[test]
fn a_bar_is_filled_by_eighths() {
    assert_eq!(progress_bar(0, 100, 4), "    ");
    assert_eq!(progress_bar(100, 100, 3), "\u{2588}\u{2588}\u{2588}");
    assert_eq!(progress_bar(500, 100, 2), "\u{2588}\u{2588}");
    assert_eq!(progress_bar(50, 100, 3), "\u{2588}\u{258C} ");
    assert_eq!(progress_bar(10, 0, 2), "  ");
    assert_eq!(progress_bar(-1, 10, 2), "  ");
    for den in 1..150u64 {
        for num in 0..=den {
            let ratio = num as f64 / den as f64;
            for width in [1usize, 7, 33, 80, 121] {
                let filled = (ratio * (width * 8) as f64).round() as usize;
                let bar = progress_bar(i128::from(num), den, width);
                let full = bar.chars().filter(|c| *c == '\u{2588}').count();
                let blank = bar.chars().filter(|c| *c == ' ').count();
                assert_eq!((full, blank), (filled / 8, width - filled.div_ceil(8)));
            }
        }
    }
}

#[test]
fn a_click_means_the_second_at_the_left_edge() {
    assert_eq!(second_under(10, 10, 40, 200), Some(0));
    assert_eq!(second_under(11, 10, 40, 200), Some(5));
    assert_eq!(second_under(49, 10, 40, 200), Some(195));
    assert_eq!(second_under(50, 10, 40, 200), None);
    assert_eq!(second_under(9, 10, 40, 200), None);
    assert_eq!(second_under(10, 10, 40, 0), None);
    assert_eq!(second_under(1, 0, 2, 5), Some(3), "half a second is rounded up");
    assert_eq!(second_under(29, 0, 100, 50), Some(14), "0.29 is a little less than that");
    for width in 1..200usize {
        for off in 0..width {
            for secs in [1u64, 50, 187, 245, 3601, 86399, (1 << 53) + 1, u64::MAX] {
                let ratio = off as f64 / width as f64;
                let want = (ratio * secs as f64).round() as u64;
                assert_eq!(second_under(off, 0, width, secs), Some(want), "{off}/{width} of {secs}");
            }
        }
    }
    let (start, width) = span_between(100, 6, 7, 12);
    assert!(start + width <= 100);
}

#[test]
fn letters_match_whatever_their_case() {
    assert!(passes_filter("ÉT", "un été"));
    assert!(passes_filter("", "anything"));
    assert!(!passes_filter("x", "un été"));
}

#[test]
fn texts_are_cut_into_lines_and_trimmed() {
    assert_eq!(lines_of("a\r\nb\n\nc"), ["a", "b", "", "c"]);
    assert!(lines_of("").is_empty());
    assert_eq!(trim("\u{3000} x\t"), "x");
    assert_eq!(decimal_text(0), "0");
    assert_eq!(decimal_text(u64::MAX), "18446744073709551615");
    assert_eq!(join_path("/a", "b"), "/a/b");
    assert_eq!(join_path("/a/", "b"), "/a/b");
    assert_eq!(join_path("/a", "/b"), "/b");
    assert_eq!(TrackDuration::from_secs(3725).text(), "1:02:05");
    assert_eq!(TrackDuration::from_secs(65).text(), "1:05");
}

#[test]
fn every_fault_of_the_settings_is_named() {
    let message = |text: &str| Config::from_toml_str(text).unwrap_err().message();
    assert_eq!(
        message("[playback]\nvolume = 101"),
        "config key `playback.volume` must be 0-100, got 101"
    );
    assert_eq!(
        message("[behaviour]\nseek_step_secs = -3"),
        "config key `behaviour.seek_step_secs` must be greater than 0, got -3"
    );
    assert_eq!(
        message("[behaviour]\nvolume_step = 0"),
        "config key `behaviour.volume_step` must be greater than 0, got 0"
    );
    assert!(message("[playback").starts_with("config is not valid TOML: "));
    assert!(message("[playback]\nvolume = \"loud\"").starts_with("config is not valid TOML: "));
    assert_eq!(
        ConfigError::UnknownTheme("no\"pe".to_owned()).message(),
        "config key `ui.theme` names no built-in theme: \"no\\\"pe\""
    );
    assert_eq!(
        ConfigError::BadAccent("red".to_owned()).message(),
        "config key `ui.accent` is not a hex color like \"#7aa2f7\": \"red\""
    );
    assert_eq!(
        ConfigError::Io { path: "/p".to_owned(), reason: "no".to_owned() }.message(),
        "could not read config at /p: no"
    );
}

#[test]
fn a_theme_that_is_not_there_is_refused() {
    let cfg = Config::from_toml_str("[ui]\ntheme = \"mauve\"").expect("it loads");
    assert_eq!(
        resolve_theme(&cfg, None, None).unwrap_err(),
        ConfigError::UnknownTheme("mauve".to_owned())
    );
    let cfg = Config::from_toml_str("[ui]\naccent = \"red\"").expect("it loads");
    assert_eq!(
        resolve_theme(&cfg, None, None).unwrap_err(),
        ConfigError::BadAccent("red".to_owned())
    );
    let cfg = Config::from_toml_str("[ui]\ntheme_file = \"/t.toml\"").expect("it loads");
    let bad = resolve_theme(&cfg, Some(Ok("accent = 3".to_owned())), None);
    assert!(matches!(bad, Err(ConfigError::Theme(_))));
    let gone = ConfigError::Io { path: "/t.toml".to_owned(), reason: "no".to_owned() };
    assert_eq!(resolve_theme(&cfg, Some(Err(gone.clone())), None).unwrap_err(), gone);
}

#[test]
fn an_accent_colours_the_named_theme() {
    let cfg = Config::from_toml_str("[ui]\ntheme = \"nord\"\naccent = \"#0a0B0c\"").expect("loads");
    let (theme, name) = resolve_theme(&cfg, None, None).expect("a theme");
    assert_eq!(name, "nord");
    assert_eq!(Some(theme.accent), parse_hex("#0a0b0c"));
    assert_eq!(parse_hex("#12345"), None);
    assert_eq!(parse_hex("123456"), None);
    assert_eq!(parse_hex("#12345g"), None);
    assert!(Theme::preset(&auto_theme_name(Some("0;15"))).is_some());
}

#[test]
fn keys_that_are_no_text_are_refused() {
    let text = "[keys]\nquit = 3";
    assert!(matches!(reload_config(text, None, None, None), Err(ReloadError::Keys)));
    let cfg = Config::from_toml_str(text).expect("the table is carried through");
    assert!(keymap_of(&cfg).is_none());
    assert!(matches!(
        reload_config("[ui]\ntheme = \"mauve\"", None, None, None),
        Err(ReloadError::Config(ConfigError::UnknownTheme(_)))
    ));
    assert!(KeyMap::from_toml_str("quit = 3").is_err());
    assert!(KeyMap::from_toml_str("quit = ").is_err());
    let km = KeyMap::from_toml_str("quit = \"Z\"").expect("a keymap");
    assert_eq!(km.get('Z'), Some(InputAction::Quit));
}

#[test]
fn settings_that_did_not_change_are_not_applied() {
    let plain = reload_config("", None, None, None).expect("settings");
    assert!(!worth_applying("a", "a", &plain));
    assert!(worth_applying("a", "b", &plain));
    let themed = reload_config(
        "[ui]\ntheme_file = \"~/t.toml\"",
        Some("/h"),
        Some(Ok("preset = \"nord\"".to_owned())),
        None,
    )
    .expect("settings");
    assert_eq!(themed.theme_file.as_deref(), Some("/h/t.toml"));
    assert!(worth_applying("a", "a", &themed));
}

#[test]
fn the_first_editor_that_says_anything_is_used() {
    let own = |s: &str| Some(s.to_owned());
    assert_eq!(editor_command(own("code -w"), own("vi")), own("code -w"));
    assert_eq!(editor_command(own("  "), own("vi")), own("vi"));
    assert_eq!(editor_command(None, own("")), None);
}

#[test]
fn paths_are_found_from_the_directories_there_are() {
    assert_eq!(expand_tilde("~/x", Some("/h")), "/h/x");
    assert_eq!(expand_tilde("~/x", None), "~/x");
    let dirs = |home: Option<&str>, audio: Option<&str>, env: Option<&str>| UserDirs {
        home: home.map(str::to_owned),
        audio: audio.map(str::to_owned),
        env_home: env.map(str::to_owned),
    };
    let s = StorageConfig::default();
    assert_eq!(s.download_dir(&dirs(Some("/h"), Some("/a"), None)), "/a/ytm");
    assert_eq!(s.download_dir(&dirs(Some("/h"), None, None)), "/h/Music/ytm");
    assert_eq!(s.download_dir(&dirs(None, None, Some("/e"))), "/e/Music/ytm");
    assert_eq!(s.download_dir(&dirs(None, None, None)), "./downloads");
    assert_eq!(default_path("/c"), "/c/state.toml");
}

#[test]
fn a_file_that_cannot_be_read_is_an_error_and_none_is_the_defaults() {
    assert_eq!(Config::load("/p", Ok(None)).expect("defaults").playback.volume, 70);
    assert_eq!(
        Config::load("/p", Err("denied".to_owned())).unwrap_err(),
        ConfigError::Io { path: "/p".to_owned(), reason: "denied".to_owned() }
    );
}

#[test]
fn a_document_keeps_what_it_says() {
    let d = read("a = 1\n[t]\nx = \"y\"\nz = true\n").expect("a document");
    assert!(d.contains(&("a".to_owned(), Item::Plain(Scalar::Number(1)))));
    let table = d.iter().find(|(n, _)| n == "t").map(|(_, i)| i.clone());
    match table {
        Some(Item::Table(t)) => {
            assert!(t.contains(&("x".to_owned(), Scalar::Text("y".to_owned()))));
            assert!(t.contains(&("z".to_owned(), Scalar::Flag(true))));
        }
        other => panic!("unexpected {other:?}"),
    }
    assert!(read("a = ").is_err());
    assert!(read_texts("a = 1").is_err());
    assert_eq!(read_texts("a = \"b\""), Ok(vec![("a".to_owned(), "b".to_owned())]));
}

#[test]
fn a_state_is_loaded_as_it_was_saved() {
    for volume in [None, Some(0), Some(100)] {
        let text = save(&RuntimeState { volume });
        assert_eq!(load(Some(&text)).volume, volume);
    }
    assert_eq!(load(Some("volume = -1")).volume, None);
    assert_eq!(load(Some("volume = \"loud\"")).volume, None);
}

#[test]
fn the_example_documents_what_it_sets() {
    assert!(is_section_header("[auth]"));
    assert!(!is_section_header("# [auth]"));
    assert_eq!(toml_key_of("# volume = 70"), Some("volume".to_owned()));
    assert_eq!(toml_key_of("vol_ume=70"), Some("vol_ume".to_owned()));
    assert_eq!(toml_key_of("# 0 to 100. See = below"), None);
    assert_eq!(toml_key_of("= 3"), None);
    assert_eq!(toml_key_of("# Colours"), None, "prose gives nothing a value");
    assert_eq!(toml_key_of("Colours"), None);
    assert_eq!(toml_key_of("# Colours ="), Some("Colours".to_owned()));
    let names: Vec<String> = example_sections().into_iter().map(|s| s.name).collect();
    assert_eq!(names, ["auth", "playback", "ui", "behaviour", "storage", "keys"]);
    let sections = example_sections();
    let entries = example_entries(&sections[1]);
    let keys: Vec<&str> = entries.iter().map(|e| e.key.as_str()).collect();
    assert_eq!(keys, ["volume", "shuffle"]);
    let last = entries[0].lines.last().expect("the setting itself");
    assert_eq!(last, "# volume = 70");
    assert_eq!(section_body(EXAMPLE_TOML, "storage")[0], "# download_dir = \"~/Music/ytm\"");
}

#[test]
fn settings_are_put_at_the_end_of_their_section() {
    let entry = ExampleEntry { key: "b".to_owned(), lines: vec!["# b = 2".to_owned()] };
    assert_eq!(
        insert_into_section("[x]\na = 1\n\n[y]\nc = 3\n", "x", &vec![entry.clone()]),
        Some("[x]\na = 1\n\n# b = 2\n\n[y]\nc = 3\n".to_owned())
    );
    assert_eq!(insert_into_section("[x]\n", "z", &vec![entry]), None);
}

#[test]
fn a_file_is_brought_up_to_the_example_once() {
    let mine = "[playback]\nvolume = 40\n";
    let added = match top_up(mine) {
        TopUp::Added { text, gaps } => {
            let told = report_added(&gaps);
            assert!(told[0].starts_with("added at their documented defaults: ["));
            assert!(told.iter().any(|l| l == "added to [playback], commented out: shuffle"));
            text
        }
        other => panic!("unexpected {other:?}"),
    };
    let mut rest = added.lines();
    for line in mine.lines() {
        assert!(rest.any(|l| l == line), "{line:?} stays, in its order");
    }
    assert_eq!(Config::from_toml_str(&added).expect("it loads").playback.volume, 40);
    assert_eq!(top_up(&added), TopUp::Complete);
    assert_eq!(top_up("[playback"), TopUp::Invalid);
    assert_eq!(top_up("[playback]\nvolume = 500\n"), TopUp::Refused);
    assert_eq!(top_up(EXAMPLE_TOML), TopUp::Complete);
}

#[test]
fn a_word_in_a_comment_is_no_setting() {
    match top_up("[playback]\nvolume = 40\n# shuffle\n") {
        TopUp::Added { text, gaps } => {
            let told = report_added(&gaps);
            assert!(told.iter().any(|l| l == "added to [playback], commented out: shuffle"));
            assert!(text.contains("# shuffle\n"));
            assert_eq!(top_up(&text), TopUp::Complete);
        }
        other => panic!("unexpected {other:?}"),
    }
}

#[test]
fn a_section_that_is_written_otherwise_stays_as_it_is() {
    let first = match top_up("[ playback ]\nvolume = 40\n") {
        TopUp::Added { text, .. } => text,
        other => panic!("unexpected {other:?}"),
    };
    assert!(first.starts_with("[ playback ]\nvolume = 40\n"));
    match top_up(&first) {
        TopUp::Added { text, gaps } => {
            assert_eq!(text, first, "nothing is added twice");
            assert!(gaps.absent.is_empty());
        }
        other => panic!("unexpected {other:?}"),
    }
}

#[test]
fn a_text_that_is_no_document_is_refused_in_the_words_of_the_parser() {
    let bad = "[ui]\nmouse = ";
    let why = read(bad).expect_err("no document");
    assert!(why.starts_with("TOML parse error at line 2"), "got: {why}");
    assert_eq!(Config::from_toml_str(bad), Err(ConfigError::Parse(why.clone())));
    assert_eq!(read_texts(bad), Err(why.clone()));
    assert_eq!(KeyMap::from_toml_str(bad).expect_err("no keys").message, why);
    assert_eq!(Theme::from_toml_str(bad), Err(why));
}

#[test]
fn a_setting_of_another_kind_is_named() {
    let refused = |text: &str, name: &str| {
        let why = format!("`{name}` is not of the kind it has to be");
        assert_eq!(Config::from_toml_str(text), Err(ConfigError::Parse(why)), "{text}");
    };
    refused("[ui]\nmouse = 3", "ui.mouse");
    refused("[ui]\nstart_pane = \"nowhere\"", "ui.start_pane");
    refused("[ui]\nstart_pane = { home = { x = 1 } }", "ui.start_pane");
    refused("[ui]\ntheme = { nord = {} }", "ui.theme");
    refused("[playback]\nvolume = 70000", "playback.volume");
    refused("[playback]\nvolume = 1.5", "playback.volume");
    refused("playback = [70, 1]", "playback.shuffle");
    refused("playback = 3", "playback");
    refused("[auth]\nkind = \"browser\"", "auth.kind");
    refused("[auth]\ncookie_file = 3", "auth.cookie_file");
    refused("[behaviour]\nvolume_step = true", "behaviour.volume_step");
    refused("[storage]\nprefetch_count = -1", "storage.prefetch_count");
    refused("keys = []", "keys");
    refused("unknown = 1e999", "unknown");
    refused("unknown = [{ x = 340282366920938463463374607431768211456 }]", "unknown");
    refused("[ui]\nx = -1e999", "ui.x");
    refused("[keys]\nquit = 1e999", "keys");
    refused("[keys]\nquit = [9223372036854775808]", "keys");
    let said = "the value of `quit` is not a string".to_owned();
    assert_eq!(read_texts("help = \"?\"\nquit = 1\nrest = 2"), Err(said.clone()));
    assert_eq!(KeyMap::from_toml_str("quit = 1").expect_err("no keys").message, said);
}

#[test]
fn a_section_may_be_a_list_and_a_choice_a_table() {
    let read = |text: &str| Config::from_toml_str(text).expect("it loads");
    let c = read("playback = [40, true]\nstorage = [\"/d\"]\n");
    assert_eq!((c.playback.volume, c.playback.shuffle), (40, true));
    assert_eq!(c.storage.download_dir, Some("/d".to_owned()));
    assert_eq!(c.storage.prefetch_count, 2, "what the list does not reach has its default");
    let c = read("playback = [40, true, \"more\"]");
    assert_eq!(c.playback.volume, 40, "what is beyond the settings is not looked at");
    let c = read("ui = [false, 100, \"#010203\", false, \"/t\", true, \"nord\", \"queue\", false]");
    assert_eq!((c.ui.vim_keys, c.ui.tick_ms, c.ui.mouse), (false, 100, false));
    assert_eq!(c.ui.start_pane, StartPane::Queue);
    assert_eq!(read("auth = [{ oauth = [] }]").auth.kind, AuthKind::OAuth);
    assert_eq!(read("[auth]\nkind = { oauth = {} }").auth.kind, AuthKind::OAuth);
    assert_eq!(read("[ui.start_pane.songs]").ui.start_pane, StartPane::Fav);
    assert_eq!(read("playback = 1979-05-27").playback.volume, 70);
    let c = read("[ui]\ntick_ms = 18446744073709551615\n[storage]\ncache_size_mb = 0xFFFFFFFFFFFFFFFF");
    assert_eq!((c.ui.tick_ms, c.storage.cache_size_mb), (u64::MAX, u64::MAX));
    let c = read("unknown = 170141183460469231731687303715884105727\n[ui]\nx = [1.5, { y = 2 }]");
    assert_eq!(c.ui.tick_ms, 250, "what is no setting is passed over");
    let c = read("playback = [40, true, 1e999]");
    assert_eq!(c.playback.volume, 40, "what is beyond the settings may be of any size");
    let c = read("unknown = 340282366920938463463374607431768211455");
    assert_eq!(c.playback.volume, 70);
    assert_eq!(read("keys = 1979-05-27").keys.len(), 1);
    assert_eq!(load(Some("volume = 40\nx = 9223372036854775808")).volume, Some(40));
    assert_eq!(load(Some("volume = 40\nx = 1e999")).volume, None);
}

#[test]
fn one_signs_in_with_cookies_or_is_told_why_not() {
    let cfg = Config::from_toml_str("[auth]\ncookie_file = \"~/c\"").expect("it loads");
    assert_eq!(cookie_path(&cfg, Some("/h")), Some("/h/c".to_owned()));
    assert_eq!(sign_in(&cfg, Some("/h"), "/s"), Ok("/h/c".to_owned()));
    assert_eq!(
        sign_in(&Config::default(), None, "/s"),
        Err("auth.cookie_file is not set in /s \u{2014} see the README for how to export your cookies"
            .to_owned())
    );
    let old = Config::from_toml_str("[auth]\nkind = \"oauth\"").expect("it loads");
    assert!(sign_in(&old, None, "/s").is_err());
    assert!(!goes_on_as_guest(&old));
    assert!(goes_on_as_guest(&cfg));
    assert_eq!(cookies_for_player(&cfg, true, Some("/h")), None);
    assert!(cookies_refused("/h/c").contains("/h/c"));
}

#[test]
fn a_guest_begins_in_the_search() {
    let mut c = Cache::open_in_memory();
    c.save_playlists(&vec![Playlist::stub("p", "P")]);
    let cfg = Config::default();
    let guest = startup_state(&cfg, true, 30, Some(read_library(&c)));
    assert_eq!((guest.pane, guest.focus), (Pane::Search, Focus::SearchInput));
    assert!(guest.playlists.is_empty());
    let own = startup_state(&cfg, false, 30, Some(read_library(&c)));
    assert_eq!(own.pane, Pane::Playlists);
    assert_eq!(own.playlists.len(), 1);
    assert_eq!(own.volume, 30);
    assert_eq!(startup_volume(Some(12), &cfg), 12);
    assert_eq!(startup_volume(None, &cfg), 70);
    let unread = || KeptLibrary {
        playlists: Err("disk".to_owned()),
        songs: Ok(vec![Track::stub("v", "V")]),
        downloads: Err("disk".to_owned()),
    };
    let own = startup_state(&cfg, false, 30, Some(unread()));
    assert!(own.playlists.is_empty());
    assert_eq!(own.tracks.len(), 1, "one part that cannot be read stops no other");
    let guest = startup_state(&cfg, true, 30, Some(unread()));
    assert!(guest.tracks.is_empty() && guest.downloaded_tracks.is_empty());
}

#[test]
fn playlists_are_listed_one_to_a_line() {
    let mut p = Playlist::stub("p", "P");
    p.track_count = Some(3);
    let lines = playlist_lines(&vec![p, Playlist::stub("q", "Q")]).expect("a list");
    assert_eq!(lines, ["P\t3 tracks", "Q"]);
    assert!(playlist_lines(&vec![]).is_err());
}

#[test]
fn only_some_commands_read_the_settings() {
    let with = |cmd: Option<Command>| Cli { config: None, command: cmd }.reads_settings();
    assert!(with(None));
    assert!(with(Some(Command::Playlists)));
    assert!(!with(Some(Command::Config { no_edit: true })));
    assert!(with(Some(Command::Cache { action: CacheAction::Clear })));
}

#[test]
fn a_jar_stands_for_cookies_that_are_not_newer() {
    assert!(jar_is_fresh(Some(5), Some(5), 1));
    assert!(!jar_is_fresh(Some(6), Some(5), 1));
    assert!(!jar_is_fresh(Some(5), Some(5), 0));
    assert!(!jar_is_fresh(None, Some(5), 1));
    assert!(!jar_is_fresh(Some(5), None, 1));
}

#[test]
fn a_theme_of_ones_own_is_kept_for_the_cycle() {
    let nord = Theme::preset("nord").expect("built in");
    assert_eq!(own_theme(nord, "custom", None), Some(nord));
    assert_eq!(own_theme(nord, "nord", None), None);
    let file = "preset = \"paper\"";
    assert_eq!(own_theme(nord, "nord", Some(file)), Theme::preset("paper"));
    assert_eq!(own_theme(nord, "nord", Some("nonsense")), None);
}

#[test]
fn only_a_cookie_can_expire() {
    assert!(cookie_may_expire(&Config::default(), false));
    assert!(!cookie_may_expire(&Config::default(), true));
    let old = Config::from_toml_str("[auth]\nkind = \"oauth\"").expect("it loads");
    assert!(!cookie_may_expire(&old, false));
}
