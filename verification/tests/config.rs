use ytm::cli::{open_settings, Cli, Command};
use ytm::config::{
    auto_theme_name, expand_tilde, log_dir, resolve_theme, theme_file_path, AuthKind, Config,
    StorageConfig, ThemeChoice, UserDirs,
};
use ytm::config_file::{report_added, top_up, TopUp, EXAMPLE_TOML};
use ytm::document::Scalar;
use ytm::player::{CommandLog, PlayerCommand};
use ytm::startup::{apply_startup_shuffle, guest_startup};
use ytm::state_file::{load, save, RuntimeState};
use ytm::theme::{parse_hex, Theme};

#[test]
fn a_theme_file_path_with_a_tilde_resolves_on_reload_too() {
    let cfg = Config::from_toml_str("[ui]\ntheme_file = \"~/.ytm-test-theme.toml\"")
        .expect("config parses");
    assert_eq!(
        theme_file_path(&cfg, Some("/home/someone")),
        Some("/home/someone/.ytm-test-theme.toml".to_owned()),
        "a ~ path must resolve"
    );
    let file = Some(Ok("preset = \"gruvbox\"\naccent = \"#ff0000\"\n".to_owned()));
    let (theme, name) = resolve_theme(&cfg, file, None).expect("a ~ path must resolve");
    assert_eq!(name, "custom");
    assert_eq!(theme.accent, parse_hex("#ff0000").unwrap());
}

#[test]
fn paths_point_to_ytm_tui() {
    assert_eq!(Config::default_path("/x/ytm-tui"), "/x/ytm-tui/config.toml");
    assert_eq!(log_dir("/x/ytm-tui"), "/x/ytm-tui/logs");
}

#[test]
fn expand_tilde_leaves_other_paths_alone() {
    let home = Some("/home/someone");
    assert_eq!(expand_tilde("/etc/absolute.toml", home), "/etc/absolute.toml");
    assert_eq!(expand_tilde("relative.toml", home), "relative.toml");
    assert_eq!(expand_tilde("~weird", home), "~weird");
}

#[test]
fn defaults_apply_when_file_is_absent() {
    let c = Config::from_toml_str("").unwrap();
    assert_eq!(c.auth.kind, AuthKind::Cookie);
    assert_eq!(c.playback.volume, 70);
    assert!(c.ui.vim_keys);
    assert_eq!(c.ui.tick_ms, 250);
}

#[test]
fn parses_a_full_config() {
    let c = Config::from_toml_str(
        r##"
        [auth]
        kind = "cookie"
        cookie_file = "/tmp/c.txt"

        [playback]
        volume = 40

        [ui]
        vim_keys = false
        accent = "#7aa2f7"
        "##,
    )
    .unwrap();
    assert_eq!(c.auth.kind, AuthKind::Cookie);
    assert_eq!(
        c.auth.cookie_file.as_deref(),
        Some("/tmp/c.txt")
    );
    assert_eq!(c.playback.volume, 40);
    assert!(!c.ui.vim_keys);
    assert_eq!(c.ui.accent.as_deref(), Some("#7aa2f7"));
}

#[test]
fn volume_out_of_range_is_rejected_with_a_clear_message() {
    let err = Config::from_toml_str("[playback]\nvolume = 500")
        .unwrap_err()
        .message();
    assert!(
        err.contains("volume"),
        "message should name the offending key, got: {err}"
    );
}

#[test]
fn an_old_oauth_config_still_parses() {
    let c = Config::from_toml_str("[auth]\nkind = \"oauth\"").unwrap();
    assert_eq!(c.auth.kind, AuthKind::OAuth);
}

#[test]
fn a_config_still_naming_the_removed_oauth_keys_loads() {
    let c = Config::from_toml_str(
        r#"
        [auth]
        kind = "cookie"
        client_id = "leftover.apps.googleusercontent.com"
        client_secret = "leftover-secret"
        cookie_file = "/tmp/c.txt"
        "#,
    )
    .expect("an old config with dead keys must still load");
    assert_eq!(c.auth.kind, AuthKind::Cookie);
    assert_eq!(
        c.auth.cookie_file.as_deref(),
        Some("/tmp/c.txt")
    );
}

#[test]
fn behaviour_defaults_match_the_previous_hardcoded_steps() {
    let c = Config::default();
    assert_eq!(c.behaviour.seek_step_secs, 5);
    assert_eq!(c.behaviour.volume_step, 5);
    assert!(!c.behaviour.confirm_on_quit);
}

#[test]
fn behaviour_values_are_read_from_toml() {
    let c = Config::from_toml_str(
        r#"
        [behaviour]
        seek_step_secs = 30
        volume_step = 2
        confirm_on_quit = true
        "#,
    )
    .unwrap();
    assert_eq!(c.behaviour.seek_step_secs, 30);
    assert_eq!(c.behaviour.volume_step, 2);
    assert!(c.behaviour.confirm_on_quit);
}

#[test]
fn a_zero_step_is_rejected_rather_than_making_a_key_do_nothing() {
    let e = Config::from_toml_str("[behaviour]\nseek_step_secs = 0")
        .unwrap_err()
        .message();
    assert!(e.contains("seek_step_secs"), "got: {e}");
}

#[test]
fn the_keys_table_is_carried_through_verbatim() {
    let c = Config::from_toml_str("[keys]\ntoggle_visual = \"z\"").unwrap();
    assert_eq!(
        c.keys,
        vec![("toggle_visual".to_owned(), Scalar::Text("z".to_owned()))]
    );
}

#[test]
fn theme_defaults_to_auto_and_accepts_a_name() {
    assert_eq!(Config::default().ui.theme, ThemeChoice::Auto);
    let c = Config::from_toml_str(
        r#"[ui]
theme = "gruvbox""#,
    )
    .unwrap();
    assert_eq!(c.ui.theme, ThemeChoice::Named("gruvbox".into()));
}

#[test]
fn an_unconfigured_file_still_loads_with_every_new_section_defaulted() {
    let c = Config::from_toml_str("[playback]\nvolume = 40").unwrap();
    assert_eq!(c.playback.volume, 40);
    assert_eq!(c.behaviour.seek_step_secs, 5);
    assert_eq!(c.ui.theme, ThemeChoice::Auto);
    assert!(c.keys.is_empty());
}

#[test]
fn auto_theme_reads_a_light_terminal_background_from_colorfgbg() {
    for (v, want_light) in [
        ("15;7", true),
        ("0;15", true),
        ("15;0", false),
        ("default;default", false),
    ] {
        let is_light = auto_theme_name(Some(v)) == "dawn";
        assert_eq!(is_light, want_light, "COLORFGBG={v}");
    }
}

#[test]
fn auto_theme_falls_back_to_a_dark_preset_and_it_resolves() {
    let name = auto_theme_name(None);
    assert!(
        Theme::preset(&name).is_some(),
        "auto picked {name:?}, which is not a built-in theme"
    );
}

#[test]
fn auto_reload_theme_config_defaults_to_false_and_parses() {
    let c = Config::from_toml_str("").unwrap();
    assert!(!c.ui.auto_reload_theme);

    let c = Config::from_toml_str("[ui]\nauto_reload_theme = true").unwrap();
    assert!(c.ui.auto_reload_theme);
}

#[test]
fn storage_config_parses_with_custom_values_and_defaults() {
    let toml = r#"
        [storage]
        download_dir = "~/Music/offline"
        cache_size_mb = 2048
        prefetch_count = 3
    "#;
    let cfg = Config::from_toml_str(toml).unwrap();
    assert_eq!(cfg.storage.cache_size_mb, 2048);
    assert_eq!(cfg.storage.prefetch_count, 3);
    assert_eq!(
        cfg.storage.download_dir,
        Some("~/Music/offline".to_owned())
    );
}

#[test]
fn storage_config_defaults_are_sensible() {
    let cfg = Config::default();
    assert_eq!(cfg.storage.cache_size_mb, 1024);
    assert_eq!(cfg.storage.prefetch_count, 2);
}

#[test]
fn storage_config_download_dir_resolves_sensibly() {
    let none = UserDirs { home: None, audio: None, env_home: None };
    let mut cfg = StorageConfig::default();
    let default_dir = cfg.download_dir(&none);
    assert!(default_dir.ends_with("ytm") || default_dir.ends_with("downloads"));

    cfg.download_dir = Some("/tmp/custom_ytm".to_owned());
    assert_eq!(cfg.download_dir(&none), "/tmp/custom_ytm");
}

#[test]
fn shuffle_at_startup_is_sent_to_the_player_not_just_shown() {
    let mut player = CommandLog::new();
    apply_startup_shuffle(&mut player, true);
    assert!(
        matches!(
            player.commands().as_slice(),
            [PlayerCommand::SetShuffle(true)]
        ),
        "shuffle must reach the queue, got {:?}",
        player.commands()
    );

    let mut off = CommandLog::new();
    apply_startup_shuffle(&mut off, false);
    assert!(
        off.commands().is_empty(),
        "shuffle off is the player's own default; sending it is noise"
    );
}

#[test]
fn absent_cookie_starts_the_tui_in_guest_search() {
    let cfg = Config::default();
    assert!(guest_startup(&cfg, false));
}

#[test]
fn configured_cookie_keeps_the_normal_startup_path() {
    let mut cfg = Config::default();
    cfg.auth.cookie_file = Some("/tmp/cookies.txt".to_owned());
    assert!(!guest_startup(&cfg, true));
}

#[test]
fn a_cookie_path_that_does_not_exist_still_starts_as_a_guest() {
    let mut cfg = Config::default();
    cfg.auth.cookie_file = Some("/nonexistent/ytm-tui/cookies.txt".into());
    assert!(guest_startup(&cfg, false));
}

#[test]
fn a_missing_state_file_is_defaults_not_an_error() {
    assert_eq!(load(None).volume, None);
}

#[test]
fn a_corrupt_state_file_is_defaults_not_an_error() {
    assert_eq!(load(Some("this is not toml {{{")).volume, None, "a bad file must not break startup");
}

#[test]
fn a_saved_volume_round_trips() {
    let text = save(&RuntimeState { volume: Some(42) });
    assert_eq!(load(Some(&text)).volume, Some(42));
}

#[test]
fn an_out_of_range_volume_in_the_file_is_ignored() {
    assert_eq!(load(Some("volume = 200\n")).volume, None, "out of range is treated as absent");
}

/// What the file holds once it has been brought up to the example.
fn after_top_up(text: &str) -> String {
    match top_up(text) {
        TopUp::Added { text, .. } => text,
        _ => text.to_owned(),
    }
}

#[test]
fn the_config_path_override_is_where_config_writes() {
    let cli = Cli {
        config: Some("/tmp/override/elsewhere.toml".to_owned()),
        command: Some(Command::Config { no_edit: true }),
    };
    let path = cli.settings_path("/home/me/.config/ytm-tui");
    assert_eq!(path, "/tmp/override/elsewhere.toml", "--config path was not written");
    let (said, written) = open_settings(&path, false);
    let text = written.expect("a file that is not there is written");
    assert!(
        text.contains("[keys]"),
        "the documented example was not what landed"
    );
    assert!(
        text.contains("# focus_current = \"c\""),
        "new configs must document the current-song binding"
    );
    assert!(
        said.contains(&path),
        "the path printed was not the path asked for"
    );
}

#[test]
fn a_file_that_is_there_is_not_written_over() {
    let cli = Cli { config: None, command: None };
    let path = cli.settings_path("/c");
    assert_eq!(path, "/c/config.toml");
    assert_eq!(open_settings(&path, true), ("config: /c/config.toml".to_owned(), None));
    assert_eq!(open_settings(&path, false).0, "config written: /c/config.toml");
}

#[test]
fn an_invalid_config_does_not_block_the_config_command() {
    let cli = Cli { config: None, command: Some(Command::Config { no_edit: true }) };
    assert!(!cli.reads_settings(), "config refused to run on a broken file");
    assert_eq!(top_up("this is not valid toml [[[\n"), TopUp::Invalid);
}

#[test]
fn an_incomplete_config_gains_the_sections_it_lacks() {
    let theirs = "[auth]\nkind = \"cookie\"\ncookie_file = \"~/mine.txt\"\n";
    let TopUp::Added { text: after, gaps } = top_up(theirs) else {
        panic!("nothing was added");
    };
    assert!(
        after.starts_with(theirs),
        "the user's own lines were not left alone:\n{after}"
    );
    for section in ["[playback]", "[ui]", "[behaviour]", "[keys]"] {
        assert!(after.contains(section), "{section} was not added:\n{after}");
    }
    assert!(
        after.contains("# add_to_queue = \"a\""),
        "the bindings were added without their commented defaults:\n{after}"
    );
    assert!(
        after.parse::<toml::Table>().is_ok(),
        "the appended text does not parse:\n{after}"
    );
    let report = report_added(&gaps).join("\n");
    assert!(
        report.contains("behaviour") && report.contains("keys"),
        "what was added was not named:\n{report}"
    );
}

#[test]
fn settings_absent_from_a_section_that_exists_are_written_into_it() {
    let after = after_top_up("[ui]\nvim_keys = true\n");
    for line in [
        "# theme = \"auto\"",
        "# mouse = true",
        "# start_pane = \"playlists\"",
        "# tick_ms = 250",
        "# album_art = true",
    ] {
        assert!(after.contains(line), "{line} was not written in:\n{after}");
    }
    let ui = after.find("[ui]").expect("[ui] survived");
    let next = after[ui + 4..]
        .find("\n[")
        .map_or(after.len(), |i| ui + 4 + i);
    assert!(
        after[ui..next].contains("# theme = \"auto\""),
        "the settings landed outside [ui]:\n{after}"
    );

    let parsed: toml::Table = after.parse().expect("the result parses");
    let keys: Vec<&String> = parsed["ui"].as_table().unwrap().keys().collect();
    assert_eq!(
        keys,
        vec!["vim_keys"],
        "topping up changed what the config does"
    );
}

#[test]
fn adding_the_missing_sections_happens_once() {
    let once = after_top_up("[auth]\nkind = \"cookie\"\n");
    assert_eq!(top_up(&once), TopUp::Complete, "the second run appended again");
    let twice = after_top_up(&once);
    assert_eq!(once, twice, "the second run appended again");
    assert!(
        twice.parse::<toml::Table>().is_ok(),
        "the result stopped parsing"
    );
}

#[test]
fn a_complete_config_is_not_nagged_about() {
    assert_eq!(
        top_up(EXAMPLE_TOML),
        TopUp::Complete,
        "a complete config was reported as incomplete"
    );
}
