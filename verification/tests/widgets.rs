use ytm::app::{AppState, Focus, Modal, Pane, PANE_ORDER};
use ytm::event::{AppEvent, InputAction};
use ytm::help;
use ytm::keymap::KeyMap;
use ytm::model::{Track, TrackDuration, VideoId};
use ytm::nowplaying::{bar_span, chrome_parts, progress_bar, seek_target_secs, EIGHTHS};
use ytm::player::{PlaybackState, RepeatMode};
use ytm::render::{
    click_target, draw_main, list_rows_for, list_top_for, render, split_for_art, ClickTarget, Cover,
    ListKind, ART_GAP, ART_WIDTH, MAIN_MIN_WIDTH, SIDEBAR_WIDTH,
};
use ytm::screen::{Line, Placed, Rect, Span};
use ytm::sidebar::{layout, lines, source_at_row, source_label_color, SidebarRow, SOURCES};
use ytm::theme::{Color, Theme};
use ytm::tracklist::visible_window;
use ytm::{nowplaying, tracklist};

/// One cell of a terminal.
#[derive(Clone)]
struct Cell {
    symbol: char,
    fg: Option<Color>,
    selected: bool,
}

/// A terminal that keeps what is painted into it.
struct Grid {
    w: u16,
    h: u16,
    cells: Vec<Cell>,
}

impl Grid {
    fn new(w: u16, h: u16) -> Grid {
        let blank = Cell { symbol: ' ', fg: None, selected: false };
        Grid { w, h, cells: vec![blank; w as usize * h as usize] }
    }

    fn put(&mut self, x: u16, y: u16, cell: Cell) {
        if x < self.w && y < self.h {
            self.cells[y as usize * self.w as usize + x as usize] = cell;
        }
    }

    fn line(&mut self, area: Rect, row: u16, spans: &[Span], selected: bool, theme: &Theme) {
        if row >= area.height {
            return;
        }
        let mut at = 0;
        if selected {
            for x in 0..area.width {
                self.put(area.x + x, area.y + row, Cell { symbol: ' ', fg: None, selected });
            }
        }
        for span in spans {
            for symbol in span.text.chars() {
                if at < area.width {
                    let fg = Some(theme.paint(span.style.fg));
                    let selected = selected || span.style.selected;
                    self.put(area.x + at, area.y + row, Cell { symbol, fg, selected });
                }
                at += 1;
            }
        }
    }

    fn all(&mut self, area: Rect, lines: &[Line], theme: &Theme) {
        for (i, l) in lines.iter().enumerate() {
            self.line(area, i as u16, &l.spans, l.selected, theme);
        }
    }

    fn placed(&mut self, placed: &[Placed], theme: &Theme) {
        for p in placed {
            self.all(p.area, &p.lines, theme);
        }
    }

    fn text(&mut self, area: Rect, text: &str) {
        for (i, symbol) in text.chars().enumerate() {
            if (i as u16) < area.width && area.height > 0 {
                self.put(area.x + i as u16, area.y, Cell { symbol, fg: None, selected: false });
            }
        }
    }
}

/// The whole frame.
fn frame_of(s: &AppState, km: &KeyMap, w: u16, h: u16) -> Grid {
    let mut g = Grid::new(w, h);
    let theme = Theme::default();
    let area = Rect::new(0, 0, w, h);
    let Some(plan) = render(s, area, false, false) else {
        return g;
    };
    let side = lines(s, plan.sidebar.width as usize, plan.sidebar.height as usize);
    g.all(plan.sidebar, &side, &theme);
    for y in 0..plan.rule.height {
        g.put(plan.rule.x, plan.rule.y + y, Cell { symbol: '\u{2502}', fg: None, selected: false });
    }
    if let Some(main) = draw_main(s, plan.main) {
        g.line(main.heading_area, 0, &main.heading, false, &theme);
        if let Some(area) = main.search {
            g.text(area, &format!("Search: {}", s.search_query));
        }
        if let Some(area) = main.header_area {
            g.line(area, 0, &main.header, false, &theme);
        }
        if main.list == ListKind::Tracks {
            g.placed(&tracklist::draw(s, main.list_area), &theme);
        }
    }
    g.placed(&nowplaying::draw(s, plan.bar), &theme);
    if plan.cover == Cover::Help {
        if let Some(o) = help::draw(km, area) {
            for y in 0..o.rect.height {
                for x in 0..o.rect.width {
                    let blank = Cell { symbol: ' ', fg: None, selected: false };
                    g.put(o.rect.x + x, o.rect.y + y, blank);
                }
            }
            g.text(o.rect, help::TITLE);
            g.all(o.inner, &o.lines, &theme);
        }
    }
    g
}

fn frame_text(s: &AppState, w: u16, h: u16) -> String {
    frame_of(s, &KeyMap::new(true), w, h).cells.iter().map(|c| c.symbol).collect()
}

fn frame_text20(s: &AppState) -> String {
    frame_text(s, 80, 20)
}

fn frame_rows(s: &AppState, w: u16, h: u16) -> Vec<String> {
    let g = frame_of(s, &KeyMap::new(true), w, h);
    g.cells.chunks(w as usize).map(|r| r.iter().map(|c| c.symbol).collect()).collect()
}

fn last_cell_color(s: &AppState, sym: char) -> Option<Color> {
    let g = frame_of(s, &KeyMap::new(true), 80, 20);
    g.cells.iter().rev().find(|c| c.symbol == sym).and_then(|c| c.fg)
}

fn with_keys(s: &AppState, km: &KeyMap) -> String {
    frame_of(s, km, 80, 24).cells.iter().map(|c| c.symbol).collect()
}

fn text_of(s: &AppState) -> String {
    with_keys(s, &KeyMap::new(true))
}

fn playing() -> AppState {
    AppState {
        pane: Pane::Songs,
        tracks: vec![Track::stub("v1", "Roygbiv")],
        now_playing: Some(Track {
            thumbnail_url: Some("https://example.com/a.jpg".into()),
            ..Track::stub("v1", "Roygbiv")
        }),
        ..Default::default()
    }
}

#[test]
fn without_image_support_the_main_pane_keeps_its_full_width() {
    let s = playing();
    let text = frame_text(&s, 80, 24);
    assert!(
        text.contains("Roygbiv"),
        "the track list still renders, got: {text}"
    );
}

#[test]
fn art_layout_reserves_a_panel_only_when_art_is_enabled_and_wide_enough() {
    let full = Rect::new(0, 0, 100, 20);
    let (main, art) = split_for_art(full, false, true);
    assert_eq!(main, full, "disabled art must not shrink the main pane");
    assert!(art.is_none());

    let (main, art) = split_for_art(full, true, true);
    assert!(main.width < full.width, "enabled art takes columns");
    assert!(art.is_some());
}

#[test]
fn a_narrow_terminal_gets_no_art_panel_however_capable_it_is() {
    let narrow = Rect::new(0, 0, 40, 20);
    let (main, art) = split_for_art(narrow, true, true);
    assert_eq!(main, narrow);
    assert!(art.is_none());
}

#[test]
fn art_is_skipped_when_nothing_is_playing() {
    let wide = Rect::new(0, 0, 100, 30);
    let (main, art) = split_for_art(wide, true, false);
    assert_eq!(main, wide, "no track means no panel");
    assert!(art.is_none());
}

#[test]
fn an_eight_by_four_terminal_still_does_not_panic_with_art_enabled() {
    let s = playing();
    let _ = frame_text(&s, 8, 4);
}

#[test]
fn the_art_panel_is_separated_from_the_list_by_a_gap() {
    let full = Rect::new(0, 0, 100, 20);
    let (main, art) = split_for_art(full, true, true);
    let art = art.expect("a 100-column frame has room for art");
    assert!(
        art.x > main.x + main.width,
        "art at x={} must start past the list's right edge at {}",
        art.x,
        main.x + main.width
    );
    assert_eq!(
        art.x - (main.x + main.width),
        ART_GAP,
        "the gap should be exactly ART_GAP columns"
    );
}

#[test]
fn the_gap_is_counted_when_deciding_whether_art_fits() {
    let exact = Rect::new(0, 0, MAIN_MIN_WIDTH + ART_WIDTH, 20);
    let (main, art) = split_for_art(exact, true, true);
    assert_eq!(main, exact, "one column short of the gap means no art");
    assert!(art.is_none());

    let enough = Rect::new(0, 0, MAIN_MIN_WIDTH + ART_WIDTH + ART_GAP, 20);
    assert!(split_for_art(enough, true, true).1.is_some());
}

#[test]
fn visual_mode_says_so_in_the_heading_with_a_count() {
    let mut s = AppState {
        pane: Pane::Songs,
        focus: Focus::Main,
        tracks: (0..4).map(|i| Track::stub(&format!("v{i}"), "T")).collect(),
        ..Default::default()
    };
    s.apply(AppEvent::Input(
        InputAction::ToggleVisual,
    ));
    s.apply(AppEvent::Input(
        InputAction::Down,
    ));
    let text = frame_text(&s, 80, 24);
    assert!(
        text.contains("VISUAL"),
        "the mode must be named, got: {text}"
    );
    assert!(
        text.contains('2'),
        "the selected count must show, got: {text}"
    );
}

#[test]
fn the_artists_pane_draws_a_query_row_while_its_search_is_open() {
    let mut s = AppState {
        pane: Pane::Artists,
        focus: Focus::Main,
        ..Default::default()
    };
    s.apply(AppEvent::Input(
        InputAction::OpenSearch,
    ));
    let text = frame_text(&s, 80, 24);
    assert!(
        text.contains("Search:"),
        "the artist query field must be on screen, got: {text}"
    );
}

#[test]
fn the_artists_pane_has_no_query_row_before_its_search_opens() {
    let s = AppState {
        pane: Pane::Artists,
        focus: Focus::Main,
        ..Default::default()
    };
    let text = frame_text(&s, 80, 24);
    assert!(!text.contains("Search:"));
}

#[test]
fn the_heading_is_clean_outside_visual_mode() {
    let s = AppState {
        pane: Pane::Songs,
        tracks: vec![Track::stub("v1", "Roygbiv")],
        ..Default::default()
    };
    let text = frame_text(&s, 80, 24);
    assert!(!text.contains("VISUAL"));
}

#[test]
fn a_narrow_frame_drops_the_indicator_rather_than_the_pane_name() {
    let mut s = AppState {
        pane: Pane::Songs,
        focus: Focus::Main,
        tracks: vec![Track::stub("v1", "Roygbiv")],
        ..Default::default()
    };
    s.apply(AppEvent::Input(
        InputAction::ToggleVisual,
    ));
    let text = frame_text(&s, 30, 10);
    assert!(text.contains("Fav"), "the pane name survives, got: {text}");
}

#[test]
fn the_viewport_row_count_excludes_the_chrome() {
    let area = Rect::new(0, 0, 80, 24);
    assert_eq!(list_rows_for(area, false, false, false), 19);
    assert_eq!(list_rows_for(area, true, false, false), 18);
    assert_eq!(list_rows_for(area, false, false, true), 18);
}

#[test]
fn a_tiny_terminal_reports_no_rows_rather_than_underflowing() {
    let area = Rect::new(0, 0, 80, 2);
    assert_eq!(list_rows_for(area, false, false, false), 0);
    assert_eq!(
        list_rows_for(Rect::new(0, 0, 80, 0), false, false, false),
        0
    );
}

#[test]
fn the_list_starts_below_the_heading() {
    assert_eq!(list_top_for(false, false, false), 1);
    assert_eq!(list_top_for(true, false, false), 2);
    assert_eq!(list_top_for(false, false, true), 2);
    assert_eq!(list_top_for(true, true, true), 4);
}

#[test]
fn a_click_in_the_sidebar_names_its_source() {
    let area = Rect::new(0, 0, 80, 24);
    assert_eq!(
        click_target(area, 3, 0, false, false, false),
        ClickTarget::Source(0)
    );
    assert_eq!(
        click_target(area, 3, 4, false, false, false),
        ClickTarget::Source(3)
    );
}

#[test]
fn a_click_on_a_sidebar_spacer_selects_nothing() {
    let area = Rect::new(0, 0, 80, 24);
    assert_eq!(
        click_target(area, 3, 1, false, false, false),
        ClickTarget::Nothing
    );
}

#[test]
fn a_click_in_the_list_names_a_row_offset_not_a_screen_row() {
    let area = Rect::new(0, 0, 80, 24);
    assert_eq!(
        click_target(area, 40, 1, false, false, false),
        ClickTarget::Row(0)
    );
    assert_eq!(
        click_target(area, 40, 5, false, false, false),
        ClickTarget::Row(4)
    );
    assert_eq!(
        click_target(area, 40, 2, true, false, false),
        ClickTarget::Row(0)
    );
    assert_eq!(
        click_target(area, 40, 3, true, false, true),
        ClickTarget::Row(0)
    );
}

#[test]
fn clicks_on_chrome_select_nothing() {
    let area = Rect::new(0, 0, 80, 24);
    assert_eq!(
        click_target(area, 40, 0, false, false, false),
        ClickTarget::Nothing
    );
    assert_eq!(
        click_target(area, SIDEBAR_WIDTH, 3, false, false, false),
        ClickTarget::Nothing
    );
    assert_eq!(
        click_target(area, 40, 21, false, false, false),
        ClickTarget::Nothing
    );
    assert_eq!(
        click_target(area, 40, 200, false, false, false),
        ClickTarget::Nothing
    );
}

#[test]
fn window_shows_the_top_when_selection_is_near_the_start() {
    assert_eq!(visible_window(0, 0, 10, 100), (0, 10));
    assert_eq!(visible_window(5, 0, 10, 100), (0, 10));
}

#[test]
fn window_scrolls_when_the_selection_passes_the_bottom() {
    let (start, end) = visible_window(12, 0, 10, 100);
    assert!(
        start <= 12 && 12 < end,
        "selection must be visible, got {start}..{end}"
    );
}

#[test]
fn window_never_exceeds_the_item_count() {
    let (start, end) = visible_window(2, 0, 10, 3);
    assert_eq!((start, end), (0, 3));
}

#[test]
fn window_is_empty_for_an_empty_list() {
    assert_eq!(visible_window(0, 0, 10, 0), (0, 0));
}

#[test]
fn window_handles_a_zero_height_viewport() {
    assert_eq!(visible_window(0, 0, 0, 50), (0, 0));
}

#[test]
fn rows_show_title_artist_and_duration() {

    let s = AppState {
        pane: Pane::Songs,
        tracks: vec![Track {
            title: "Roygbiv".into(),
            artists: vec!["Boards of Canada".into()],
            duration: TrackDuration::from_secs(149),
            ..Track::stub("v1", "Roygbiv")
        }],
        ..Default::default()
    };

    let text = frame_text20(&s);
    assert!(text.contains("Roygbiv"));
    assert!(text.contains("Boards of Canada"));
    assert!(text.contains("2:29"));
}

#[test]
fn a_populated_track_pane_draws_a_column_header() {
    let s = AppState {
        pane: Pane::Songs,
        tracks: vec![Track::stub("v1", "Roygbiv")],
        ..Default::default()
    };
    let text = frame_text20(&s);
    assert!(text.contains("Title"), "header labels the title column");
    assert!(text.contains("Artist"), "header labels the artist column");
    assert!(text.contains("Time"), "header labels the duration column");
    assert!(text.contains("Roygbiv"));
}

#[test]
fn an_empty_track_pane_has_no_column_header() {
    let s = AppState {
        pane: Pane::Songs,
        ..Default::default()
    };
    assert!(!frame_text20(&s).contains("Title"));
}

#[test]
fn an_empty_pane_shows_a_message_not_a_blank_area() {
    let s = AppState {
        pane: Pane::Songs,
        ..Default::default()
    };
    assert!(
        frame_text20(&s).contains("No liked songs"),
        "empty states must say something specific to the pane"
    );
}

#[test]
fn marked_rows_render_with_highlighted_background() {
    let mut state = AppState {
        pane: Pane::Songs,
        tracks: vec![Track::stub("t1", "Song 1"), Track::stub("t2", "Song 2")],
        selected: 1,
        ..Default::default()
    };
    state.marked.insert(VideoId::from("t1"));
    let theme = Theme::preset("tokyonight").unwrap();

    let mut g = Grid::new(80, 10);
    g.placed(&tracklist::draw(&state, Rect::new(0, 0, 80, 10)), &theme);
    let rendered: String = g.cells.iter().map(|c| c.symbol).collect();
    assert!(rendered.contains('•'));
    assert!(g.cells[0].selected, "a marked row stands on the selection background");
}

fn rule_row(rows: &[String]) -> Option<usize> {
    rows.iter()
        .position(|r| r.chars().filter(|c| *c == '\u{2500}').count() > 40)
}

#[test]
fn a_rule_separates_the_now_playing_bar_from_the_list() {
    let rows = frame_rows(&playing_two_minutes(), 80, 24);
    assert!(
        rule_row(&rows).is_some(),
        "a horizontal separator must sit above the bar, got:\n{}",
        rows.join("\n")
    );
}

#[test]
fn the_rule_has_a_blank_row_of_margin_above_it() {
    let rows = frame_rows(&playing_two_minutes(), 80, 24);
    let i = rule_row(&rows).expect("a rule row");
    assert!(
        rows[i - 1].replace('\u{2502}', "").trim().is_empty(),
        "the row above the rule is margin apart from the divider, got {:?}",
        rows[i - 1]
    );
    assert!(
        rows[i + 1].contains("Roygbiv"),
        "the title follows the rule, got {:?}",
        rows[i + 1]
    );
    assert!(
        rows[i + 2].trim().is_empty(),
        "the row between title and seekbar is a blank gap, got {:?}",
        rows[i + 2]
    );
    assert!(
        rows[i + 3].contains("0:00") && rows[i + 3].contains("2:00"),
        "the progress bar follows the gap, got {:?}",
        rows[i + 3]
    );
}

#[test]
fn the_rule_spans_the_full_width() {
    let rows = frame_rows(&playing_two_minutes(), 80, 24);
    let i = rule_row(&rows).expect("a rule row");
    let line: Vec<char> = rows[i].chars().collect();
    assert_eq!(line.len(), 80);
    assert!(
        line.iter().all(|c| *c == '\u{2500}' || *c == '\u{2534}'),
        "the whole row must be rule, got {:?}",
        rows[i]
    );
}

#[test]
fn the_sidebar_divider_reaches_down_to_the_rule() {
    let rows = frame_rows(&playing_two_minutes(), 80, 24);
    let i = rule_row(&rows).expect("a rule row");
    let col = SIDEBAR_WIDTH as usize;
    let above: Vec<char> = rows[i - 1].chars().collect();
    assert_eq!(
        above[col],
        '\u{2502}',
        "the divider must continue through the margin row, got {:?}",
        rows[i - 1]
    );
}

#[test]
fn the_two_rules_meet_in_a_junction() {
    let rows = frame_rows(&playing_two_minutes(), 80, 24);
    let i = rule_row(&rows).expect("a rule row");
    let col = SIDEBAR_WIDTH as usize;
    let line: Vec<char> = rows[i].chars().collect();
    assert_eq!(
        line[col], '\u{2534}',
        "expected the up-tee, got {:?}",
        rows[i]
    );
}

#[test]
fn the_margin_row_is_still_blank_beside_the_divider() {
    let rows = frame_rows(&playing_two_minutes(), 80, 24);
    let i = rule_row(&rows).expect("a rule row");
    let col = SIDEBAR_WIDTH as usize;
    let above: Vec<char> = rows[i - 1].chars().collect();
    assert!(
        above[col + 1..].iter().all(|c| c.is_whitespace()),
        "the list side of the margin row must stay empty, got {:?}",
        rows[i - 1]
    );
}

#[test]
fn progress_bar_is_empty_at_zero_and_full_at_one() {
    assert_eq!(progress_bar(0, 1, 10).trim_end(), "");
    assert_eq!(progress_bar(1, 1, 10), "██████████");
}

#[test]
fn progress_bar_uses_partial_blocks_for_sub_cell_precision() {
    let b = progress_bar(55, 100, 10);
    assert!(b.chars().any(|c| EIGHTHS[..7].contains(&c)), "got {b:?}");
}

#[test]
fn progress_bar_clamps_out_of_range_ratios() {
    assert_eq!(progress_bar(-1, 1, 5).trim_end(), "");
    assert_eq!(progress_bar(2, 1, 5), "█████");
}

fn playing_two_minutes() -> AppState {
    AppState {
        now_playing: Some(Track::stub("v1", "Roygbiv")),
        playback: PlaybackState::Playing,
        position: TrackDuration::from_secs(0),
        duration: TrackDuration::from_secs(120),
        ..Default::default()
    }
}

#[test]
fn a_click_at_the_bars_left_edge_seeks_to_the_start() {
    let s = playing_two_minutes();
    let (start, _) = bar_span(80, &s);
    assert_eq!(seek_target_secs(80, start, &s), Some(0));
}

#[test]
fn a_click_halfway_along_the_bar_seeks_to_the_middle() {
    let s = playing_two_minutes();
    let (start, width) = bar_span(80, &s);
    let got = seek_target_secs(80, start + width / 2, &s).expect("inside the bar");
    assert!(got.abs_diff(60) <= 1, "expected ~60s, got {got}");
}

#[test]
fn a_click_on_the_chrome_either_side_of_the_bar_does_not_seek() {
    let s = playing_two_minutes();
    let (start, width) = bar_span(80, &s);
    assert_eq!(seek_target_secs(80, start.saturating_sub(1), &s), None);
    assert_eq!(seek_target_secs(80, start + width, &s), None);
}

#[test]
fn a_click_does_not_seek_when_nothing_is_playing() {
    let s = AppState::default();
    assert_eq!(seek_target_secs(80, 20, &s), None);
}

#[test]
fn the_bar_span_matches_the_bar_that_is_drawn() {
    let s = playing_two_minutes();
    let (_, width) = bar_span(80, &s);
    assert_eq!(progress_bar(1, 2, width).chars().count(), width);
}

#[test]
fn now_playing_shows_title_artist_and_times() {
    let s = AppState {
        now_playing: Some(Track::stub("v1", "Roygbiv")),
        playback: PlaybackState::Playing,
        position: TrackDuration::from_secs(65),
        duration: TrackDuration::from_secs(149),
        ..Default::default()
    };
    let text = frame_text20(&s);
    assert!(text.contains("Roygbiv"), "title missing");
    assert!(text.contains("1:05"), "elapsed missing");
    assert!(text.contains("2:29"), "duration missing");
}

#[test]
fn idle_state_shows_a_placeholder_not_an_empty_bar() {
    let s = AppState::default();
    assert!(frame_text20(&s).contains("Nothing playing"));
}

#[test]
fn the_flags_geometry_matches_chrome_parts_so_seeking_stays_exact() {
    let s = AppState {
        shuffle: true,
        repeat: RepeatMode::All,
        volume: 80,
        ..playing_two_minutes()
    };
    let placed = nowplaying::draw(&s, Rect::new(0, 0, 80, 5));
    let spans = &placed.last().unwrap().lines[0].spans;
    let joined: String = spans[spans.len() - 5..].iter().map(|sp| sp.text.as_str()).collect();
    let (_, _, flags) = chrome_parts(&s);
    assert_eq!(joined, flags, "styled flags must not change the widths");
}

#[test]
fn an_active_mode_is_drawn_in_the_accent_not_a_uniform_dim() {
    let theme = Theme::default();
    let on = last_cell_color(
        &AppState {
            shuffle: true,
            ..playing_two_minutes()
        },
        '\u{21C4}',
    );
    assert_eq!(on, Some(theme.accent), "shuffle-on should take the accent");
}

#[test]
fn muting_shows_zero_in_the_error_colour() {
    let theme = Theme::default();
    let s = AppState {
        muted: true,
        volume: 60,
        ..playing_two_minutes()
    };
    let text = frame_text20(&s);
    assert!(text.contains("0%"), "muted reads as 0%, got: {text}");
    assert_eq!(
        last_cell_color(&s, '0'),
        Some(theme.error),
        "the muted volume should be drawn in the error colour"
    );
}

#[test]
fn sidebar_lists_every_source() {
    let text = frame_text20(&AppState::default());
    for label in [
        "Home",
        "Playlists",
        "Fav",
        "Albums",
        "Artists",
        "Search",
        "Queue",
    ] {
        assert!(text.contains(label), "sidebar missing {label}");
    }
}

#[test]
fn a_very_narrow_terminal_does_not_panic() {
    let s = AppState::default();
    assert_eq!(frame_text(&s, 8, 4).chars().count(), 32);
}

#[test]
fn guest_account_source_style_is_dim() {
    let theme = Theme::default();
    let state = AppState {
        guest: true,
        ..Default::default()
    };
    assert_eq!(
        source_label_color(Pane::Playlists, false, &state, &theme),
        theme.fg_dim,
        "an account pane a guest cannot enter reads as dimmed"
    );
    assert_eq!(
        source_label_color(Pane::Search, false, &state, &theme),
        theme.fg,
        "Search stays available to a guest"
    );
}

#[test]
fn signed_in_sources_keep_their_normal_contrast() {
    let theme = Theme::default();
    let state = AppState::default();
    assert_eq!(
        source_label_color(Pane::Playlists, true, &state, &theme),
        theme.fg_bright
    );
    assert_eq!(
        source_label_color(Pane::Playlists, false, &state, &theme),
        theme.fg
    );
}

#[test]
fn the_number_keys_match_the_order_the_sidebar_renders() {
    let rendered: Vec<_> = SOURCES.iter().map(|(p, _)| *p).collect();
    assert_eq!(
        rendered,
        PANE_ORDER.to_vec(),
        "sidebar order and PANE_ORDER must stay identical"
    );
}

#[test]
fn the_layout_covers_every_source_exactly_once() {
    let mut seen = vec![0usize; SOURCES.len()];
    for slot in layout() {
        if let SidebarRow::Source(i) = slot {
            assert!(i < SOURCES.len(), "layout points at a missing source {i}");
            seen[i] += 1;
        }
    }
    assert!(
        seen.iter().all(|&c| c == 1),
        "every source must appear exactly once, got {seen:?}"
    );
}

#[test]
fn a_spacer_row_belongs_to_no_source() {
    assert_eq!(source_at_row(0), Some(0), "row 0 is Home");
    assert_eq!(source_at_row(1), None, "row 1 is the spacer after Home");
    assert_eq!(source_at_row(2), Some(1), "row 2 is Playlists");
    assert_eq!(source_at_row(99), None, "past the end is nothing");
}

fn help_open() -> AppState {
    AppState {
        modal: Some(Modal::Help),
        ..Default::default()
    }
}

#[test]
fn help_overlay_lists_bindings() {
    let text = text_of(&help_open());
    assert!(text.contains("Help") || text.contains("Keys"));
    assert!(text.contains("quit") || text.contains("Quit"));
}

#[test]
fn the_help_overlay_names_the_key_for_each_action() {
    let text = text_of(&help_open());
    for action in ["quit", "pause", "search", "queue"] {
        assert!(text.contains(action), "missing action {action:?}");
    }
}

#[test]
fn help_shows_the_configured_key_not_the_default_one() {
    let km = KeyMap::from_toml_str(r#"quit = "Z""#).unwrap();
    let text = with_keys(&help_open(), &km);
    let z = text.find('Z').expect("the override must be listed");
    let quit = text.find("quit").expect("quit must be listed");
    assert!(
        quit.saturating_sub(z) < 40,
        "the key must sit on the same row as its action"
    );
}

#[test]
fn nothing_is_drawn_when_the_overlay_is_closed() {
    let s = AppState::default();
    assert!(!text_of(&s).contains("Help"));
}

#[test]
fn the_overlay_survives_a_terminal_too_small_to_hold_it() {
    assert_eq!(frame_text(&help_open(), 8, 3).chars().count(), 24);
}

#[test]
fn the_overlay_lists_the_number_keys_for_sources() {
    let text = text_of(&help_open());
    assert!(
        text.contains("1-8"),
        "the source jump keys should be listed, got: {text}"
    );
}

#[test]
fn the_overlay_explains_that_h_goes_back() {
    let text = text_of(&help_open());
    assert!(
        text.contains("back") || text.contains("close"),
        "h should read as going back a level, got: {text}"
    );
}

#[test]
fn the_overlay_lists_the_visual_select_binding() {
    let rows = help::rows(&KeyMap::new(true));
    assert!(
        rows.iter().any(|(k, l)| k == "V" && *l == "visual select"),
        "V must be listed, got: {rows:?}"
    );
}
