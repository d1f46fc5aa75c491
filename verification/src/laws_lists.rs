//! What keys do to what is on screen: typing, moving about, marking, opening and closing;
//! and what the player's reports do to it.

use crate::app::{
    Focus, ModalView, PromptActionView, StateView, ToastKind, ToastView, TOAST_MS,
};
use crate::config::BehaviourConfig;
use crate::event::{AppEvent, InputAction};
use crate::laws_intents::{has_no_marks, lists, on, same_lists, says};
use crate::model::TrackView;
use crate::player::PlayerEvent;
use crate::reducer;
use crate::text;
use vstd::prelude::*;

verus! {

/// After an intent.
pub open spec fn pressed(s: StateView, a: InputAction) -> StateView {
    s.after(AppEvent::Input(a))
}

/// A query is being typed, and nothing lies over it.
pub open spec fn in_query(s: StateView) -> bool {
    s.modal is None && s.focus is SearchInput
}

/// A filter is being typed, and nothing lies over it.
pub open spec fn in_filter(s: StateView) -> bool {
    s.modal is None && s.focus is FilterInput
}

/// The list has the focus, and nothing lies over it.
pub open spec fn in_list(s: StateView) -> bool {
    s.modal is None && s.focus is Main
}

/// The cursor is on one of the rows on screen.
pub open spec fn on_a_row(s: StateView) -> bool {
    s.selected < s.visible().len() <= usize::MAX
}

/// A character goes into the query where the caret is, and the caret behind it; Backspace
/// takes it out again.
pub proof fn a_typed_character_goes_in_at_the_caret(s: StateView, c: char)
    requires
        in_query(s),
        s.search_query.len() < usize::MAX,
    ensures
        ({
            let t = pressed(s, InputAction::Char(c));
            let k = s.caret();
            let back = pressed(t, InputAction::Backspace);
            &&& t.search_query.len() == s.search_query.len() + 1
            &&& t.search_query[k] == c
            &&& t.search_query.take(k) == s.search_query.take(k)
            &&& t.search_query.skip(k + 1) == s.search_query.skip(k)
            &&& t.search_caret == k + 1
            &&& t.selected == 0
            &&& same_lists(s, t) && in_query(t)
            &&& back.search_query == s.search_query && back.search_caret == k
        }),
{
    reveal(StateView::after);
    reveal(StateView::after_input);
    reveal(StateView::query_edited);
    reveal(StateView::asking);
    let t = pressed(s, InputAction::Char(c));
    let k = s.caret();
    let q = s.search_query;
    assert(t.search_query.take(k) =~= q.take(k));
    assert(t.search_query.skip(k + 1) =~= q.skip(k));
    assert(pressed(t, InputAction::Backspace).search_query =~= q);
}

/// The caret goes one character to the left and back again, to the start, and to the end;
/// what was typed stays.
pub proof fn the_caret_moves_and_the_query_stays(s: StateView)
    requires
        in_query(s),
        s.search_query.len() < usize::MAX,
    ensures
        ({
            let left = pressed(s, InputAction::CharLeft);
            let right = pressed(s, InputAction::CharRight);
            let start = pressed(s, InputAction::LineStart);
            let end = pressed(s, InputAction::LineEnd);
            let k = s.caret();
            &&& k > 0 ==> left.caret() == k - 1 && pressed(left, InputAction::CharRight).caret()
                == k
            &&& k == 0 ==> left.caret() == 0
            &&& k < s.search_query.len() ==> right.caret() == k + 1 && pressed(
                right,
                InputAction::CharLeft,
            ).caret() == k
            &&& k == s.search_query.len() ==> right.caret() == k
            &&& start.caret() == 0 && end.caret() == s.search_query.len()
            &&& left.search_query == s.search_query && right.search_query == s.search_query
            &&& start.search_query == s.search_query && end.search_query == s.search_query
        }),
{
    reveal(StateView::after);
    reveal(StateView::after_input);
    reveal(StateView::query_edited);
}

proof fn lemma_back_over(q: Seq<char>, k: int, blank: bool)
    requires
        0 <= k <= q.len(),
    ensures
        0 <= text::back_over(q, k, blank) <= k,
        forall|i: int|
            text::back_over(q, k, blank) <= i < k ==> text::is_space(#[trigger] q[i]) == blank,
        text::back_over(q, k, blank) > 0 ==> text::is_space(q[text::back_over(q, k, blank) - 1])
            != blank,
    decreases k,
{
    if 0 < k && text::is_space(q[k - 1]) == blank {
        lemma_back_over(q, k - 1, blank);
    }
}

proof fn lemma_forward_over(q: Seq<char>, k: int, blank: bool)
    requires
        0 <= k <= q.len(),
    ensures
        k <= text::forward_over(q, k, blank) <= q.len(),
        forall|i: int|
            k <= i < text::forward_over(q, k, blank) ==> text::is_space(#[trigger] q[i]) == blank,
        text::forward_over(q, k, blank) < q.len() ==> text::is_space(
            q[text::forward_over(q, k, blank)],
        ) != blank,
    decreases q.len() - k,
{
    if k < q.len() && text::is_space(q[k]) == blank {
        lemma_forward_over(q, k + 1, blank);
    }
}

/// A word to the left is over blanks and then over the one word before them.
pub proof fn the_caret_goes_left_by_a_word(s: StateView)
    requires
        in_query(s),
        s.search_query.len() < usize::MAX,
    ensures
        ({
            let q = s.search_query;
            let k = s.caret();
            let left = pressed(s, InputAction::WordLeft).caret();
            &&& 0 <= left <= k
            &&& k > 0 ==> left < k
            &&& left > 0 ==> text::is_space(q[left - 1]) && !text::is_space(q[left])
            &&& forall|i: int, j: int|
                left <= i <= j < k && text::is_space(#[trigger] q[i]) ==> text::is_space(
                    #[trigger] q[j],
                )
        }),
{
    reveal(StateView::after);
    reveal(StateView::after_input);
    reveal(StateView::query_edited);
    let q = s.search_query;
    let k = s.caret();
    let m = text::back_over(q, k, true);
    lemma_back_over(q, k, true);
    lemma_back_over(q, m, false);
    assert(pressed(s, InputAction::WordLeft).caret() == text::back_over(q, m, false));
}

/// A word to the right is over blanks and then over the one word after them.
pub proof fn the_caret_goes_right_by_a_word(s: StateView)
    requires
        in_query(s),
        s.search_query.len() < usize::MAX,
    ensures
        ({
            let q = s.search_query;
            let k = s.caret();
            let right = pressed(s, InputAction::WordRight).caret();
            &&& k <= right <= q.len()
            &&& k < q.len() ==> k < right
            &&& right < q.len() ==> text::is_space(q[right]) && !text::is_space(q[right - 1])
            &&& forall|i: int, j: int|
                k <= i <= j < right && text::is_space(#[trigger] q[j]) ==> text::is_space(
                    #[trigger] q[i],
                )
        }),
{
    reveal(StateView::after);
    reveal(StateView::after_input);
    reveal(StateView::query_edited);
    let q = s.search_query;
    let k = s.caret();
    let m = text::forward_over(q, k, true);
    lemma_forward_over(q, k, true);
    lemma_forward_over(q, m, false);
    assert(pressed(s, InputAction::WordRight).caret() == text::forward_over(q, m, false));
}

/// Deleting a word takes out what the caret would have jumped over, and leaves the caret
/// there.
pub proof fn deleting_a_word_deletes_what_the_caret_jumps_over(s: StateView)
    requires
        in_query(s),
        s.search_query.len() < usize::MAX,
    ensures
        ({
            let t = pressed(s, InputAction::DeleteWordBack);
            let left = pressed(s, InputAction::WordLeft).caret();
            &&& t.caret() == left
            &&& t.search_query == s.search_query.take(left) + s.search_query.skip(s.caret())
        }),
{
    reveal(StateView::after);
    reveal(StateView::after_input);
    reveal(StateView::query_edited);
    reveal(StateView::asking);
    let q = s.search_query;
    lemma_back_over(q, s.caret(), true);
    lemma_back_over(q, text::back_over(q, s.caret(), true), false);
}

/// A character is added to the filter, and Backspace takes it off again. The cursor starts
/// over, and no list changes.
pub proof fn a_filter_is_typed_at_its_end(s: StateView, c: char)
    requires
        in_filter(s),
    ensures
        ({
            let t = pressed(s, InputAction::Char(c));
            &&& t.filter == s.filter.push(c)
            &&& t.selected == 0 && t.scroll_offset == 0
            &&& same_lists(s, t) && in_filter(t) && t.search_query == s.search_query
            &&& pressed(t, InputAction::Backspace).filter == s.filter
            &&& s.filter.len() == 0 ==> pressed(s, InputAction::Backspace).filter == s.filter
        }),
{
    reveal(StateView::after);
    reveal(StateView::after_input);
    reveal(StateView::filter_edited);
    reveal(StateView::filtering);
    assert(s.filter.push(c).drop_last() =~= s.filter);
}

/// What is typed into a prompt is added to its text, and Backspace takes it off again; what
/// the prompt is for stays.
pub proof fn a_prompt_is_typed_at_its_end(
    s: StateView,
    title: Seq<char>,
    value: Seq<char>,
    action: PromptActionView,
    c: char,
)
    requires
        s.modal == Some(ModalView::Prompt { title, value, action }),
    ensures
        ({
            let t = pressed(s, InputAction::Char(c));
            &&& t == (StateView {
                modal: Some(ModalView::Prompt { title, value: value.push(c), action }),
                ..s
            })
            &&& pressed(t, InputAction::Backspace) == s
            &&& pressed(s, InputAction::Cancel) == (StateView { modal: None, ..s })
        }),
{
    reveal(StateView::after);
    reveal(StateView::after_input);
    reveal(StateView::answered);
    assert(value.push(c).drop_last() =~= value);
}

/// In a picker the cursor goes up and down within the choices, and what is to be added
/// stays.
pub proof fn a_picker_is_walked(
    s: StateView,
    targets: Seq<Seq<char>>,
    choices: Seq<(Seq<char>, Seq<char>)>,
    at: usize,
)
    requires
        s.modal == Some(ModalView::PickPlaylist { targets, choices, selected: at }),
        at < choices.len() <= usize::MAX,
    ensures
        ({
            let down = pressed(s, InputAction::Down);
            let up = pressed(s, InputAction::Up);
            &&& down == (StateView {
                modal: Some(
                    ModalView::PickPlaylist {
                        targets,
                        choices,
                        selected: if at + 1 < choices.len() {
                            (at + 1) as usize
                        } else {
                            at
                        },
                    },
                ),
                ..s
            })
            &&& at + 1 < choices.len() ==> pressed(down, InputAction::Up) == s
            &&& at == 0 ==> up == s
            &&& at > 0 ==> pressed(up, InputAction::Down) == s && up != s
        }),
{
    reveal(StateView::after);
    reveal(StateView::after_input);
    reveal(StateView::answered);
}

proof fn lemma_on_row(s: StateView, row: usize)
    ensures
        s.on_row(row).selected == row,
        same_lists(s, s.on_row(row)),
        s.on_row(row).visible() == s.visible(),
        s.on_row(row).visual_anchor == s.visual_anchor,
        s.on_row(row).modal == s.modal,
        s.on_row(row).focus == s.focus,
        s.on_row(row).pane == s.pane,
        s.on_row(row).viewport_rows == s.viewport_rows,
        s.viewport_rows > 0 ==> s.on_row(row).scroll_offset <= row < s.on_row(row).scroll_offset
            + s.viewport_rows,
        s.visual_anchor is None ==> s.on_row(row).marked == s.marked,
{
    reveal(StateView::on_row);
    reveal(StateView::stretched);
}

/// The cursor moves by a row, and back by the other key; at the ends it stays. It is always
/// on a row, and that row on screen.
pub proof fn the_cursor_moves_by_rows(s: StateView)
    requires
        in_list(s),
        on_a_row(s),
    ensures
        ({
            let n = s.visible().len();
            let down = pressed(s, InputAction::Down);
            let up = pressed(s, InputAction::Up);
            &&& down.visible() == s.visible() && up.visible() == s.visible()
            &&& s.selected + 1 < n ==> down.selected == s.selected + 1 && pressed(
                down,
                InputAction::Up,
            ).selected == s.selected
            &&& s.selected + 1 == n ==> down.selected == s.selected
            &&& s.selected > 0 ==> up.selected == s.selected - 1 && pressed(
                up,
                InputAction::Down,
            ).selected == s.selected
            &&& s.selected == 0 ==> up.selected == 0
            &&& same_lists(s, down) && same_lists(s, up)
            &&& s.viewport_rows > 0 ==> down.scroll_offset <= down.selected < down.scroll_offset
                + s.viewport_rows
            &&& s.viewport_rows > 0 ==> up.scroll_offset <= up.selected < up.scroll_offset
                + s.viewport_rows
        }),
{
    reveal(StateView::after);
    reveal(StateView::after_input);
    reveal(StateView::navigated);
    reveal(StateView::list_moved);
    lemma_on_row(s, pressed(s, InputAction::Down).selected);
    lemma_on_row(s, pressed(s, InputAction::Up).selected);
    let n = s.visible().len();
    let below: usize = if s.selected + 1 < n {
        (s.selected + 1) as usize
    } else {
        s.selected
    };
    let above: usize = if s.selected > 0 {
        (s.selected - 1) as usize
    } else {
        0
    };
    lemma_on_row(s, below);
    lemma_on_row(s, above);
    lemma_on_row(s.on_row(below), s.selected);
    lemma_on_row(s.on_row(above), s.selected);
}

/// The first row, the last row, and half a screen either way, as far as the list goes.
pub proof fn the_cursor_moves_by_pages(s: StateView)
    requires
        in_list(s),
        on_a_row(s),
    ensures
        ({
            let n = s.visible().len();
            let down = pressed(s, InputAction::PageDown);
            let up = pressed(s, InputAction::PageUp);
            let half = s.viewport_rows / 2;
            &&& pressed(s, InputAction::Home).selected == 0
            &&& pressed(s, InputAction::End).selected + 1 == n
            &&& s.selected <= down.selected < n
            &&& up.selected <= s.selected
            &&& s.selected + 1 < n ==> down.selected > s.selected
            &&& s.selected > 0 ==> up.selected < s.selected
            &&& (half >= 1 && s.selected + half < n) ==> down.selected == s.selected + half
            &&& (half >= 1 && s.selected + half >= n) ==> down.selected + 1 == n
            &&& (half >= 1 && s.selected >= half) ==> up.selected == s.selected - half
            &&& (half >= 1 && s.selected < half) ==> up.selected == 0
            &&& same_lists(s, down) && same_lists(s, up)
        }),
{
    reveal(StateView::after);
    reveal(StateView::after_input);
    reveal(StateView::navigated);
    reveal(StateView::list_moved);
    reveal(StateView::on_row);
    reveal(StateView::stretched);
}

/// Up and down walk the list while a query or a filter is typed, as they do in the list.
pub proof fn a_list_can_be_walked_while_typing(s: StateView, a: InputAction)
    requires
        in_query(s) || in_filter(s),
        a is Up || a is Down || a is PageUp || a is PageDown || (in_filter(s) && (a is Home || a
            is End)),
    ensures
        pressed(s, a) == s.list_moved(a),
        pressed(s, a).selected == pressed(StateView { focus: Focus::Main, ..s }, a).selected,
        pressed(s, a).search_query == s.search_query && pressed(s, a).filter == s.filter,
        pressed(s, a).focus == s.focus,
{
    reveal(StateView::after);
    reveal(StateView::after_input);
    reveal(StateView::query_edited);
    reveal(StateView::filter_edited);
    reveal(StateView::navigated);
    reveal(StateView::list_moved);
    reveal(StateView::on_row);
    reveal(StateView::stretched);
    let m = StateView { focus: Focus::Main, ..s };
    assert(m.visible() == s.visible());
}

/// The wheel moves the window by one row, as far as there are rows, and the cursor is still
/// in it.
pub proof fn the_wheel_moves_the_window(s: StateView)
    requires
        in_list(s),
        on_a_row(s),
        s.viewport_rows > 0,
        s.scroll_offset <= s.selected < s.scroll_offset + s.viewport_rows,
    ensures
        ({
            let n = s.visible().len();
            let down = pressed(s, InputAction::ScrollDown);
            let up = pressed(s, InputAction::ScrollUp);
            &&& down.scroll_offset <= down.selected < down.scroll_offset + s.viewport_rows
            &&& up.scroll_offset <= up.selected < up.scroll_offset + s.viewport_rows
            &&& down.selected < n && up.selected < n
            &&& s.scroll_offset + s.viewport_rows < n ==> down.scroll_offset == s.scroll_offset + 1
            &&& s.scroll_offset + s.viewport_rows == n ==> down.scroll_offset == s.scroll_offset
            &&& s.scroll_offset > 0 ==> up.scroll_offset == s.scroll_offset - 1
            &&& s.scroll_offset == 0 ==> up == s || s.visual_anchor is Some
            &&& s.scroll_offset < s.selected && s.scroll_offset + s.viewport_rows < n
                ==> down.selected == s.selected
            &&& same_lists(s, down) && same_lists(s, up)
        }),
{
    reveal(StateView::after);
    reveal(StateView::after_input);
    reveal(StateView::navigated);
    reveal(StateView::wheeled);
    reveal(StateView::stretched);
}

/// A row is marked by one key press and no longer marked by the next; no other row is
/// touched.
pub proof fn marking_is_its_own_undoing(s: StateView, ts: Seq<TrackView>, row: int)
    requires
        lists(s, ts),
        on(s, row),
    ensures
        ({
            let t = s.mark_toggled();
            let id = ts[row].video_id;
            &&& t.marked.contains(id) == !s.marked.contains(id)
            &&& forall|other: Seq<char>|
                other != id ==> (#[trigger] t.marked.contains(other) == s.marked.contains(other))
            &&& t.mark_toggled() == s
            &&& StateView { marked: s.marked, ..t } == s
        }),
{
    reveal(StateView::mark_toggled);
    let t = s.mark_toggled();
    assert(t.visible() == s.visible());
    assert(t.mark_toggled().marked =~= s.marked);
}

/// The key for it marks: dispatching it is marking, wherever no overlay is open.
pub proof fn the_mark_key_marks(s: StateView, b: BehaviourConfig)
    requires
        s.modal is None,
    ensures
        s.dispatched(InputAction::ToggleMark, b).state == s.mark_toggled(),
        s.mark_toggled().selected == s.selected && same_lists(s, s.mark_toggled()),
{
    reveal(StateView::mark_toggled);
}

/// A range selection marks every row from where it began to the cursor, whichever is
/// higher up, keeps what was marked before, and marks nothing else.
pub proof fn a_range_marks_all_rows_between(
    s: StateView,
    ts: Seq<TrackView>,
    from: usize,
    id: Seq<char>,
)
    requires
        lists(s, ts),
        s.selected < s.visible().len(),
        from < s.visible().len(),
        s.visual_anchor == Some(from),
    ensures
        ({
            let t = s.stretched();
            let (lo, hi) = if from <= s.selected {
                (from, s.selected)
            } else {
                (s.selected, from)
            };
            t.marked.contains(id) <==> s.marks_before_visual.contains(id) || exists|k: int|
                lo <= k <= hi && ts[#[trigger] s.visible()[k]].video_id == id
        }),
        s.stretched().selected == s.selected && same_lists(s, s.stretched()),
{
    reveal(StateView::stretched);
    let (lo, hi) = if from <= s.selected {
        (from, s.selected)
    } else {
        (s.selected, from)
    };
    let ids = s.ids_between(lo as int, hi + 1);
    assert(s.track_rows() == ts);
    assert(ids.len() == hi + 1 - lo);
    if ids.contains(id) {
        let k = choose|k: int| 0 <= k < ids.len() && ids[k] == id;
        assert(ts[s.visible()[lo + k]].video_id == id);
    }
    if exists|k: int| lo <= k <= hi && ts[#[trigger] s.visible()[k]].video_id == id {
        let k = choose|k: int| lo <= k <= hi && ts[#[trigger] s.visible()[k]].video_id == id;
        assert(ids[k - lo] == id);
    }
    vstd::seq_lib::seq_to_set_is_finite(ids);
}

/// A range begins at the cursor, with that row; the key again ends it and keeps its marks;
/// escape drops them all.
pub proof fn a_range_begins_and_ends(s: StateView, ts: Seq<TrackView>, row: int)
    requires
        in_list(s),
        lists(s, ts),
        on(s, row),
        s.visual_anchor is None,
    ensures
        ({
            let t = pressed(s, InputAction::ToggleVisual);
            let ended = pressed(t, InputAction::ToggleVisual);
            &&& t.visual_anchor == Some(s.selected)
            &&& t.marked.contains(ts[row].video_id)
            &&& s.marked.subset_of(t.marked)
            &&& ended.visual_anchor is None && ended.marked == t.marked
            &&& has_no_marks(pressed(t, InputAction::Cancel))
            &&& same_lists(s, t)
        }),
{
    reveal(StateView::after);
    reveal(StateView::after_input);
    reveal(StateView::navigated);
    reveal(StateView::visual_toggled);
    reveal(StateView::cancelled);
    reveal(StateView::unmarked);
    let begun = StateView {
        visual_anchor: Some(s.selected),
        marks_before_visual: s.marked,
        ..s
    };
    assert(begun.visible() == s.visible());
    let k = s.selected as int;
    assert(ts[begun.visible()[k]].video_id == ts[row].video_id);
    a_range_marks_all_rows_between(begun, ts, s.selected, ts[row].video_id);
    assert forall|id: Seq<char>| s.marked.contains(id) implies begun.stretched().marked.contains(
        id,
    ) by {
        a_range_marks_all_rows_between(begun, ts, s.selected, id);
    }
    reveal(StateView::stretched);
}

/// Escape takes back one thing at a time: a range, else the filter, else the marks.
pub proof fn escape_takes_back_one_thing(s: StateView)
    requires
        in_list(s),
    ensures
        ({
            let t = pressed(s, InputAction::Cancel);
            &&& (s.visual_anchor is Some || s.filter.len() == 0) ==> has_no_marks(t) && t.filter
                == s.filter && t.selected == s.selected
            &&& (s.visual_anchor is None && s.filter.len() > 0) ==> t.filter.len() == 0 && t.marked
                == s.marked && t.selected == 0
            &&& same_lists(s, t) && t.pane == s.pane && t.open_playlist == s.open_playlist
        }),
{
    reveal(StateView::after);
    reveal(StateView::after_input);
    reveal(StateView::navigated);
    reveal(StateView::cancelled);
    reveal(StateView::unmarked);
    reveal(StateView::filtering);
}

/// Escape while something is typed goes back to the list, and keeps what was typed.
pub proof fn escape_ends_the_typing(s: StateView)
    requires
        in_query(s) || in_filter(s),
    ensures
        ({
            let t = pressed(s, InputAction::Cancel);
            &&& t.focus is Main
            &&& t.search_query == s.search_query && t.filter == s.filter
            &&& t.pane == s.pane && t.selected == s.selected && t.marked == s.marked
            &&& same_lists(s, t)
        }),
{
    reveal(StateView::after);
    reveal(StateView::after_input);
    reveal(StateView::query_edited);
    reveal(StateView::filter_edited);
}

/// Going left closes what is open, so that the pane lists what it listed before; where
/// nothing is open it goes to the sidebar.
pub proof fn going_left_closes_what_is_open(s: StateView)
    requires
        in_list(s),
    ensures
        ({
            let t = pressed(s, InputAction::Left);
            let open = (s.pane is Playlists && s.open_playlist is Some) || (s.pane is Albums
                && s.open_album is Some) || (s.pane is Artists && s.open_artist is Some);
            &&& open ==> t.open_playlist is None && t.open_album is None && t.open_artist is None
                && t.selected == 0 && t.focus is Main && has_no_marks(t)
            &&& !open ==> t == (StateView { focus: Focus::Sidebar, ..s })
            &&& t.pane == s.pane && same_lists(s, t)
        }),
{
    reveal(StateView::after);
    reveal(StateView::after_input);
    reveal(StateView::navigated);
    reveal(StateView::backed_out);
    reveal(StateView::closed);
    reveal(StateView::unmarked);
}

/// In the sidebar the cursor walks the eight sources.
#[verifier::spinoff_prover]
pub proof fn the_sidebar_is_walked(s: StateView)
    requires
        s.modal is None,
        s.focus is Sidebar,
        s.sidebar_selected < 8,
    ensures
        ({
            let down = pressed(s, InputAction::Down);
            let up = pressed(s, InputAction::Up);
            &&& s.sidebar_selected < 7 ==> down.sidebar_selected == s.sidebar_selected + 1
                && pressed(down, InputAction::Up) == s
            &&& s.sidebar_selected == 7 ==> down == s
            &&& s.sidebar_selected > 0 ==> up.sidebar_selected == s.sidebar_selected - 1 && pressed(
                up,
                InputAction::Down,
            ) == s
            &&& s.sidebar_selected == 0 ==> up == s
        }),
{
    reveal(StateView::after);
    reveal(StateView::after_input);
    reveal(StateView::navigated);
    reveal(StateView::sidebar_moved);
}

/// From the sidebar going right opens the source the cursor is on.
#[verifier::spinoff_prover]
pub proof fn the_sidebar_opens_what_its_cursor_is_on(s: StateView)
    requires
        s.modal is None,
        s.focus is Sidebar,
        s.sidebar_selected < 8,
    ensures
        ({
            let t = pressed(s, InputAction::Right);
            &&& t == pressed(s, InputAction::GoTo((s.sidebar_selected + 1) as u8))
            &&& !s.guest ==> t.sidebar_selected == s.sidebar_selected && !(t.focus is Sidebar)
        }),
{
    reveal(StateView::after);
    reveal(StateView::after_input);
    reveal(StateView::navigated);
    reveal(StateView::at_source);
    reveal(StateView::unmarked);
}

/// The next source and the one before it are neighbours of the one there is, all the way
/// round.
#[verifier::spinoff_prover]
pub proof fn sources_come_round(s: StateView)
    requires
        in_list(s),
        !s.guest,
        s.sidebar_selected < 8,
    ensures
        ({
            let next = pressed(s, InputAction::NextPane);
            let prev = pressed(s, InputAction::PrevPane);
            &&& next.sidebar_selected == if s.sidebar_selected < 7 {
                s.sidebar_selected + 1
            } else {
                0
            }
            &&& prev.sidebar_selected == if s.sidebar_selected > 0 {
                s.sidebar_selected - 1
            } else {
                7
            }
            &&& next == pressed(s, InputAction::GoTo((next.sidebar_selected + 1) as u8))
            &&& prev == pressed(s, InputAction::GoTo((prev.sidebar_selected + 1) as u8))
        }),
{
    reveal(StateView::after);
    reveal(StateView::after_input);
    reveal(StateView::navigated);
    reveal(StateView::at_source);
    reveal(StateView::unmarked);
}

/// Where the next source has no field to type in, the way back leads back.
#[verifier::spinoff_prover]
pub proof fn the_way_back_leads_back(s: StateView)
    requires
        in_list(s),
        !s.guest,
        s.sidebar_selected < 8,
    ensures
        ({
            let next = pressed(s, InputAction::NextPane);
            let prev = pressed(s, InputAction::PrevPane);
            &&& s.sidebar_selected != 4 ==> pressed(next, InputAction::PrevPane).sidebar_selected
                == s.sidebar_selected
            &&& s.sidebar_selected != 6 ==> pressed(prev, InputAction::NextPane).sidebar_selected
                == s.sidebar_selected
        }),
{
    let next = pressed(s, InputAction::NextPane);
    let prev = pressed(s, InputAction::PrevPane);
    sources_come_round(s);
    if s.sidebar_selected != 4 {
        lemma_source(s, (next.sidebar_selected + 1) as u8);
        sources_come_round(next);
    }
    if s.sidebar_selected != 6 {
        lemma_source(s, (prev.sidebar_selected + 1) as u8);
        sources_come_round(prev);
    }
}

proof fn lemma_source(s: StateView, n: u8)
    requires
        in_list(s),
        !s.guest,
        1 <= n <= 8,
        n != 6,
    ensures
        in_list(pressed(s, InputAction::GoTo(n))),
        !pressed(s, InputAction::GoTo(n)).guest,
{
    reveal(StateView::after);
    reveal(StateView::after_input);
    reveal(StateView::navigated);
    reveal(StateView::at_source);
    reveal(StateView::unmarked);
}

/// The search, the filter and the queue are opened from any list.
pub proof fn search_filter_and_queue_are_opened(s: StateView)
    requires
        in_list(s),
    ensures
        ({
            let search = pressed(s, InputAction::OpenSearch);
            let filter = pressed(s, InputAction::OpenFilter);
            let queue = pressed(s, InputAction::OpenQueue);
            &&& search.focus is SearchInput && search.search_row_visible()
            &&& s.pane is Artists ==> search.pane is Artists && search.artist_search_active
            &&& !(s.pane is Artists) ==> search.pane is Search
            &&& filter == (StateView { focus: Focus::FilterInput, ..s })
            &&& queue.pane is Queue && lists(queue, s.queue)
            &&& same_lists(s, search) && same_lists(s, queue)
        }),
{
    reveal(StateView::after);
    reveal(StateView::after_input);
    reveal(StateView::navigated);
    reveal(StateView::search_opened);
    reveal(StateView::at_source);
    reveal(StateView::unmarked);
}

/// The help lies over everything until the same key, the quit key or escape takes it away,
/// and then all is as it was.
pub proof fn help_comes_and_goes(s: StateView, b: BehaviourConfig)
    requires
        in_list(s),
    ensures
        ({
            let t = s.dispatched(InputAction::OpenHelp, b).state;
            &&& t == (StateView { modal: Some(ModalView::Help), ..s })
            &&& t.dispatched(InputAction::OpenHelp, b).state == s
            &&& t.dispatched(InputAction::Quit, b).state == s
            &&& t.dispatched(InputAction::Cancel, b).state == s
            &&& t.dispatched(InputAction::Down, b).state == t
            &&& t.dispatched(InputAction::TogglePause, b).sent.len() == 0
        }),
{
    reveal(StateView::after);
    reveal(StateView::after_input);
    reveal(StateView::navigated);
    reveal(StateView::answered);
    reveal(StateView::in_modal);
    reveal(StateView::transported);
}

proof fn lemma_first_row(ids: Seq<Seq<char>>, id: Seq<char>)
    ensures
        match reducer::first_row_of(ids, id) {
            Some(i) => 0 <= i < ids.len() && ids[i] == id && forall|j: int|
                0 <= j < i ==> #[trigger] ids[j] != id,
            None => forall|j: int| 0 <= j < ids.len() ==> #[trigger] ids[j] != id,
        },
    decreases ids.len(),
{
    if ids.len() > 0 {
        let rest = ids.drop_last();
        lemma_first_row(rest, id);
        assert forall|j: int| 0 <= j < rest.len() implies #[trigger] ids[j] == rest[j] by {}
    }
}

/// The cursor goes to the first row of the track that plays, where it is on screen; where
/// it is not, or nothing plays, nothing changes.
pub proof fn the_cursor_goes_to_what_plays(s: StateView, ts: Seq<TrackView>)
    requires
        in_list(s),
        lists(s, ts),
        s.visible().len() <= usize::MAX,
    ensures
        ({
            let t = pressed(s, InputAction::FocusCurrent);
            let here = |k: int| 0 <= k < s.visible().len() && s.now_playing is Some
                && ts[s.visible()[k]].video_id == s.now_playing->0.video_id;
            &&& (exists|k: int| #[trigger] here(k)) ==> here(t.selected as int) && (forall|k: int| #[trigger]
                here(k) ==> t.selected <= k)
            &&& !(exists|k: int| #[trigger] here(k)) ==> t == s
            &&& same_lists(s, t)
        }),
{
    reveal(StateView::after);
    reveal(StateView::after_input);
    reveal(StateView::navigated);
    reveal(StateView::on_playing);
    reveal(StateView::centred);
    reveal(StateView::on_row);
    reveal(StateView::stretched);
    let here = |k: int| 0 <= k < s.visible().len() && s.now_playing is Some
        && ts[s.visible()[k]].video_id == s.now_playing->0.video_id;
    let ids = s.ids_between(0, s.visible().len() as int);
    assert(s.track_rows() == ts);
    if s.now_playing is Some {
        let id = s.now_playing->0.video_id;
        lemma_first_row(ids, id);
        assert forall|k: int| 0 <= k < s.visible().len() implies (#[trigger] here(k) <==> ids[k] == id) by {}
        match reducer::first_row_of(ids, id) {
            Some(i) => {
                assert(here(i));
            },
            None => {},
        }
    }
}

/// Centring puts the cursor's row half a window below the top, as far as there are rows
/// above it, and leaves the cursor where it is.
pub proof fn centring_moves_only_the_window(s: StateView)
    requires
        in_list(s),
    ensures
        ({
            let t = pressed(s, InputAction::CenterOnCursor);
            let half = s.viewport_rows / 2;
            &&& t == (StateView { scroll_offset: t.scroll_offset, ..s })
            &&& s.selected >= half ==> t.scroll_offset + half == s.selected
            &&& s.selected < half ==> t.scroll_offset == 0
        }),
{
    reveal(StateView::after);
    reveal(StateView::after_input);
    reveal(StateView::navigated);
    reveal(StateView::centred);
}

/// What the player reports is what shows, and nothing else changes.
pub proof fn what_the_player_reports_shows(s: StateView, ev: PlayerEvent)
    ensures
        ({
            let t = s.after(AppEvent::Player(ev));
            match ev {
                PlayerEvent::StateChanged(p) => t == (StateView { playback: p, ..s }),
                PlayerEvent::TrackChanged(track) => t.now_playing == track.deep_view() && t.position
                    == 0 && (track is None ==> t.duration == 0) && (track is Some ==> t.duration
                    == track->0.deep_view().duration) && same_lists(s, t) && t.playback
                    == s.playback && t.selected == s.selected,
                PlayerEvent::TrackEnded(_) => t == s,
                PlayerEvent::Progress { position, duration } => t.position == position.deep_view()
                    && t.duration == duration.deep_view() && t == (StateView {
                    position: t.position,
                    duration: t.duration,
                    ..s
                }),
                PlayerEvent::QueueChanged { tracks, current } => t.queue == tracks.deep_view()
                    && t.queue_current == current && same_lists(
                    StateView { queue: s.queue, queue_current: s.queue_current, ..t },
                    s,
                ) && (!(s.pane is Queue) ==> t.selected == s.selected),
                PlayerEvent::VolumeChanged(v) => t == (StateView { volume: v, ..s }),
                PlayerEvent::ShuffleChanged(shuffled) => t == (StateView { shuffle: shuffled, ..s }),
                PlayerEvent::RepeatChanged(m) => t == (StateView { repeat: m, ..s }),
                PlayerEvent::Error(m) => says(s, t, ToastKind::Error) && t.toasts.last().text == m@
                    && same_lists(s, t),
            }
        }),
{
    reveal(StateView::after);
    reveal(StateView::after_player);
    reveal(StateView::playing);
    reveal(StateView::queue_reported);
    reveal(StateView::clamped);
    reveal(StateView::told);
    reveal(StateView::toasted);
    if ev is Error {
        assert(s.after(AppEvent::Player(ev)).toasts.drop_last() =~= s.toasts);
    }
}

/// In the queue's pane the cursor stays where it was, or on the last row where the queue
/// has become too short.
pub proof fn a_shorter_queue_keeps_the_cursor_in_it(s: StateView, ev: PlayerEvent)
    requires
        s.pane is Queue,
        ev is QueueChanged,
    ensures
        ({
            let t = s.after(AppEvent::Player(ev));
            &&& s.selected < t.visible().len() ==> t.selected == s.selected
            &&& s.selected >= t.visible().len() > 0 ==> t.selected + 1 == t.visible().len()
            &&& t.visible().len() == 0 ==> t.selected == 0
        }),
{
    reveal(StateView::after);
    reveal(StateView::after_player);
    reveal(StateView::queue_reported);
    reveal(StateView::clamped);
    match ev {
        PlayerEvent::QueueChanged { tracks, current } => {
            let q = StateView { queue: tracks.deep_view(), queue_current: current, ..s };
            assert(q.clamped().visible() == q.visible());
        },
        _ => {},
    }
}

proof fn lemma_fresh(toasts: Seq<ToastView>, now: u64, t: ToastView)
    ensures
        reducer::fresh_toasts(toasts, now).contains(t) <==> toasts.contains(t) && now - t.since_ms
            < TOAST_MS,
        (forall|i: int| 0 <= i < toasts.len() ==> now - (#[trigger] toasts[i]).since_ms < TOAST_MS)
            ==> reducer::fresh_toasts(toasts, now) == toasts,
    decreases toasts.len(),
{
    if toasts.len() > 0 {
        let rest = toasts.drop_last();
        lemma_fresh(rest, now, t);
        let left = reducer::fresh_toasts(rest, now);
        let got = reducer::fresh_toasts(toasts, now);
        if rest.contains(t) {
            let k = choose|k: int| 0 <= k < rest.len() && rest[k] == t;
            assert(toasts[k] == t);
        }
        if left.contains(t) {
            let k = choose|k: int| 0 <= k < left.len() && left[k] == t;
            assert(got[k] == t);
        }
        if toasts.contains(t) && !rest.contains(t) {
            let k = choose|k: int| 0 <= k < toasts.len() && toasts[k] == t;
            if k < rest.len() {
                assert(rest[k] == t);
            }
            if now - t.since_ms < TOAST_MS {
                assert(got[got.len() - 1] == t);
            }
        }
        if got.contains(t) && !left.contains(t) {
            let k = choose|k: int| 0 <= k < got.len() && got[k] == t;
            if k < left.len() {
                assert(left[k] == t);
            }
            assert(toasts[toasts.len() - 1] == t);
        }
        if forall|i: int| 0 <= i < toasts.len() ==> now - (#[trigger] toasts[i]).since_ms < TOAST_MS {
            assert forall|i: int| 0 <= i < rest.len() implies now - (#[trigger] rest[i]).since_ms
                < TOAST_MS by {
                assert(toasts[i] == rest[i]);
            }
            assert(toasts[toasts.len() - 1] == toasts.last());
            assert(got =~= toasts);
        }
    } else {
        assert(reducer::fresh_toasts(toasts, now) =~= toasts);
    }
}

/// A message shows until it is old enough, and then no longer; nothing else changes with
/// the clock.
pub proof fn a_message_fades(s: StateView, t: ToastView)
    ensures
        ({
            let after = s.after(AppEvent::Tick);
            &&& after.toasts.contains(t) <==> s.toasts.contains(t) && s.elapsed_ms - t.since_ms
                < TOAST_MS
            &&& after == (StateView { toasts: after.toasts, ..s })
            &&& (forall|i: int|
                0 <= i < s.toasts.len() ==> s.elapsed_ms - (#[trigger] s.toasts[i]).since_ms
                    < TOAST_MS) ==> after == s
        }),
{
    reveal(StateView::after);
    lemma_fresh(s.toasts, s.elapsed_ms, t);
}

proof fn lemma_without_track(ts: Seq<TrackView>, id: Seq<char>, x: TrackView)
    ensures
        reducer::without_track(ts, id).contains(x) <==> ts.contains(x) && x.video_id != id,
        forall|i: int|
            0 <= i < reducer::without_track(ts, id).len() ==> (#[trigger] reducer::without_track(
                ts,
                id,
            )[i]).video_id != id,
    decreases ts.len(),
{
    if ts.len() > 0 {
        let rest = ts.drop_last();
        lemma_without_track(rest, id, x);
        let left = reducer::without_track(rest, id);
        let got = reducer::without_track(ts, id);
        if left.contains(x) {
            let k = choose|k: int| 0 <= k < left.len() && left[k] == x;
            assert(got[k] == x);
            let j = choose|j: int| 0 <= j < rest.len() && rest[j] == x;
            assert(ts[j] == x);
        }
        if ts.contains(x) && x.video_id != id && !left.contains(x) {
            let k = choose|k: int| 0 <= k < ts.len() && ts[k] == x;
            if k < rest.len() {
                assert(rest[k] == x);
            }
            assert(got[got.len() - 1] == x);
        }
        if got.contains(x) && !left.contains(x) {
            let k = choose|k: int| 0 <= k < got.len() && got[k] == x;
            if k < left.len() {
                assert(left[k] == x);
            }
            assert(ts[ts.len() - 1] == x);
        }
    }
}

/// A track that was downloaded is listed last among the downloads, once, and the user is
/// told; the other downloads stay.
pub proof fn a_finished_download_is_listed(s: StateView, ev: AppEvent, x: TrackView)
    requires
        ev is DownloadedTrackSaved,
    ensures
        ({
            let after = s.after(ev);
            let t = ev->DownloadedTrackSaved_0.deep_view();
            let n = after.downloaded_tracks.len();
            &&& n > 0 && after.downloaded_tracks.last() == t
            &&& forall|i: int|
                0 <= i < n - 1 ==> (#[trigger] after.downloaded_tracks[i]).video_id != t.video_id
            &&& x.video_id != t.video_id ==> (after.downloaded_tracks.contains(x)
                <==> s.downloaded_tracks.contains(x))
            &&& says(s, after, ToastKind::Success)
            &&& same_lists(StateView { downloaded_tracks: s.downloaded_tracks, ..after }, s)
        }),
{
    reveal(StateView::after);
    reveal(StateView::after_load);
    reveal(StateView::with_download);
    reveal(StateView::told);
    reveal(StateView::toasted);
    let t = ev->DownloadedTrackSaved_0.deep_view();
    let after = s.after(ev);
    let left = reducer::without_track(s.downloaded_tracks, t.video_id);
    lemma_without_track(s.downloaded_tracks, t.video_id, x);
    assert(after.downloaded_tracks == left.push(t));
    assert(after.toasts.drop_last() =~= s.toasts);
    if left.contains(x) {
        let k = choose|k: int| 0 <= k < left.len() && left[k] == x;
        assert(left.push(t)[k] == x);
    }
    if x.video_id != t.video_id && left.push(t).contains(x) {
        let k = choose|k: int| 0 <= k < left.push(t).len() && left.push(t)[k] == x;
        assert(left[k] == x);
    }
}

/// A code to sign in with is shown until the sign-in is complete; then there is an account.
pub proof fn signing_in(s: StateView, ev: AppEvent)
    requires
        ev is LoginNeeded,
    ensures
        ({
            let shown = s.after(ev);
            let done = shown.after(AppEvent::LoginComplete);
            &&& shown.modal matches Some(ModalView::Login { user_code, url }) && user_code
                == ev->LoginNeeded_user_code@ && url == ev->LoginNeeded_url@
            &&& done == (StateView { modal: None, guest: false, ..s })
            &&& !(s.modal matches Some(ModalView::Login { .. })) ==> s.after(
                AppEvent::LoginComplete,
            ) == (StateView { guest: false, ..s })
        }),
{
    reveal(StateView::after);
}

/// A list that has become shorter keeps the cursor and the window within it, and both where
/// they are while they can be.
pub proof fn a_shorter_list_keeps_the_cursor_in_it(s: StateView)
    ensures
        ({
            let t = s.clamped();
            let n = s.visible().len();
            &&& s.selected < n ==> t.selected == s.selected
            &&& s.selected >= n > 0 ==> t.selected + 1 == n
            &&& n == 0 ==> t.selected == 0
            &&& t.scroll_offset <= t.selected
            &&& s.scroll_offset <= t.selected ==> t.scroll_offset == s.scroll_offset
            &&& t == (StateView { selected: t.selected, scroll_offset: t.scroll_offset, ..s })
        }),
{
    reveal(StateView::clamped);
}

/// Escape from a search among the artists ends it; from any other query it does not.
pub proof fn escape_ends_a_search_among_artists(s: StateView)
    requires
        in_query(s),
    ensures
        s.pane is Artists ==> !pressed(s, InputAction::Cancel).artist_search_active,
        !(s.pane is Artists) ==> pressed(s, InputAction::Cancel).artist_search_active
            == s.artist_search_active,
{
    reveal(StateView::after);
    reveal(StateView::after_input);
    reveal(StateView::query_edited);
}

/// Keys are taken for text in a prompt, a question, a query and a filter, and for commands
/// everywhere else.
pub proof fn where_keys_are_text(s: StateView)
    ensures
        s.modal is None ==> s.input_focus() == s.focus,
        s.modal matches Some(ModalView::Prompt { .. }) ==> s.input_focus() is SearchInput,
        s.modal matches Some(ModalView::Confirm { .. }) ==> s.input_focus() is SearchInput,
        s.modal matches Some(ModalView::PickPlaylist { .. }) ==> s.input_focus() is Main,
        s.modal == Some(ModalView::Help) ==> s.input_focus() is Main,
{
}

/// A filter that is being typed, or that is set, has a row of its own, and so has a query;
/// the columns have a header where there are tracks under them.
pub proof fn what_is_typed_is_seen(s: StateView)
    ensures
        s.focus is FilterInput ==> s.filter_row_visible(),
        s.filter.len() > 0 ==> s.filter_row_visible(),
        !(s.focus is FilterInput) && s.filter.len() == 0 ==> !s.filter_row_visible(),
        s.pane is Search ==> s.search_row_visible(),
        s.pane is Artists && s.artist_search_active ==> s.search_row_visible(),
        s.search_row_visible() ==> s.pane is Search || s.pane is Artists,
        s.column_header_visible() ==> s.track_list() is Some && s.visible().len() > 0,
        s.track_list() is Some && s.visible().len() > 0 ==> s.column_header_visible(),
{
}

} // verus!
