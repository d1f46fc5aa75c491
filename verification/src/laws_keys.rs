//! Which intent a key press is, whatever is bound and wherever the focus is.

use crate::app::Focus;
use crate::event::InputAction;
use crate::keymap::{self, KeyCode, KeyEvent, Pending, DEFAULT_KEYS};
use vstd::prelude::*;

verus! {

/// A key on its own.
pub open spec fn plain(code: KeyCode) -> KeyEvent {
    KeyEvent { code, ctrl: false }
}

/// A key held together with the control key.
pub open spec fn held(code: KeyCode) -> KeyEvent {
    KeyEvent { code, ctrl: true }
}

/// A key means this intent, whatever chord was begun before it, and begins none.
pub open spec fn means(
    m: Map<char, InputAction>,
    key: KeyEvent,
    focus: Focus,
    a: Option<InputAction>,
) -> bool {
    keymap::resolved(m, key, focus) == a && forall|pending: Pending| #[trigger]
        keymap::resolved_chord(m, key, focus, pending) == (a, Pending::Nothing)
}

/// Enter confirms and escape cancels, wherever the focus is and whatever is bound.
pub proof fn enter_confirms_and_escape_cancels(m: Map<char, InputAction>, focus: Focus)
    ensures
        means(m, plain(KeyCode::Enter), focus, Some(InputAction::Confirm)),
        means(m, plain(KeyCode::Esc), focus, Some(InputAction::Cancel)),
{
}

/// Up and down move in any focus, so that a list can be walked while a query is typed.
pub proof fn up_and_down_always_move(m: Map<char, InputAction>, focus: Focus)
    ensures
        means(m, plain(KeyCode::Up), focus, Some(InputAction::Up)),
        means(m, plain(KeyCode::Down), focus, Some(InputAction::Down)),
        means(m, held(KeyCode::Char('d')), focus, Some(InputAction::PageDown)),
        means(m, held(KeyCode::Char('u')), focus, Some(InputAction::PageUp)),
{
}

/// In a list the keys that have a name do what they are called.
pub proof fn keys_with_a_name_do_what_they_are_called(m: Map<char, InputAction>, focus: Focus)
    requires
        focus is Main || focus is Sidebar,
    ensures
        means(m, plain(KeyCode::Left), focus, Some(InputAction::Left)),
        means(m, plain(KeyCode::Right), focus, Some(InputAction::Right)),
        means(m, plain(KeyCode::Home), focus, Some(InputAction::Home)),
        means(m, plain(KeyCode::End), focus, Some(InputAction::End)),
        means(m, plain(KeyCode::PageUp), focus, Some(InputAction::PageUp)),
        means(m, plain(KeyCode::PageDown), focus, Some(InputAction::PageDown)),
        means(m, plain(KeyCode::Tab), focus, Some(InputAction::NextPane)),
        means(m, plain(KeyCode::BackTab), focus, Some(InputAction::PrevPane)),
        means(m, plain(KeyCode::Backspace), focus, None),
{
}

/// In the query the same keys move the caret; a filter has no caret to move.
pub proof fn only_a_query_has_a_caret(m: Map<char, InputAction>)
    ensures
        means(m, plain(KeyCode::Left), Focus::SearchInput, Some(InputAction::CharLeft)),
        means(m, plain(KeyCode::Right), Focus::SearchInput, Some(InputAction::CharRight)),
        means(m, plain(KeyCode::Home), Focus::SearchInput, Some(InputAction::LineStart)),
        means(m, plain(KeyCode::End), Focus::SearchInput, Some(InputAction::LineEnd)),
        means(m, plain(KeyCode::Left), Focus::FilterInput, None),
        means(m, plain(KeyCode::Right), Focus::FilterInput, None),
        means(m, plain(KeyCode::Home), Focus::FilterInput, None),
        means(m, plain(KeyCode::End), Focus::FilterInput, None),
{
}

/// While text is typed, Backspace deletes, and the keys held with control edit the line.
pub proof fn a_line_is_edited_as_in_a_shell(m: Map<char, InputAction>, focus: Focus)
    requires
        focus is SearchInput || focus is FilterInput,
    ensures
        means(m, plain(KeyCode::Backspace), focus, Some(InputAction::Backspace)),
        means(m, held(KeyCode::Char('w')), focus, Some(InputAction::DeleteWordBack)),
        means(m, held(KeyCode::Char('a')), focus, Some(InputAction::LineStart)),
        means(m, held(KeyCode::Char('e')), focus, Some(InputAction::LineEnd)),
        means(m, held(KeyCode::Left), focus, Some(InputAction::WordLeft)),
        means(m, held(KeyCode::Right), focus, Some(InputAction::WordRight)),
{
}

/// A character held with control is never typed, nor is what is bound to it done.
pub proof fn a_held_key_is_no_letter(m: Map<char, InputAction>, c: char, focus: Focus)
    ensures
        ({
            let a = keymap::resolved(m, held(KeyCode::Char(c)), focus);
            &&& a == keymap::resolved(Map::empty(), held(KeyCode::Char(c)), focus)
            &&& !(a matches Some(InputAction::Char(_)))
            &&& (a is Some && (focus is Main || focus is Sidebar)) ==> c == 'c' || c == 'd' || c
                == 'u'
        }),
{
}

/// The digits open the sources by their numbers, whatever is bound.
pub proof fn a_digit_opens_the_source_of_its_number(
    m: Map<char, InputAction>,
    c: char,
    n: u8,
    focus: Focus,
)
    requires
        focus is Main || focus is Sidebar,
        1 <= n <= 8,
        c as int == '0' as int + n,
    ensures
        means(m, plain(KeyCode::Char(c)), focus, Some(InputAction::GoTo(n))),
{
}

/// In a list a bound character does what it is bound to, and any other does nothing.
pub proof fn a_bound_key_does_what_it_is_bound_to(
    m: Map<char, InputAction>,
    c: char,
    focus: Focus,
)
    requires
        focus is Main || focus is Sidebar,
        !('1' <= c <= '8'),
        c != 'z',
    ensures
        m.contains_key(c) ==> means(m, plain(KeyCode::Char(c)), focus, Some(m[c])),
        !m.contains_key(c) ==> means(m, plain(KeyCode::Char(c)), focus, None),
{
}

/// In a list two `z` in a row put the cursor's row in the middle, and one alone waits.
pub proof fn two_z_centre(m: Map<char, InputAction>, focus: Focus)
    requires
        focus is Main || focus is Sidebar,
    ensures
        ({
            let z = plain(KeyCode::Char('z'));
            let first = keymap::resolved_chord(m, z, focus, Pending::Nothing);
            &&& first.0 is None
            &&& keymap::resolved_chord(m, z, focus, first.1) == (
                Some(InputAction::CenterOnCursor),
                Pending::Nothing,
            )
        }),
{
}

/// A key that a table names does, from then on, what the table says; every other key
/// that did it does nothing, and the rest do what they did.
pub proof fn what_a_table_names_is_done(
    m: Map<char, InputAction>,
    table: Seq<(Seq<char>, Seq<char>)>,
    name: Seq<char>,
    key: Seq<char>,
    c: char,
    focus: Focus,
)
    requires
        focus is Main || focus is Sidebar,
        keymap::action_named(name) is Some,
        key.len() > 0,
        !('1' <= c <= '8'),
    ensures
        ({
            let a = keymap::action_named(name);
            let before = keymap::overridden(m, table);
            let after = keymap::overridden(m, table.push((name, key)));
            let press = plain(KeyCode::Char(c));
            if c == key[0] {
                keymap::resolved(after, press, focus) == a
            } else if keymap::resolved(before, press, focus) == a {
                keymap::resolved(after, press, focus) is None
            } else {
                keymap::resolved(after, press, focus) == keymap::resolved(before, press, focus)
            }
        }),
{
    assert(table.push((name, key)).drop_last() =~= table);
}

/// What a table says of an action that does not exist, or without a key, changes nothing.
pub proof fn what_a_table_leaves_open_stays(
    m: Map<char, InputAction>,
    table: Seq<(Seq<char>, Seq<char>)>,
    name: Seq<char>,
    key: Seq<char>,
)
    requires
        keymap::action_named(name) is None || key.len() == 0,
    ensures
        keymap::overridden(m, table.push((name, key))) == keymap::overridden(m, table),
        keymap::overridden(m, Seq::empty()) == m,
{
    assert(table.push((name, key)).drop_last() =~= table);
}

proof fn lemma_bound_at(keys: Seq<(char, InputAction)>, i: int)
    requires
        0 <= i < keys.len(),
        forall|j: int| i < j < keys.len() ==> (#[trigger] keys[j]).0 != keys[i].0,
    ensures
        keymap::bound(keys).contains_key(keys[i].0),
        keymap::bound(keys)[keys[i].0] == keys[i].1,
    decreases keys.len(),
{
    if i < keys.len() - 1 {
        assert(keys[keys.len() - 1].0 != keys[i].0);
        let rest = keys.drop_last();
        assert forall|j: int| i < j < rest.len() implies (#[trigger] rest[j]).0 != rest[i].0 by {
            assert(rest[j] == keys[j]);
        }
        lemma_bound_at(rest, i);
    }
}

proof fn lemma_built_in(c: char, a: InputAction, i: int)
    requires
        0 <= i < 38,
        DEFAULT_KEYS@[i] == (c, a),
        forall|j: int| i < j < 38 ==> (#[trigger] DEFAULT_KEYS@[j]).0 != c,
    ensures
        keymap::built_in(true).contains_key(c),
        keymap::built_in(true)[c] == a,
{
    lemma_bound_at(DEFAULT_KEYS@, i);
}

/// Where letters move, they move as the arrows and the keys beside them do; where they do
/// not, those four do nothing.
pub proof fn letters_move_as_arrows_do(m: Map<char, InputAction>, focus: Focus)
    requires
        focus is Main || focus is Sidebar,
    ensures
        ({
            let vim = keymap::built_in(true);
            let bare = keymap::built_in(false);
            &&& means(vim, plain(KeyCode::Char('j')), focus, keymap::resolved(m, plain(KeyCode::Down), focus))
            &&& means(vim, plain(KeyCode::Char('k')), focus, keymap::resolved(m, plain(KeyCode::Up), focus))
            &&& means(vim, plain(KeyCode::Char('h')), focus, keymap::resolved(m, plain(KeyCode::Left), focus))
            &&& means(vim, plain(KeyCode::Char('l')), focus, keymap::resolved(m, plain(KeyCode::Right), focus))
            &&& means(vim, plain(KeyCode::Char('g')), focus, keymap::resolved(m, plain(KeyCode::Home), focus))
            &&& means(vim, plain(KeyCode::Char('G')), focus, keymap::resolved(m, plain(KeyCode::End), focus))
            &&& means(bare, plain(KeyCode::Char('j')), focus, None)
            &&& means(bare, plain(KeyCode::Char('k')), focus, None)
            &&& means(bare, plain(KeyCode::Char('h')), focus, None)
            &&& means(bare, plain(KeyCode::Char('l')), focus, None)
        }),
{
    lemma_built_in('j', InputAction::Down, 0);
    lemma_built_in('k', InputAction::Up, 1);
    lemma_built_in('h', InputAction::Left, 2);
    lemma_built_in('l', InputAction::Right, 3);
    lemma_built_in('g', InputAction::Home, 4);
    lemma_built_in('G', InputAction::End, 5);
}

/// Letters that move or not, every other key does the same.
pub proof fn only_four_keys_are_for_moving_by_letters(c: char, focus: Focus)
    requires
        c != 'h',
        c != 'j',
        c != 'k',
        c != 'l',
    ensures
        keymap::resolved(keymap::built_in(true), plain(KeyCode::Char(c)), focus) == keymap::resolved(
            keymap::built_in(false),
            plain(KeyCode::Char(c)),
            focus,
        ),
{
}

/// The built-in keys for what plays. They are the same with and without letters that move.
pub proof fn the_keys_for_what_plays(vim_keys: bool, focus: Focus)
    requires
        focus is Main || focus is Sidebar,
    ensures
        ({
            let m = keymap::built_in(vim_keys);
            &&& means(m, plain(KeyCode::Char(' ')), focus, Some(InputAction::TogglePause))
            &&& means(m, plain(KeyCode::Char('n')), focus, Some(InputAction::NextTrack))
            &&& means(m, plain(KeyCode::Char('p')), focus, Some(InputAction::PrevTrack))
            &&& means(m, plain(KeyCode::Char('f')), focus, Some(InputAction::SeekForward))
            &&& means(m, plain(KeyCode::Char('b')), focus, Some(InputAction::SeekBack))
            &&& means(m, plain(KeyCode::Char('+')), focus, Some(InputAction::VolumeUp))
            &&& means(m, plain(KeyCode::Char('-')), focus, Some(InputAction::VolumeDown))
            &&& means(m, plain(KeyCode::Char('m')), focus, Some(InputAction::ToggleMute))
            &&& means(m, plain(KeyCode::Char('s')), focus, Some(InputAction::ToggleShuffle))
            &&& means(m, plain(KeyCode::Char('r')), focus, Some(InputAction::CycleRepeat))
        }),
{
    lemma_built_in(' ', InputAction::TogglePause, 11);
    lemma_built_in('n', InputAction::NextTrack, 12);
    lemma_built_in('p', InputAction::PrevTrack, 13);
    lemma_built_in('f', InputAction::SeekForward, 14);
    lemma_built_in('b', InputAction::SeekBack, 15);
    lemma_built_in('+', InputAction::VolumeUp, 16);
    lemma_built_in('-', InputAction::VolumeDown, 17);
    lemma_built_in('m', InputAction::ToggleMute, 18);
    lemma_built_in('s', InputAction::ToggleShuffle, 19);
    lemma_built_in('r', InputAction::CycleRepeat, 20);
}

/// The built-in keys for where one is. They are the same with and without letters that move.
pub proof fn the_keys_for_where_one_is(vim_keys: bool, focus: Focus)
    requires
        focus is Main || focus is Sidebar,
    ensures
        ({
            let m = keymap::built_in(vim_keys);
            &&& means(m, plain(KeyCode::Char('?')), focus, Some(InputAction::OpenHelp))
            &&& means(m, plain(KeyCode::Char('/')), focus, Some(InputAction::OpenFilter))
            &&& means(m, plain(KeyCode::Char('S')), focus, Some(InputAction::OpenSearch))
            &&& means(m, plain(KeyCode::Char('u')), focus, Some(InputAction::OpenQueue))
            &&& means(m, plain(KeyCode::Char('c')), focus, Some(InputAction::FocusCurrent))
            &&& means(m, plain(KeyCode::Char('t')), focus, Some(InputAction::CycleTheme))
            &&& means(m, plain(KeyCode::Char(',')), focus, Some(InputAction::EditConfig))
            &&& means(m, plain(KeyCode::Char('L')), focus, Some(InputAction::Refresh))
            &&& means(m, plain(KeyCode::Char('q')), focus, Some(InputAction::Quit))
        }),
{
    lemma_built_in('?', InputAction::OpenHelp, 7);
    lemma_built_in('/', InputAction::OpenFilter, 8);
    lemma_built_in('S', InputAction::OpenSearch, 9);
    lemma_built_in('u', InputAction::OpenQueue, 10);
    lemma_built_in('c', InputAction::FocusCurrent, 21);
    lemma_built_in('t', InputAction::CycleTheme, 30);
    lemma_built_in(',', InputAction::EditConfig, 31);
    lemma_built_in('L', InputAction::Refresh, 36);
    lemma_built_in('q', InputAction::Quit, 6);
}

/// The built-in keys for what is chosen and for the lists it goes to. They are the same with and without letters that move.
pub proof fn the_keys_for_what_is_chosen(vim_keys: bool, focus: Focus)
    requires
        focus is Main || focus is Sidebar,
    ensures
        ({
            let m = keymap::built_in(vim_keys);
            &&& means(m, plain(KeyCode::Char('a')), focus, Some(InputAction::AddToQueue))
            &&& means(m, plain(KeyCode::Char('e')), focus, Some(InputAction::PlayNext))
            &&& means(m, plain(KeyCode::Char('A')), focus, Some(InputAction::AddToPlaylist))
            &&& means(m, plain(KeyCode::Char('N')), focus, Some(InputAction::CreatePlaylist))
            &&& means(m, plain(KeyCode::Char('R')), focus, Some(InputAction::RenamePlaylist))
            &&& means(m, plain(KeyCode::Char('D')), focus, Some(InputAction::DeletePlaylist))
            &&& means(m, plain(KeyCode::Char('x')), focus, Some(InputAction::RemoveFromPlaylist))
            &&& means(m, plain(KeyCode::Char('v')), focus, Some(InputAction::ToggleMark))
            &&& means(m, plain(KeyCode::Char('V')), focus, Some(InputAction::ToggleVisual))
            &&& means(m, plain(KeyCode::Char('J')), focus, Some(InputAction::MoveEntryDown))
            &&& means(m, plain(KeyCode::Char('K')), focus, Some(InputAction::MoveEntryUp))
            &&& means(m, plain(KeyCode::Char('C')), focus, Some(InputAction::ClearQueue))
            &&& means(m, plain(KeyCode::Char('d')), focus, Some(InputAction::Download))
        }),
{
    lemma_built_in('a', InputAction::AddToQueue, 22);
    lemma_built_in('e', InputAction::PlayNext, 32);
    lemma_built_in('A', InputAction::AddToPlaylist, 23);
    lemma_built_in('N', InputAction::CreatePlaylist, 24);
    lemma_built_in('R', InputAction::RenamePlaylist, 25);
    lemma_built_in('D', InputAction::DeletePlaylist, 26);
    lemma_built_in('x', InputAction::RemoveFromPlaylist, 27);
    lemma_built_in('v', InputAction::ToggleMark, 28);
    lemma_built_in('V', InputAction::ToggleVisual, 29);
    lemma_built_in('J', InputAction::MoveEntryDown, 33);
    lemma_built_in('K', InputAction::MoveEntryUp, 34);
    lemma_built_in('C', InputAction::ClearQueue, 35);
    lemma_built_in('d', InputAction::Download, 37);
}

} // verus!
