//! Key presses into intents. What a key means depends on where the focus is:
//! while typing, letters are letters, not commands.

use crate::app::Focus;
use crate::outline::{self, read_texts};
use crate::event::InputAction;
use crate::text::{chars_of, same_text};
use vstd::prelude::*;

verus! {

/// The keys the application tells apart.
#[derive(Debug, Clone, Copy, PartialEq, Eq, Structural)]
pub enum KeyCode {
    Char(char),
    Backspace,
    Enter,
    Esc,
    Tab,
    BackTab,
    Up,
    Down,
    Left,
    Right,
    Home,
    End,
    PageUp,
    PageDown,
    /// Any other key.
    Other,
}

/// One key press.
#[derive(Debug, Clone, Copy, PartialEq, Eq, Structural)]
pub struct KeyEvent {
    pub code: KeyCode,
    /// Held together with the control key.
    pub ctrl: bool,
}

impl KeyEvent {
    /// A key on its own.
    pub fn plain(code: KeyCode) -> (r: KeyEvent)
        ensures
            r == (KeyEvent { code, ctrl: false }),
    {
        KeyEvent { code, ctrl: false }
    }

    /// A key held together with the control key.
    pub fn ctrl(code: KeyCode) -> (r: KeyEvent)
        ensures
            r == (KeyEvent { code, ctrl: true }),
    {
        KeyEvent { code, ctrl: true }
    }
}

/// Multi-key chord state, kept outside the configured keymap.
#[derive(Debug, Clone, Copy, PartialEq, Eq, Structural)]
pub enum Pending {
    Nothing,
    /// `z` seen; the next key completes or abandons the chord.
    Z,
}

impl Default for Pending {
    fn default() -> (r: Pending)
        ensures
            r == Pending::Nothing,
    {
        Pending::Nothing
    }
}

/// The built-in bindings.
pub const DEFAULT_KEYS: [(char, InputAction); 38] = [
    ('j', InputAction::Down),
    ('k', InputAction::Up),
    ('h', InputAction::Left),
    ('l', InputAction::Right),
    ('g', InputAction::Home),
    ('G', InputAction::End),
    ('q', InputAction::Quit),
    ('?', InputAction::OpenHelp),
    ('/', InputAction::OpenFilter),
    ('S', InputAction::OpenSearch),
    ('u', InputAction::OpenQueue),
    (' ', InputAction::TogglePause),
    ('n', InputAction::NextTrack),
    ('p', InputAction::PrevTrack),
    ('f', InputAction::SeekForward),
    ('b', InputAction::SeekBack),
    ('+', InputAction::VolumeUp),
    ('-', InputAction::VolumeDown),
    ('m', InputAction::ToggleMute),
    ('s', InputAction::ToggleShuffle),
    ('r', InputAction::CycleRepeat),
    ('c', InputAction::FocusCurrent),
    ('a', InputAction::AddToQueue),
    ('A', InputAction::AddToPlaylist),
    ('N', InputAction::CreatePlaylist),
    ('R', InputAction::RenamePlaylist),
    ('D', InputAction::DeletePlaylist),
    ('x', InputAction::RemoveFromPlaylist),
    ('v', InputAction::ToggleMark),
    ('V', InputAction::ToggleVisual),
    ('t', InputAction::CycleTheme),
    (',', InputAction::EditConfig),
    ('e', InputAction::PlayNext),
    ('J', InputAction::MoveEntryDown),
    ('K', InputAction::MoveEntryUp),
    ('C', InputAction::ClearQueue),
    ('L', InputAction::Refresh),
    ('d', InputAction::Download),
];

/// Every action a configuration may bind, by the name it goes by there.
pub const ACTIONS: [(&'static str, InputAction); 41] = [
    ("down", InputAction::Down),
    ("up", InputAction::Up),
    ("left", InputAction::Left),
    ("right", InputAction::Right),
    ("home", InputAction::Home),
    ("end", InputAction::End),
    ("quit", InputAction::Quit),
    ("toggle_pause", InputAction::TogglePause),
    ("next_track", InputAction::NextTrack),
    ("prev_track", InputAction::PrevTrack),
    ("toggle_shuffle", InputAction::ToggleShuffle),
    ("cycle_repeat", InputAction::CycleRepeat),
    ("open_search", InputAction::OpenSearch),
    ("open_queue", InputAction::OpenQueue),
    ("open_help", InputAction::OpenHelp),
    ("move_entry_up", InputAction::MoveEntryUp),
    ("move_entry_down", InputAction::MoveEntryDown),
    ("clear_queue", InputAction::ClearQueue),
    ("toggle_mark", InputAction::ToggleMark),
    ("toggle_visual", InputAction::ToggleVisual),
    ("cycle_theme", InputAction::CycleTheme),
    ("edit_config", InputAction::EditConfig),
    ("add_to_queue", InputAction::AddToQueue),
    ("play_next", InputAction::PlayNext),
    ("add_to_playlist", InputAction::AddToPlaylist),
    ("remove_from_playlist", InputAction::RemoveFromPlaylist),
    ("create_playlist", InputAction::CreatePlaylist),
    ("rename_playlist", InputAction::RenamePlaylist),
    ("delete_playlist", InputAction::DeletePlaylist),
    ("seek_forward", InputAction::SeekForward),
    ("seek_back", InputAction::SeekBack),
    ("volume_up", InputAction::VolumeUp),
    ("volume_down", InputAction::VolumeDown),
    ("toggle_mute", InputAction::ToggleMute),
    ("refresh", InputAction::Refresh),
    ("open_filter", InputAction::OpenFilter),
    ("center_on_cursor", InputAction::CenterOnCursor),
    ("focus_current", InputAction::FocusCurrent),
    ("page_down", InputAction::PageDown),
    ("page_up", InputAction::PageUp),
    ("download", InputAction::Download),
];

/// The action of the first entry of `ACTIONS`, from `i` on, that has this name.
pub open spec fn action_named_from(n: Seq<char>, i: int) -> Option<InputAction>
    decreases 41 - i,
{
    if 0 <= i < 41 {
        if ACTIONS@[i].0@ == n {
            Some(ACTIONS@[i].1)
        } else {
            action_named_from(n, i + 1)
        }
    } else {
        None
    }
}

/// The action that goes by this name in a configuration.
pub open spec fn action_named(n: Seq<char>) -> Option<InputAction> {
    action_named_from(n, 0)
}

/// The action that goes by this name in a configuration.
pub fn action_from_name(n: &str) -> (r: Option<InputAction>)
    ensures
        r == action_named(n@),
{
    let mut i: usize = 0;
    while i < 41
        invariant
            i <= 41,
            action_named(n@) == action_named_from(n@, i as int),
        decreases 41 - i,
    {
        let (name, action) = ACTIONS[i];
        if same_text(name, n) {
            return Some(action);
        }
        i += 1;
    }
    None
}

/// The bindings made one after the other.
pub open spec fn bound(keys: Seq<(char, InputAction)>) -> Map<char, InputAction>
    decreases keys.len(),
{
    if keys.len() == 0 {
        Map::empty()
    } else {
        bound(keys.drop_last()).insert(keys.last().0, keys.last().1)
    }
}

/// Bindings in the order of their characters, one per character.
pub open spec fn ordered(keys: Seq<(char, InputAction)>) -> bool {
    forall|i: int, j: int| 0 <= i < j < keys.len() ==> (#[trigger] keys[i]).0 < (#[trigger] keys[j]).0
}

/// The bindings without those of an action.
pub open spec fn unbound(m: Map<char, InputAction>, a: InputAction) -> Map<char, InputAction> {
    m.restrict(Set::new(|c: char| m[c] != a))
}

/// What the bindings are once an action has been given one key, and no other.
pub open spec fn rebound(
    m: Map<char, InputAction>,
    c: char,
    a: InputAction,
) -> Map<char, InputAction> {
    unbound(m, a).insert(c, a)
}

/// The built-in bindings, with or without those that move by letters.
pub open spec fn built_in(vim_keys: bool) -> Map<char, InputAction> {
    let m = bound(DEFAULT_KEYS@);
    if vim_keys {
        m
    } else {
        m.remove('h').remove('j').remove('k').remove('l')
    }
}

/// A table of action names and keys applied in turn. Only the first character of
/// a key counts; an empty key and an unknown name change nothing.
pub open spec fn overridden(
    m: Map<char, InputAction>,
    table: Seq<(Seq<char>, Seq<char>)>,
) -> Map<char, InputAction>
    decreases table.len(),
{
    if table.len() == 0 {
        m
    } else {
        let before = overridden(m, table.drop_last());
        let (name, key) = table.last();
        match action_named(name) {
            Some(a) if key.len() > 0 => rebound(before, key[0], a),
            _ => before,
        }
    }
}

/// What `bound` says about ordered bindings: a key is bound exactly when it occurs.
proof fn lemma_bound(keys: Seq<(char, InputAction)>)
    requires
        ordered(keys),
    ensures
        forall|i: int|
            0 <= i < keys.len() ==> bound(keys).contains_key((#[trigger] keys[i]).0)
                && bound(keys)[keys[i].0] == keys[i].1,
        forall|c: char|
            #[trigger] bound(keys).contains_key(c) ==> exists|i: int|
                0 <= i < keys.len() && (#[trigger] keys[i]).0 == c,
    decreases keys.len(),
{
    if keys.len() > 0 {
        let rest = keys.drop_last();
        lemma_bound(rest);
        assert forall|i: int| 0 <= i < keys.len() implies bound(keys).contains_key(
            (#[trigger] keys[i]).0,
        ) && bound(keys)[keys[i].0] == keys[i].1 by {
            if i < keys.len() - 1 {
                assert(rest[i] == keys[i]);
                assert(keys[i].0 < keys[keys.len() - 1].0);
            }
        }
        assert forall|c: char| #[trigger] bound(keys).contains_key(c) implies exists|i: int|
            0 <= i < keys.len() && (#[trigger] keys[i]).0 == c by {
            if c == keys.last().0 {
                assert(keys[keys.len() - 1].0 == c);
            } else {
                assert(bound(rest).contains_key(c));
                let i = choose|i: int| 0 <= i < rest.len() && (#[trigger] rest[i]).0 == c;
                assert(rest[i] == keys[i]);
            }
        }
    }
}

/// Two ordered lists of bindings that hold the same pairs, but for one key, bind
/// the same, but for that key.
proof fn lemma_bound_with(
    before: Seq<(char, InputAction)>,
    after: Seq<(char, InputAction)>,
    c: char,
    a: InputAction,
)
    requires
        ordered(before),
        ordered(after),
        after.contains((c, a)),
        forall|i: int|
            0 <= i < after.len() && (#[trigger] after[i]).0 != c ==> before.contains(after[i]),
        forall|i: int|
            0 <= i < before.len() && (#[trigger] before[i]).0 != c ==> after.contains(before[i]),
    ensures
        bound(after) == bound(before).insert(c, a),
{
    lemma_bound(before);
    lemma_bound(after);
    let m = bound(before).insert(c, a);
    let w = choose|w: int| 0 <= w < after.len() && after[w] == (c, a);
    assert(after[w].0 == c);
    assert forall|k: char| bound(after).contains_key(k) == m.contains_key(k) by {
        if bound(after).contains_key(k) && k != c {
            let i = choose|i: int| 0 <= i < after.len() && (#[trigger] after[i]).0 == k;
            let j = choose|j: int| 0 <= j < before.len() && before[j] == after[i];
            assert(before[j].0 == k);
        }
        if m.contains_key(k) && k != c {
            assert(bound(before).contains_key(k));
            let i = choose|i: int| 0 <= i < before.len() && (#[trigger] before[i]).0 == k;
            let j = choose|j: int| 0 <= j < after.len() && after[j] == before[i];
            assert(after[j].0 == k);
        }
    }
    assert forall|k: char| bound(after).contains_key(k) implies bound(after)[k] == m[k] by {
        if k != c {
            let i = choose|i: int| 0 <= i < after.len() && (#[trigger] after[i]).0 == k;
            let j = choose|j: int| 0 <= j < before.len() && before[j] == after[i];
            assert(before[j].0 == k);
        }
    }
    assert(bound(after) =~= m);
}

/// Which keys do what while no text is being typed.
#[derive(Debug, PartialEq, Eq)]
pub struct KeyMap {
    chars: Vec<(char, InputAction)>,
}

impl View for KeyMap {
    type V = Map<char, InputAction>;

    closed spec fn view(&self) -> Map<char, InputAction> {
        bound(self.chars@)
    }
}

impl KeyMap {
    #[verifier::type_invariant]
    spec fn wf(self) -> bool {
        ordered(self.chars@)
    }

    fn empty() -> (r: KeyMap)
        ensures
            r@ == Map::<char, InputAction>::empty(),
    {
        KeyMap { chars: Vec::new() }
    }

    /// Where the key stands, or would stand.
    fn place(&self, c: char) -> (r: usize)
        ensures
            r <= self.chars@.len(),
            forall|i: int| 0 <= i < r ==> (#[trigger] self.chars@[i]).0 < c,
            forall|i: int| r <= i < self.chars@.len() ==> c <= (#[trigger] self.chars@[i]).0,
    {
        proof {
            use_type_invariant(self);
        }
        let mut i: usize = 0;
        while i < self.chars.len() && self.chars[i].0 < c
            invariant
                i <= self.chars@.len(),
                ordered(self.chars@),
                forall|k: int| 0 <= k < i ==> (#[trigger] self.chars@[k]).0 < c,
            decreases self.chars@.len() - i,
        {
            i += 1;
        }
        i
    }

    /// The action bound to a key.
    pub fn get(&self, c: char) -> (r: Option<InputAction>)
        ensures
            r == if self@.contains_key(c) {
                Some(self@[c])
            } else {
                None
            },
    {
        proof {
            use_type_invariant(self);
            lemma_bound(self.chars@);
        }
        let i = self.place(c);
        if i < self.chars.len() && self.chars[i].0 == c {
            assert(self.chars@[i as int].0 == c);
            Some(self.chars[i].1)
        } else {
            None
        }
    }

    fn insert(&mut self, c: char, a: InputAction)
        ensures
            final(self)@ == old(self)@.insert(c, a),
    {
        let i = self.place(c);
        proof {
            use_type_invariant(&*self);
        }
        let ghost before = self.chars@;
        let mut v: Vec<(char, InputAction)> = Vec::new();
        std::mem::swap(&mut v, &mut self.chars);
        let here = i < v.len() && v[i].0 == c;
        if here {
            v.set(i, (c, a));
        } else {
            v.insert(i, (c, a));
        }
        proof {
            assert(v@[i as int] == (c, a));
            assert forall|k: int| 0 <= k < v@.len() && (#[trigger] v@[k]).0 != c implies before.contains(
                v@[k],
            ) by {
                if here || k < i {
                    assert(before[k] == v@[k]);
                } else {
                    assert(before[k - 1] == v@[k]);
                }
            }
            assert forall|k: int|
                0 <= k < before.len() && (#[trigger] before[k]).0 != c implies v@.contains(
                before[k],
            ) by {
                if here || k < i {
                    assert(v@[k] == before[k]);
                } else {
                    assert(v@[k + 1] == before[k]);
                }
            }
            lemma_bound_with(before, v@, c, a);
        }
        self.chars = v;
    }

    /// Keeps the bindings that are not to be dropped.
    fn keep(&mut self, drop_key: Option<char>, drop_action: Option<InputAction>)
        ensures
            final(self)@ == old(self)@.restrict(
                Set::new(
                    |c: char|
                        drop_key != Some(c) && !(old(self)@.contains_key(c) && drop_action
                            == Some(old(self)@[c])),
                ),
            ),
    {
        proof {
            use_type_invariant(&*self);
            lemma_bound(self.chars@);
        }
        let ghost before = self.chars@;
        let mut v: Vec<(char, InputAction)> = Vec::new();
        let mut i: usize = 0;
        while i < self.chars.len()
            invariant
                i <= self.chars@.len(),
                self.chars@ == before,
                *self == *old(self),
                ordered(before),
                ordered(v@),
                forall|k: int| 0 <= k < v@.len() ==> exists|j: int|
                    0 <= j < i && before[j] == (#[trigger] v@[k]),
                forall|k: int|
                    0 <= k < v@.len() ==> drop_key != Some((#[trigger] v@[k]).0) && drop_action
                        != Some(v@[k].1),
                forall|j: int|
                    0 <= j < i && drop_key != Some(before[j].0) && drop_action != Some(before[j].1)
                        ==> v@.contains(#[trigger] before[j]),
            decreases self.chars@.len() - i,
        {
            let (c, a) = self.chars[i];
            let same_key = match drop_key {
                Some(k) => k == c,
                None => false,
            };
            let same_action = match drop_action {
                Some(d) => d == a,
                None => false,
            };
            if !same_key && !same_action {
                let ghost prev = v@;
                v.push((c, a));
                proof {
                    assert(v@[prev.len() as int] == before[i as int]);
                    assert forall|j: int|
                        0 <= j < i + 1 && drop_key != Some(before[j].0) && drop_action != Some(
                            before[j].1,
                        ) implies v@.contains(#[trigger] before[j]) by {
                        if j < i {
                            let w = choose|w: int| 0 <= w < prev.len() && prev[w] == before[j];
                            assert(v@[w] == before[j]);
                        }
                    }
                    assert forall|k: int, l: int| 0 <= k < l < v@.len() implies (
                    #[trigger] v@[k]).0 < (#[trigger] v@[l]).0 by {
                        if l == prev.len() {
                            assert(prev[k] == v@[k]);
                            let j = choose|j: int| 0 <= j < i && before[j] == prev[k];
                            assert(before[j].0 < before[i as int].0);
                        } else {
                            assert(prev[k] == v@[k] && prev[l] == v@[l]);
                        }
                    }
                    assert forall|k: int| 0 <= k < v@.len() implies exists|j: int|
                        0 <= j < i + 1 && before[j] == (#[trigger] v@[k]) by {
                        if k < prev.len() {
                            assert(prev[k] == v@[k]);
                            let j = choose|j: int| 0 <= j < i && before[j] == prev[k];
                            assert(before[j] == v@[k]);
                        }
                    }
                }
            }
            i += 1;
        }
        proof {
            lemma_bound(v@);
            let kept = Set::new(
                |c: char|
                    drop_key != Some(c) && !(bound(before).contains_key(c) && drop_action == Some(
                        bound(before)[c],
                    )),
            );
            let m = bound(before).restrict(kept);
            assert forall|c: char| bound(v@).contains_key(c) == m.contains_key(c) by {
                if bound(v@).contains_key(c) {
                    let k = choose|k: int| 0 <= k < v@.len() && (#[trigger] v@[k]).0 == c;
                    let j = choose|j: int| 0 <= j < before.len() && before[j] == v@[k];
                    assert(before[j].0 == c);
                }
                if m.contains_key(c) {
                    let j = choose|j: int| 0 <= j < before.len() && (#[trigger] before[j]).0 == c;
                    assert(v@.contains(before[j]));
                    let w = choose|w: int| 0 <= w < v@.len() && v@[w] == before[j];
                    assert(v@[w].0 == c);
                }
            }
            assert forall|c: char| bound(v@).contains_key(c) implies bound(v@)[c] == m[c] by {
                let k = choose|k: int| 0 <= k < v@.len() && (#[trigger] v@[k]).0 == c;
                let j = choose|j: int| 0 <= j < before.len() && before[j] == v@[k];
                assert(before[j].0 == c);
            }
            assert(bound(v@) =~= m);
        }
        self.chars = v;
    }

    fn remove(&mut self, c: char)
        ensures
            final(self)@ == old(self)@.remove(c),
    {
        self.keep(Some(c), None);
        assert(self@ =~= old(self)@.remove(c));
    }

    /// Gives an action one key, and no other: a binding is exclusive.
    pub fn rebind(&mut self, c: char, a: InputAction)
        ensures
            final(self)@ == rebound(old(self)@, c, a),
    {
        self.keep(None, Some(a));
        assert(self@ =~= unbound(old(self)@, a));
        self.insert(c, a);
    }

    /// The built-in bindings. Without `vim_keys`, `h`/`j`/`k`/`l` are left to the
    /// arrow keys; `g`/`G` and `J`/`K` stay.
    pub fn new(vim_keys: bool) -> (r: KeyMap)
        ensures
            r@ == built_in(vim_keys),
    {
        let mut m = KeyMap::empty();
        let mut i: usize = 0;
        assert(DEFAULT_KEYS@.take(0) =~= Seq::empty());
        while i < 38
            invariant
                i <= 38,
                m@ == bound(DEFAULT_KEYS@.take(i as int)),
            decreases 38 - i,
        {
            let (c, a) = DEFAULT_KEYS[i];
            let ghost upto = DEFAULT_KEYS@.take(i + 1);
            assert(upto.drop_last() =~= DEFAULT_KEYS@.take(i as int));
            assert(upto.last() == (c, a));
            m.insert(c, a);
            i += 1;
        }
        assert(DEFAULT_KEYS@.take(38) =~= DEFAULT_KEYS@);
        if !vim_keys {
            m.remove('h');
            m.remove('j');
            m.remove('k');
            m.remove('l');
        }
        m
    }
}

impl Default for KeyMap {
    fn default() -> (r: KeyMap)
        ensures
            r@ == built_in(true),
    {
        KeyMap::new(true)
    }
}

/// The cursor is in a text field.
pub open spec fn is_typing(focus: Focus) -> bool {
    focus is SearchInput || focus is FilterInput
}

/// What a key held with control means.
pub open spec fn resolved_ctrl(code: KeyCode, focus: Focus) -> Option<InputAction> {
    match code {
        KeyCode::Char('c') => Some(InputAction::ForceQuit),
        KeyCode::Char('d') => Some(InputAction::PageDown),
        KeyCode::Char('u') => Some(InputAction::PageUp),
        KeyCode::Char('w') if is_typing(focus) => Some(InputAction::DeleteWordBack),
        KeyCode::Char('a') if is_typing(focus) => Some(InputAction::LineStart),
        KeyCode::Char('e') if is_typing(focus) => Some(InputAction::LineEnd),
        KeyCode::Left if is_typing(focus) => Some(InputAction::WordLeft),
        KeyCode::Right if is_typing(focus) => Some(InputAction::WordRight),
        _ => None,
    }
}

/// What a key means in a text field. Only the search field moves its caret.
pub open spec fn resolved_text(code: KeyCode, focus: Focus) -> Option<InputAction> {
    match code {
        KeyCode::Char(c) => Some(InputAction::Char(c)),
        KeyCode::Backspace => Some(InputAction::Backspace),
        KeyCode::Esc => Some(InputAction::Cancel),
        KeyCode::Enter => Some(InputAction::Confirm),
        KeyCode::Down => Some(InputAction::Down),
        KeyCode::Up => Some(InputAction::Up),
        KeyCode::Left if focus is SearchInput => Some(InputAction::CharLeft),
        KeyCode::Right if focus is SearchInput => Some(InputAction::CharRight),
        KeyCode::Home if focus is SearchInput => Some(InputAction::LineStart),
        KeyCode::End if focus is SearchInput => Some(InputAction::LineEnd),
        _ => None,
    }
}

/// What a key means in a list.
pub open spec fn resolved_list(m: Map<char, InputAction>, code: KeyCode) -> Option<InputAction> {
    match code {
        KeyCode::Char(c) => if '1' <= c <= '8' {
            Some(InputAction::GoTo((c as int - '0' as int) as u8))
        } else if m.contains_key(c) {
            Some(m[c])
        } else {
            None
        },
        KeyCode::Down => Some(InputAction::Down),
        KeyCode::Up => Some(InputAction::Up),
        KeyCode::Left => Some(InputAction::Left),
        KeyCode::Right => Some(InputAction::Right),
        KeyCode::Home => Some(InputAction::Home),
        KeyCode::End => Some(InputAction::End),
        KeyCode::PageDown => Some(InputAction::PageDown),
        KeyCode::PageUp => Some(InputAction::PageUp),
        KeyCode::Enter => Some(InputAction::Confirm),
        KeyCode::Esc => Some(InputAction::Cancel),
        KeyCode::Tab => Some(InputAction::NextPane),
        KeyCode::BackTab => Some(InputAction::PrevPane),
        _ => None,
    }
}

/// What a key means.
pub open spec fn resolved(
    m: Map<char, InputAction>,
    key: KeyEvent,
    focus: Focus,
) -> Option<InputAction> {
    if key.ctrl {
        resolved_ctrl(key.code, focus)
    } else if is_typing(focus) {
        resolved_text(key.code, focus)
    } else {
        resolved_list(m, key.code)
    }
}

/// What a key means after a chord was begun or not, and the chord it leaves begun.
pub open spec fn resolved_chord(
    m: Map<char, InputAction>,
    key: KeyEvent,
    focus: Focus,
    pending: Pending,
) -> (Option<InputAction>, Pending) {
    if !is_typing(focus) && !key.ctrl && key.code == KeyCode::Char('z') {
        match pending {
            Pending::Z => (Some(InputAction::CenterOnCursor), Pending::Nothing),
            Pending::Nothing => (None, Pending::Z),
        }
    } else {
        (resolved(m, key, focus), Pending::Nothing)
    }
}

/// A table of texts that is not one, with the reason.
#[derive(Debug, Clone, PartialEq, Eq)]
pub struct KeysError {
    pub message: String,
}

impl KeyMap {
    /// The intent of a key press.
    pub fn resolve(&self, key: KeyEvent, focus: Focus) -> (r: Option<InputAction>)
        ensures
            r == resolved(self@, key, focus),
    {
        let typing: bool = focus == Focus::SearchInput || focus == Focus::FilterInput;
        if key.ctrl {
            // The escape hatch comes first: nothing below may shadow it.
            return match key.code {
                KeyCode::Char('c') => Some(InputAction::ForceQuit),
                KeyCode::Char('d') => Some(InputAction::PageDown),
                KeyCode::Char('u') => Some(InputAction::PageUp),
                KeyCode::Char('w') if typing => Some(InputAction::DeleteWordBack),
                KeyCode::Char('a') if typing => Some(InputAction::LineStart),
                KeyCode::Char('e') if typing => Some(InputAction::LineEnd),
                KeyCode::Left if typing => Some(InputAction::WordLeft),
                KeyCode::Right if typing => Some(InputAction::WordRight),
                _ => None,
            };
        }
        if typing {
            let caret: bool = focus == Focus::SearchInput;
            return match key.code {
                KeyCode::Char(c) => Some(InputAction::Char(c)),
                KeyCode::Backspace => Some(InputAction::Backspace),
                KeyCode::Esc => Some(InputAction::Cancel),
                KeyCode::Enter => Some(InputAction::Confirm),
                KeyCode::Down => Some(InputAction::Down),
                KeyCode::Up => Some(InputAction::Up),
                KeyCode::Left if caret => Some(InputAction::CharLeft),
                KeyCode::Right if caret => Some(InputAction::CharRight),
                KeyCode::Home if caret => Some(InputAction::LineStart),
                KeyCode::End if caret => Some(InputAction::LineEnd),
                _ => None,
            };
        }
        match key.code {
            KeyCode::Char(c) => {
                if '1' <= c && c <= '8' {
                    Some(InputAction::GoTo((c as u32 - '0' as u32) as u8))
                } else {
                    self.get(c)
                }
            },
            KeyCode::Down => Some(InputAction::Down),
            KeyCode::Up => Some(InputAction::Up),
            KeyCode::Left => Some(InputAction::Left),
            KeyCode::Right => Some(InputAction::Right),
            KeyCode::Home => Some(InputAction::Home),
            KeyCode::End => Some(InputAction::End),
            KeyCode::PageDown => Some(InputAction::PageDown),
            KeyCode::PageUp => Some(InputAction::PageUp),
            KeyCode::Enter => Some(InputAction::Confirm),
            KeyCode::Esc => Some(InputAction::Cancel),
            KeyCode::Tab => Some(InputAction::NextPane),
            KeyCode::BackTab => Some(InputAction::PrevPane),
            _ => None,
        }
    }

    /// The intent of a key press that may complete a chord. Anything but a second
    /// `z` abandons the prefix and is handled as usual, so a mistyped `z` costs
    /// nothing.
    pub fn resolve_chord(&self, key: KeyEvent, focus: Focus, pending: Pending) -> (r: (
        Option<InputAction>,
        Pending,
    ))
        ensures
            r == resolved_chord(self@, key, focus, pending),
    {
        let typing: bool = focus == Focus::SearchInput || focus == Focus::FilterInput;
        if !typing && !key.ctrl && key.code == KeyCode::Char('z') {
            return match pending {
                Pending::Z => (Some(InputAction::CenterOnCursor), Pending::Nothing),
                Pending::Nothing => (None, Pending::Z),
            };
        }
        (self.resolve(key, focus), Pending::Nothing)
    }

    /// The bindings in the order of their characters.
    pub closed spec fn listing(&self) -> Seq<(char, InputAction)> {
        self.chars@
    }

    /// The bindings, for the help overlay, in a stable order.
    pub fn bindings(&self) -> (r: Vec<(String, InputAction)>)
        ensures
            ordered(self.listing()),
            bound(self.listing()) == self@,
            r@.len() == self.listing().len(),
            forall|i: int|
                0 <= i < r@.len() ==> (#[trigger] r@[i]).0@ == seq![self.listing()[i].0] && r@[i].1
                    == self.listing()[i].1,
    {
        proof {
            use_type_invariant(self);
        }
        let mut v: Vec<(String, InputAction)> = Vec::new();
        let mut i: usize = 0;
        while i < self.chars.len()
            invariant
                i <= self.chars@.len(),
                v@.len() == i,
                forall|k: int|
                    0 <= k < i ==> (#[trigger] v@[k]).0@ == seq![self.chars@[k].0] && v@[k].1
                        == self.chars@[k].1,
            decreases self.chars@.len() - i,
        {
            let (c, a) = self.chars[i];
            let mut name = String::new();
            name.push(c);
            assert(name@ =~= seq![c]);
            v.push((name, a));
            i += 1;
        }
        v
    }

    /// A table of action names and keys applied on top of the built-in bindings.
    /// An explicit `down = "j"` wins over the absence of `vim_keys`.
    pub fn with_overrides(table: &Vec<(String, String)>, vim_keys: bool) -> (r: KeyMap)
        ensures
            r@ == overridden(built_in(vim_keys), table.deep_view()),
    {
        let mut m = KeyMap::new(vim_keys);
        let mut i: usize = 0;
        assert(overridden(built_in(vim_keys), table.deep_view().take(0)) == m@);
        while i < table.len()
            invariant
                i <= table@.len(),
                m@ == overridden(built_in(vim_keys), table.deep_view().take(i as int)),
            decreases table@.len() - i,
        {
            let ghost upto = table.deep_view().take(i + 1);
            assert(upto.drop_last() =~= table.deep_view().take(i as int));
            assert(upto.last() == (table@[i as int].0@, table@[i as int].1@));
            let key = chars_of(table[i].1.as_str());
            match action_from_name(table[i].0.as_str()) {
                Some(a) => {
                    if key.len() > 0 {
                        m.rebind(key[0], a);
                    }
                },
                None => {},
            }
            i += 1;
        }
        assert(table.deep_view().take(i as int) =~= table.deep_view());
        m
    }

    /// The built-in bindings with those of a `[keys]` table in place of their own.
    pub fn from_toml_str(s: &str) -> (r: Result<KeyMap, KeysError>)
        ensures
            match outline::texts_parsed(s@) {
                Ok(table) => r matches Ok(m) && m@ == overridden(built_in(true), table),
                Err(why) => r matches Err(e) && e.message@ == why,
            },
    {
        KeyMap::from_toml_str_with(s, true)
    }

    /// The same, on top of the bindings with or without `vim_keys`.
    pub fn from_toml_str_with(s: &str, vim_keys: bool) -> (r: Result<KeyMap, KeysError>)
        ensures
            match outline::texts_parsed(s@) {
                Ok(table) => r matches Ok(m) && m@ == overridden(built_in(vim_keys), table),
                Err(why) => r matches Err(e) && e.message@ == why,
            },
    {
        match read_texts(s) {
            Ok(table) => Ok(KeyMap::with_overrides(&table, vim_keys)),
            Err(message) => Err(KeysError { message }),
        }
    }

    /// Every action name a configuration accepts.
    pub fn action_names() -> (r: Vec<&'static str>)
        ensures
            r@.len() == ACTIONS@.len(),
            forall|i: int| 0 <= i < r@.len() ==> (#[trigger] r@[i])@ == ACTIONS@[i].0@,
    {
        let mut v: Vec<&'static str> = Vec::new();
        let mut i: usize = 0;
        while i < 41
            invariant
                i <= 41,
                v@.len() == i,
                forall|k: int| 0 <= k < i ==> (#[trigger] v@[k])@ == ACTIONS@[k].0@,
            decreases 41 - i,
        {
            v.push(ACTIONS[i].0);
            i += 1;
        }
        v
    }
}

/// Nothing shadows the escape hatch: control and `c` quits wherever the focus is.
pub proof fn ctrl_c_always_quits(m: Map<char, InputAction>, focus: Focus, pending: Pending)
    ensures
        resolved_chord(
            m,
            KeyEvent { code: KeyCode::Char('c'), ctrl: true },
            focus,
            pending,
        ) == (Some(InputAction::ForceQuit), Pending::Nothing),
{
}

/// While typing, every character is that character, whatever it is bound to.
pub proof fn letters_are_text_while_typing(
    m: Map<char, InputAction>,
    c: char,
    focus: Focus,
    pending: Pending,
)
    requires
        is_typing(focus),
    ensures
        resolved_chord(
            m,
            KeyEvent { code: KeyCode::Char(c), ctrl: false },
            focus,
            pending,
        ) == (Some(InputAction::Char(c)), Pending::Nothing),
{
}

/// A `z` that is not followed by another changes nothing about the next key.
pub proof fn an_abandoned_chord_costs_nothing(
    m: Map<char, InputAction>,
    key: KeyEvent,
    focus: Focus,
)
    requires
        key.code != KeyCode::Char('z'),
    ensures
        resolved_chord(m, key, focus, Pending::Z) == resolved_chord(
            m,
            key,
            focus,
            Pending::Nothing,
        ),
{
}

/// A binding is exclusive: an action that is given a key has that key alone, and
/// every other action keeps the keys it had, but for that one.
pub proof fn a_binding_is_exclusive(m: Map<char, InputAction>, c: char, a: InputAction)
    ensures
        rebound(m, c, a).contains_key(c),
        rebound(m, c, a)[c] == a,
        forall|k: char|
            k != c ==> #[trigger] rebound(m, c, a).contains_key(k) == (m.contains_key(k) && m[k]
                != a),
        forall|k: char| #[trigger]
            rebound(m, c, a).contains_key(k) && k != c ==> rebound(m, c, a)[k] == m[k]
                && rebound(m, c, a)[k] != a,
{
}

/// Every name a configuration accepts stands for an action.
pub proof fn every_name_stands_for_an_action(i: int)
    requires
        0 <= i < ACTIONS@.len(),
    ensures
        action_named(ACTIONS@[i].0@) is Some,
{
    lemma_named_by(ACTIONS@[i].0@, 0, i);
}

proof fn lemma_named_by(n: Seq<char>, from: int, i: int)
    requires
        0 <= from <= i < 41,
        ACTIONS@[i].0@ == n,
    ensures
        action_named_from(n, from) is Some,
    decreases i - from,
{
    if from < i && ACTIONS@[from].0@ != n {
        lemma_named_by(n, from + 1, i);
    }
}

} // verus!
