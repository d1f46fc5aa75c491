//! What editing playlists comes to: what is asked, what shows at once, what is asked of the
//! source, and what its answer leaves.

use crate::app::{ConfirmActionView, ModalView, PromptActionView, StateView, ToastKind};
use crate::background::{self, Means, ReplyView};
use crate::config::BehaviourConfig;
use crate::edits;
use crate::event::{AppEvent, InputAction};
use crate::laws_intents::{has_no_marks, on, same_lists, says};
use crate::model::{PlaylistView, Privacy, TrackView};
use crate::mutation::{self, MutationView, UnderwayView};
use crate::reducer;
use crate::tasks::{MutationTaskView, RequestView, TaskView};
use crate::text;
use vstd::prelude::*;

verus! {

proof fn lemma_trim_start(s: Seq<char>)
    ensures
        ({
            let t = text::trim_start(s);
            let n = s.len() - t.len();
            &&& t.len() <= s.len()
            &&& t == s.skip(n)
            &&& t.len() > 0 ==> !text::is_space(t[0])
            &&& forall|i: int| 0 <= i < n ==> text::is_space(#[trigger] s[i])
        }),
    decreases s.len(),
{
    if s.len() > 0 && text::is_space(s[0]) {
        let rest = s.drop_first();
        lemma_trim_start(rest);
        let t = text::trim_start(rest);
        let n = s.len() - t.len();
        assert(rest.skip(n - 1) =~= s.skip(n));
        assert forall|i: int| 0 <= i < n implies text::is_space(#[trigger] s[i]) by {
            if i > 0 {
                assert(rest[i - 1] == s[i]);
            }
        }
    } else {
        assert(s.skip(0) =~= s);
    }
}

proof fn lemma_trim_end(s: Seq<char>)
    ensures
        ({
            let t = text::trim_end(s);
            &&& t.len() <= s.len()
            &&& t == s.take(t.len() as int)
            &&& t.len() > 0 ==> !text::is_space(t.last())
            &&& forall|i: int| t.len() <= i < s.len() ==> text::is_space(#[trigger] s[i])
        }),
    decreases s.len(),
{
    if s.len() > 0 && text::is_space(s.last()) {
        let rest = s.drop_last();
        lemma_trim_end(rest);
        let t = text::trim_end(rest);
        assert(rest.take(t.len() as int) =~= s.take(t.len() as int));
        assert forall|i: int| t.len() <= i < s.len() implies text::is_space(#[trigger] s[i]) by {
            if i < rest.len() {
                assert(rest[i] == s[i]);
            }
        }
    } else {
        assert(s.take(s.len() as int) =~= s);
    }
}

/// A name is taken as it was typed, from the first character that is no blank to the last.
/// What is all blanks is no name.
pub proof fn a_name_is_what_stands_between_blanks(value: Seq<char>)
    ensures
        ({
            let name = text::trimmed(value);
            &&& name.len() > 0 ==> !text::is_space(name[0]) && !text::is_space(name.last())
            &&& exists|lo: int, hi: int|
                0 <= lo <= hi <= value.len() && name == #[trigger] value.subrange(lo, hi) && (forall|
                    i: int,
                |
                    0 <= i < value.len() && !(lo <= i < hi) ==> text::is_space(#[trigger] value[i]))
            &&& name.len() == 0 <==> forall|i: int|
                0 <= i < value.len() ==> text::is_space(#[trigger] value[i])
        }),
{
    let front = text::trim_start(value);
    lemma_trim_start(value);
    lemma_trim_end(front);
    let name = text::trimmed(value);
    let lo = value.len() - front.len();
    let hi = lo + name.len();
    assert(name =~= value.subrange(lo, hi));
    assert forall|i: int| 0 <= i < value.len() && !(lo <= i < hi) implies text::is_space(
        #[trigger] value[i],
    ) by {
        if i >= hi {
            assert(front[i - lo] == value[i]);
        }
    }
    if name.len() > 0 {
        assert(name[0] == front[0]);
        assert(value[lo] == name[0]);
    }
}

/// A new playlist begins with the question for its name, with nothing typed yet.
pub proof fn a_new_playlist_needs_a_name(s: StateView, b: BehaviourConfig)
    requires
        s.modal is None,
        !s.guest,
    ensures
        ({
            let step = s.dispatched(InputAction::CreatePlaylist, b);
            &&& step.sent.len() == 0 && step.task is None
            &&& step.state.modal matches Some(ModalView::Prompt { value, action, .. })
                && value.len() == 0 && action is CreatePlaylist
            &&& StateView { modal: None, ..step.state } == s
        }),
{
    reveal(StateView::arranged);
}

/// A name without a character that is no blank is refused: the question stays, and the user
/// is told.
pub proof fn a_blank_name_is_refused(
    s: StateView,
    b: BehaviourConfig,
    title: Seq<char>,
    value: Seq<char>,
    action: PromptActionView,
)
    requires
        s.modal == Some(ModalView::Prompt { title, value, action }),
        forall|i: int| 0 <= i < value.len() ==> text::is_space(#[trigger] value[i]),
    ensures
        ({
            let step = s.dispatched(InputAction::Confirm, b);
            &&& step.sent.len() == 0 && step.task is None
            &&& step.state.modal == s.modal
            &&& says(s, step.state, ToastKind::Error)
            &&& same_lists(s, step.state) && step.state.pending == s.pending
        }),
{
    reveal(StateView::in_modal);
    reveal(StateView::told);
    reveal(StateView::toasted);
    a_name_is_what_stands_between_blanks(value);
    assert(s.dispatched(InputAction::Confirm, b).state.toasts.drop_last() =~= s.toasts);
}

/// A new playlist shows at once, last and under the name that was typed, and is asked of
/// the source under that name, for the user alone. Once it is made it has the id that the
/// source gave it.
pub proof fn a_new_playlist_shows_and_is_made(
    s: StateView,
    b: BehaviourConfig,
    title: Seq<char>,
    value: Seq<char>,
    id: Seq<char>,
    ev: AppEvent,
)
    requires
        s.modal == Some(
            ModalView::Prompt { title, value, action: PromptActionView::CreatePlaylist },
        ),
        text::trimmed(value).len() > 0,
        s.pending.next < u64::MAX,
    ensures
        ({
            let step = s.dispatched(InputAction::Confirm, b);
            let t = step.state;
            let task = MutationTaskView::Create {
                title: text::trimmed(value),
                description: None,
                privacy: Privacy::Private,
            };
            &&& step.sent.len() == 0 && t.modal is None
            &&& step.task == Some(TaskView::Mutate { token: s.pending.next, task })
            &&& t.playlists.len() == s.playlists.len() + 1
            &&& t.playlists.drop_last() == s.playlists
            &&& t.playlists.last().title == text::trimmed(value)
            &&& !t.playlists.last().is_system
            &&& same_lists(StateView { playlists: s.playlists, ..t }, s)
            &&& background::answered(step.task->0, ReplyView::Created(id)) is Some
            &&& background::answered(step.task->0, ReplyView::Created(id)) == Some(ev.deep_view())
                ==> {
                let made = t.after(ev);
                &&& made.playlists.len() == s.playlists.len() + 1
                &&& made.playlists.drop_last() == s.playlists
                &&& made.playlists.last() == (PlaylistView { id, ..t.playlists.last() })
                &&& made.pending.entries == s.pending.entries
                &&& says(t, made, ToastKind::Success)
            }
        }),
{
    reveal(StateView::in_modal);
    reveal(StateView::begun);
    reveal(StateView::edited);
    reveal(StateView::after);
    reveal(StateView::committed);
    reveal(StateView::told);
    reveal(StateView::toasted);
    let name = text::trimmed(value);
    let temp = PlaylistView::stub(edits::temp_id(s.pending.next), name);
    let edit = MutationView::CreatePlaylist { temp };
    let step = s.dispatched(InputAction::Confirm, b);
    let t = step.state;
    mutation::a_token_names_its_own_edit(
        s.pending,
        UnderwayView { edit, shown: s.open_playlist },
    );
    assert(t.playlists == s.playlists.push(temp));
    assert(t.playlists.drop_last() =~= s.playlists);
    if background::answered(step.task->0, ReplyView::Created(id)) == Some(ev.deep_view()) {
        let made = t.after(ev);
        assert(made.playlists.drop_last() =~= s.playlists);
        assert(made.toasts.drop_last() =~= t.toasts);
    }
}

/// A playlist is renamed from its row: the question holds the name it has.
pub proof fn a_rename_begins_with_the_name_there_is(s: StateView, b: BehaviourConfig, row: int)
    requires
        s.modal is None,
        !s.guest,
        s.pane is Playlists,
        s.open_playlist is None,
        on(s, row),
        !s.playlists[row].is_system,
    ensures
        ({
            let step = s.dispatched(InputAction::RenamePlaylist, b);
            &&& step.sent.len() == 0 && step.task is None
            &&& step.state.modal matches Some(ModalView::Prompt { value, action, .. }) && value
                == s.playlists[row].title && action == PromptActionView::RenamePlaylist(
                s.playlists[row].id,
            )
            &&& StateView { modal: None, ..step.state } == s
        }),
{
    reveal(StateView::arranged);
}

/// A renamed playlist has its new name at once, every other one its own, and the source is
/// asked for the same.
pub proof fn a_renamed_playlist_has_its_new_name(
    s: StateView,
    b: BehaviourConfig,
    title: Seq<char>,
    value: Seq<char>,
    row: int,
)
    requires
        0 <= row < s.playlists.len(),
        forall|i: int|
            0 <= i < s.playlists.len() && i != row ==> (#[trigger] s.playlists[i]).id
                != s.playlists[row].id,
        s.modal == Some(
            ModalView::Prompt {
                title,
                value,
                action: PromptActionView::RenamePlaylist(s.playlists[row].id),
            },
        ),
        text::trimmed(value).len() > 0,
    ensures
        ({
            let step = s.dispatched(InputAction::Confirm, b);
            let id = s.playlists[row].id;
            let name = text::trimmed(value);
            &&& step.sent.len() == 0 && step.state.modal is None
            &&& step.task == Some(
                TaskView::Mutate {
                    token: s.pending.next,
                    task: MutationTaskView::Rename { id, title: name },
                },
            )
            &&& step.state.playlists.len() == s.playlists.len()
            &&& step.state.playlists[row] == (PlaylistView { title: name, ..s.playlists[row] })
            &&& forall|i: int|
                0 <= i < s.playlists.len() && i != row ==> #[trigger] step.state.playlists[i]
                    == s.playlists[i]
            &&& same_lists(StateView { playlists: s.playlists, ..step.state }, s)
        }),
{
    reveal(StateView::in_modal);
    reveal(StateView::begun);
    reveal(StateView::edited);
    reducer::lemma_playlist_at(s.playlists, s.playlists[row].id);
}

/// A playlist is deleted from its row, after a question about that one.
pub proof fn a_deletion_is_asked_about(s: StateView, b: BehaviourConfig, row: int)
    requires
        s.modal is None,
        !s.guest,
        s.pane is Playlists,
        s.open_playlist is None,
        on(s, row),
        !s.playlists[row].is_system,
    ensures
        ({
            let step = s.dispatched(InputAction::DeletePlaylist, b);
            &&& step.sent.len() == 0 && step.task is None
            &&& step.state.modal matches Some(ModalView::Confirm { action, .. }) && action
                == ConfirmActionView::DeletePlaylist(s.playlists[row].id)
            &&& StateView { modal: None, ..step.state } == s
            &&& step.state.dispatched(InputAction::Char('n'), b).state == s
            &&& step.state.dispatched(InputAction::Cancel, b).state == s
            &&& step.state.dispatched(InputAction::Char('n'), b).task is None
        }),
{
    reveal(StateView::arranged);
    reveal(StateView::in_modal);
    reveal(StateView::after);
    reveal(StateView::after_input);
    reveal(StateView::answered);
}

/// Yes, in either case of the letter, or Enter deletes exactly that playlist: it is off the
/// list at once, the others stay in their order, and the source is asked for the same.
pub proof fn a_deleted_playlist_is_gone(
    s: StateView,
    b: BehaviourConfig,
    question: Seq<char>,
    row: int,
    a: InputAction,
)
    requires
        0 <= row < s.playlists.len() <= usize::MAX,
        forall|i: int|
            0 <= i < s.playlists.len() && i != row ==> (#[trigger] s.playlists[i]).id
                != s.playlists[row].id,
        s.modal == Some(
            ModalView::Confirm {
                text: question,
                action: ConfirmActionView::DeletePlaylist(s.playlists[row].id),
            },
        ),
        a == InputAction::Char('y') || a == InputAction::Char('Y') || a is Confirm,
    ensures
        ({
            let step = s.dispatched(a, b);
            let id = s.playlists[row].id;
            let left = step.state.playlists;
            &&& step.sent.len() == 0 && step.state.modal is None
            &&& step.task == Some(
                TaskView::Mutate { token: s.pending.next, task: MutationTaskView::Delete { id } },
            )
            &&& left.len() + 1 == s.playlists.len()
            &&& forall|i: int| 0 <= i < row ==> #[trigger] left[i] == s.playlists[i]
            &&& forall|i: int| row <= i < left.len() ==> #[trigger] left[i] == s.playlists[i + 1]
            &&& same_lists(StateView { playlists: s.playlists, ..step.state }, s)
        }),
{
    reveal(StateView::in_modal);
    reveal(StateView::begun);
    reveal(StateView::edited);
    reveal(StateView::clamped);
    reducer::lemma_playlist_at(s.playlists, s.playlists[row].id);
}

proof fn lemma_editable(ps: Seq<PlaylistView>, id: Seq<char>, title: Seq<char>)
    ensures
        edits::editable(ps).contains((id, title)) <==> exists|i: int|
            0 <= i < ps.len() && !(#[trigger] ps[i]).is_system && ps[i].id == id && ps[i].title
                == title,
        edits::editable(ps).len() <= ps.len(),
    decreases ps.len(),
{
    if ps.len() > 0 {
        let rest = ps.drop_last();
        lemma_editable(rest, id, title);
        let before = edits::editable(rest);
        let all = edits::editable(ps);
        if before.contains((id, title)) {
            let k = choose|k: int| 0 <= k < before.len() && before[k] == (id, title);
            assert(all[k] == (id, title));
            let i = choose|i: int|
                0 <= i < rest.len() && !(#[trigger] rest[i]).is_system && rest[i].id == id
                    && rest[i].title == title;
            assert(ps[i] == rest[i]);
        } else {
            if exists|i: int|
                0 <= i < ps.len() && !(#[trigger] ps[i]).is_system && ps[i].id == id && ps[i].title
                    == title {
                let i = choose|i: int|
                    0 <= i < ps.len() && !(#[trigger] ps[i]).is_system && ps[i].id == id
                        && ps[i].title == title;
                if i < rest.len() {
                    assert(rest[i] == ps[i]);
                }
                assert(all[all.len() - 1] == (id, title));
            }
            if all.contains((id, title)) {
                let k = choose|k: int| 0 <= k < all.len() && all[k] == (id, title);
                if k < before.len() {
                    assert(before[k] == (id, title));
                }
                assert(ps[ps.len() - 1] == ps.last());
            }
        }
    }
}

/// What is chosen is to be added to one of the playlists that can be: all of those are
/// offered and no other, and nothing is added yet.
pub proof fn what_is_chosen_is_to_be_added(
    s: StateView,
    b: BehaviourConfig,
    id: Seq<char>,
    title: Seq<char>,
)
    requires
        s.modal is None,
        !s.guest,
        s.targets().len() > 0,
        edits::editable(s.playlists).len() > 0,
    ensures
        ({
            let step = s.dispatched(InputAction::AddToPlaylist, b);
            &&& step.sent.len() == 0 && step.task is None
            &&& step.state.modal matches Some(ModalView::PickPlaylist { targets, choices, selected })
                && selected == 0 && targets.len() == s.targets().len() && (forall|i: int|
                0 <= i < targets.len() ==> #[trigger] targets[i] == s.targets()[i].video_id) && (
            choices.contains((id, title)) <==> exists|i: int|
                0 <= i < s.playlists.len() && !(#[trigger] s.playlists[i]).is_system
                    && s.playlists[i].id == id && s.playlists[i].title == title)
            &&& StateView { modal: None, ..step.state } == s
        }),
{
    reveal(StateView::arranged);
    lemma_editable(s.playlists, id, title);
}

/// Where nothing is chosen, or no playlist can be added to, the user is told.
pub proof fn without_anything_to_add_the_user_is_told(s: StateView, b: BehaviourConfig)
    requires
        s.modal is None,
        !s.guest,
        s.targets().len() == 0 || edits::editable(s.playlists).len() == 0,
    ensures
        ({
            let step = s.dispatched(InputAction::AddToPlaylist, b);
            &&& step.sent.len() == 0 && step.task is None
            &&& step.state.modal is None
            &&& says(s, step.state, ToastKind::Error)
        }),
{
    reveal(StateView::arranged);
    reveal(StateView::told);
    reveal(StateView::toasted);
    assert(s.dispatched(InputAction::AddToPlaylist, b).state.toasts.drop_last() =~= s.toasts);
}

/// The playlist under the picker's cursor is the one the source is asked to add to, all that
/// was chosen in its order; the marks are used up.
pub proof fn what_is_picked_is_added_to(
    s: StateView,
    b: BehaviourConfig,
    targets: Seq<Seq<char>>,
    choices: Seq<(Seq<char>, Seq<char>)>,
    at: usize,
)
    requires
        s.modal == Some(ModalView::PickPlaylist { targets, choices, selected: at }),
        at < choices.len(),
    ensures
        ({
            let step = s.dispatched(InputAction::Confirm, b);
            &&& step.sent.len() == 0 && step.state.modal is None
            &&& step.task == Some(
                TaskView::Mutate {
                    token: s.pending.next,
                    task: MutationTaskView::AddTracks { id: choices[at as int].0, videos: targets },
                },
            )
            &&& same_lists(s, step.state)
            &&& has_no_marks(step.state)
        }),
{
    reveal(StateView::in_modal);
    reveal(StateView::begun);
    reveal(StateView::edited);
    reveal(StateView::unmarked);
}

proof fn lemma_entries(ts: Seq<TrackView>, ids: Seq<Seq<char>>, e: Seq<char>)
    ensures
        edits::entries_of(ts, ids).contains(e) <==> exists|i: int|
            0 <= i < ts.len() && (#[trigger] ts[i]).set_video_id == Some(e) && ids.contains(
                ts[i].video_id,
            ),
    decreases ts.len(),
{
    if ts.len() > 0 {
        let rest = ts.drop_last();
        lemma_entries(rest, ids, e);
        let before = edits::entries_of(rest, ids);
        let all = edits::entries_of(ts, ids);
        if before.contains(e) {
            let k = choose|k: int| 0 <= k < before.len() && before[k] == e;
            assert(all[k] == e);
            let i = choose|i: int|
                0 <= i < rest.len() && (#[trigger] rest[i]).set_video_id == Some(e) && ids.contains(
                    rest[i].video_id,
                );
            assert(ts[i] == rest[i]);
        } else {
            if exists|i: int|
                0 <= i < ts.len() && (#[trigger] ts[i]).set_video_id == Some(e) && ids.contains(
                    ts[i].video_id,
                ) {
                let i = choose|i: int|
                    0 <= i < ts.len() && (#[trigger] ts[i]).set_video_id == Some(e) && ids.contains(
                        ts[i].video_id,
                    );
                if i < rest.len() {
                    assert(rest[i] == ts[i]);
                }
                assert(all[all.len() - 1] == e);
            }
            if all.contains(e) {
                let k = choose|k: int| 0 <= k < all.len() && all[k] == e;
                if k < before.len() {
                    assert(before[k] == e);
                }
                assert(ts[ts.len() - 1] == ts.last());
            }
        }
    }
}

/// Tracks are removed from the playlist that is open, after a question about exactly the
/// entries of those that are chosen.
pub proof fn a_removal_is_asked_about(
    s: StateView,
    b: BehaviourConfig,
    playlist: Seq<char>,
    e: Seq<char>,
)
    requires
        s.modal is None,
        !s.guest,
        s.pane is Playlists,
        s.open_playlist == Some(playlist),
    ensures
        ({
            let step = s.dispatched(InputAction::RemoveFromPlaylist, b);
            let named = exists|i: int|
                0 <= i < s.tracks.len() && (#[trigger] s.tracks[i]).set_video_id == Some(e)
                    && edits::ids_of(s.targets()).contains(s.tracks[i].video_id);
            &&& step.sent.len() == 0 && step.task is None
            &&& same_lists(s, step.state)
            &&& match step.state.modal {
                Some(ModalView::Confirm { text: _, action }) => (
                action matches ConfirmActionView::RemoveTracks { playlist: p, entries } && p
                    == playlist && entries.len() > 0 && (entries.contains(e) <==> named)),
                _ => step.state.modal is None && !named && says(s, step.state, ToastKind::Error),
            }
        }),
{
    reveal(StateView::arranged);
    reveal(StateView::told);
    reveal(StateView::toasted);
    lemma_entries(s.tracks, edits::ids_of(s.targets()), e);
    let after = s.dispatched(InputAction::RemoveFromPlaylist, b).state;
    if after.modal is None {
        assert(after.toasts.drop_last() =~= s.toasts);
    }
}

/// A change is asked of the source as it was made, once the source is there.
pub proof fn a_change_is_requested_as_it_was_made(
    s: StateView,
    m: Means,
    token: u64,
    task: MutationTaskView,
)
    requires
        m.source,
    ensures
        ({
            let request = s.spawning(TaskView::Mutate { token, task }, m).1.request();
            match task {
                MutationTaskView::Create { title, description, privacy } => request == Some(
                    RequestView::CreatePlaylist { title, description, privacy },
                ),
                MutationTaskView::Rename { id, title } => request == Some(
                    RequestView::EditPlaylist {
                        id,
                        title: Some(title),
                        description: None,
                        privacy: None,
                    },
                ),
                MutationTaskView::Delete { id } => request == Some(RequestView::DeletePlaylist(id)),
                MutationTaskView::AddTracks { id, videos } => request == Some(
                    RequestView::AddTracks { id, videos },
                ),
                MutationTaskView::RemoveTracks { id, entries } => request == Some(
                    RequestView::RemoveTracks { id, entries },
                ),
            }
        }),
        s.spawning(TaskView::Mutate { token, task }, m).0 == s,
{
    reveal(StateView::spawning);
}

/// A change that was made keeps what was shown, is no longer under way, and is said; one
/// that was refused is said in the source's own words.
pub proof fn a_change_is_settled_by_its_answer(
    s: StateView,
    token: u64,
    task: MutationTaskView,
    reply: ReplyView,
    ev: AppEvent,
)
    requires
        background::answered(TaskView::Mutate { token, task }, reply) == Some(ev.deep_view()),
    ensures
        ({
            let t = s.after(ev);
            &&& reply is Failed ==> says(s, t, ToastKind::Error) && t.toasts.last().text
                == reply->Failed_0.message()
            &&& !(reply is Failed) ==> says(s, t, ToastKind::Success) && t.tracks == s.tracks
            &&& !(reply is Failed) && !(task is Create) ==> reply is Done && same_lists(s, t)
            &&& t.pending == s.pending.settled(token)
        }),
        background::answered(TaskView::Mutate { token, task }, ReplyView::Done) is Some
            <==> !(task is Create),
{
    reveal(StateView::after);
    reveal(StateView::committed);
    reveal(StateView::rolled_back);
    reveal(StateView::unedited);
    reveal(StateView::told);
    reveal(StateView::toasted);
    let t = s.after(ev);
    assert(t.toasts.drop_last() =~= s.toasts);
}

} // verus!
