//! Playlist editing: the prompts and questions that lead to an edit, and the edit
//! that answering one starts.

use crate::app::{
    self, AppState, ConfirmAction, ConfirmActionView, Modal, ModalView, PromptAction,
    PromptActionView, StateView, ToastKind,
};
use crate::copied::Copied;
use crate::marks::MarkSet;
use crate::model::{
    Playlist, PlaylistId, PlaylistView, Privacy, SetVideoId, Track, TrackView, VideoId,
};
use crate::mutation::{self, Mutation, MutationView};
use crate::queue;
use crate::reducer::{self, find_playlist};
use crate::tasks::{MutationTask, MutationTaskView};
use crate::text::{self, join3, push_decimal, trim};
use vstd::prelude::*;

verus! {

/// An edit under way: its token and the call it needs.
pub type EditView = Option<(u64, MutationTaskView)>;

/// The model of what an edit function hands back.
pub open spec fn edit_view(r: Option<(u64, MutationTask)>) -> EditView {
    match r {
        Some((token, task)) => Some((token, task.deep_view())),
        None => None,
    }
}

/// The id of a row the server has not named yet.
pub open spec fn temp_id(token: u64) -> Seq<char> {
    "ytm-tui-temp-"@ + text::decimal(token as nat)
}

fn temp_playlist_id(token: u64) -> (r: PlaylistId)
    ensures
        r.deep_view() == temp_id(token),
{
    let mut s = "ytm-tui-temp-".to_owned();
    push_decimal(&mut s, token);
    PlaylistId(s)
}

impl StateView {
    /// The marked rows in the order of the list, else the one under the cursor.
    pub open spec fn targets(self) -> Seq<TrackView> {
        if self.marked != Set::<Seq<char>>::empty() {
            chosen(self.track_rows(), self.marked)
        } else {
            match self.selected_track() {
                Some(t) => seq![t],
                None => Seq::empty(),
            }
        }
    }

    /// The edit that submitting the open prompt starts. Without a name nothing starts.
    pub open spec fn submitted(self) -> (StateView, EditView) {
        match self.modal {
            Some(ModalView::Prompt { title: _, value, action }) => {
                let name = text::trimmed(value);
                let s = StateView { modal: None, ..self };
                if name.len() == 0 {
                    (self.told(ToastKind::Error, "a name is required"@), None)
                } else {
                    match action {
                        PromptActionView::CreatePlaylist => {
                            let temp = PlaylistView::stub(temp_id(self.pending.next), name);
                            (
                                s.begun(MutationView::CreatePlaylist { temp }),
                                Some(
                                    (
                                        self.pending.next,
                                        MutationTaskView::Create {
                                            title: name,
                                            description: None,
                                            privacy: Privacy::Private,
                                        },
                                    ),
                                ),
                            )
                        },
                        PromptActionView::RenamePlaylist(id) => match reducer::playlist_at(
                            self.playlists,
                            id,
                        ) {
                            None => (s, None),
                            Some(i) => (
                                s.begun(
                                    MutationView::RenamePlaylist {
                                        id,
                                        previous: self.playlists[i].title,
                                        next: name,
                                    },
                                ),
                                Some(
                                    (
                                        self.pending.next,
                                        MutationTaskView::Rename { id, title: name },
                                    ),
                                ),
                            ),
                        },
                    }
                }
            },
            _ => (self, None),
        }
    }

    /// With the prompt for a new playlist's name open.
    pub open spec fn create_prompted(self) -> StateView {
        StateView {
            modal: Some(
                ModalView::Prompt {
                    title: "New playlist name"@,
                    value: Seq::empty(),
                    action: PromptActionView::CreatePlaylist,
                },
            ),
            ..self
        }
    }

    /// With the prompt open that renames the playlist under the cursor. One the
    /// service manages is refused.
    pub open spec fn rename_prompted(self) -> (StateView, Option<Seq<char>>) {
        match self.selected_playlist() {
            None => (self, None),
            Some(p) => if p.is_system {
                (
                    self.told(ToastKind::Error, "\""@ + p.title + "\" cannot be renamed"@),
                    None,
                )
            } else {
                (
                    StateView {
                        modal: Some(
                            ModalView::Prompt {
                                title: "Rename playlist"@,
                                value: p.title,
                                action: PromptActionView::RenamePlaylist(p.id),
                            },
                        ),
                        ..self
                    },
                    Some(p.id),
                )
            },
        }
    }

    /// With the question open that deletes the playlist under the cursor. One the
    /// service manages is refused.
    pub open spec fn delete_asked(self) -> StateView {
        match self.selected_playlist() {
            None => self,
            Some(p) => if p.is_system {
                self.told(
                    ToastKind::Error,
                    "\""@ + p.title + "\" is managed by YouTube Music and cannot be deleted"@,
                )
            } else {
                StateView {
                    modal: Some(
                        ModalView::Confirm {
                            text: "Delete \""@ + p.title + "\"? This cannot be undone."@,
                            action: ConfirmActionView::DeletePlaylist(p.id),
                        },
                    ),
                    ..self
                }
            },
        }
    }

    /// The edit that saying yes to the open question starts.
    pub open spec fn confirmed(self) -> (StateView, EditView) {
        let s = StateView { modal: None, ..self };
        match self.modal {
            Some(ModalView::Confirm { text: _, action }) => match action {
                ConfirmActionView::Quit => (s, None),
                ConfirmActionView::DeletePlaylist(id) => match reducer::playlist_at(self.playlists, id) {
                    None => (s, None),
                    Some(i) => (
                        s.begun(
                            MutationView::DeletePlaylist {
                                id,
                                index: i as usize,
                                snapshot: self.playlists[i],
                            },
                        ),
                        Some((self.pending.next, MutationTaskView::Delete { id })),
                    ),
                },
                ConfirmActionView::RemoveTracks { playlist, entries } => (
                    s.begun(
                        MutationView::RemoveTracks {
                            playlist,
                            removed: rows_of_entries(self.tracks, entries),
                        },
                    ),
                    Some(
                        (
                            self.pending.next,
                            MutationTaskView::RemoveTracks { id: playlist, entries },
                        ),
                    ),
                ),
            },
            _ => (s, None),
        }
    }

    /// With the picker open that adds the chosen tracks to a playlist.
    pub open spec fn picker_opened(self) -> StateView {
        let ids = ids_of(self.targets());
        let choices = editable(self.playlists);
        if ids.len() == 0 {
            self.told(ToastKind::Error, "nothing selected"@)
        } else if choices.len() == 0 {
            self.told(
                ToastKind::Error,
                "no editable playlist to add to \u{2014} create one with N"@,
            )
        } else {
            StateView {
                modal: Some(ModalView::PickPlaylist { targets: ids, choices, selected: 0 }),
                ..self
            }
        }
    }

    /// The edit that choosing a playlist in the open picker starts. The marks were
    /// its input, and are used up.
    pub open spec fn picked(self) -> (StateView, EditView) {
        let s = StateView { modal: None, ..self };
        match self.modal {
            Some(ModalView::PickPlaylist { targets, choices, selected }) => if selected
                < choices.len() {
                let id = choices[selected as int].0;
                (
                    s.begun(
                        MutationView::AddTracks { playlist: id, count: targets.len() as usize },
                    ).unmarked(),
                    Some(
                        (
                            self.pending.next,
                            MutationTaskView::AddTracks { id, videos: targets },
                        ),
                    ),
                )
            } else {
                (s, None)
            },
            _ => (s, None),
        }
    }

    /// With the question open that removes the chosen tracks from the open playlist.
    pub open spec fn removal_asked(self) -> StateView {
        match self.open_playlist {
            None => self.told(ToastKind::Error, "open a playlist first"@),
            Some(playlist) => {
                let entries = entries_of(self.tracks, ids_of(self.targets()));
                if entries.len() == 0 {
                    self.told(
                        ToastKind::Error,
                        "these tracks cannot be removed \u{2014} try refreshing the playlist"@,
                    )
                } else {
                    StateView {
                        modal: Some(
                            ModalView::Confirm {
                                text: "Remove "@ + text::decimal(entries.len())
                                    + " track(s) from this playlist?"@,
                                action: ConfirmActionView::RemoveTracks { playlist, entries },
                            },
                        ),
                        ..self
                    }
                }
            },
        }
    }
}

/// The marked tracks of a list, in its order.
pub open spec fn chosen(rows: Seq<TrackView>, marked: Set<Seq<char>>) -> Seq<TrackView>
    decreases rows.len(),
{
    if rows.len() == 0 {
        Seq::empty()
    } else if marked.contains(rows.last().video_id) {
        chosen(rows.drop_last(), marked).push(rows.last())
    } else {
        chosen(rows.drop_last(), marked)
    }
}

pub fn choose_marked(rows: &Vec<Track>, marked: &MarkSet) -> (r: Vec<Track>)
    ensures
        r.deep_view() == chosen(rows.deep_view(), marked@),
{
    let mut out: Vec<Track> = Vec::new();
    let mut i: usize = 0;
    assert(out.deep_view() =~= chosen(rows.deep_view().take(0), marked@));
    while i < rows.len()
        invariant
            i <= rows@.len(),
            out.deep_view() == chosen(rows.deep_view().take(i as int), marked@),
        decreases rows@.len() - i,
    {
        let ghost upto = rows.deep_view().take(i + 1);
        let ghost before = out.deep_view();
        assert(upto.last() == rows@[i as int].deep_view());
        assert(upto.drop_last() =~= rows.deep_view().take(i as int));
        if marked.contains(&rows[i].video_id) {
            out.push(rows[i].copy());
            assert(out.deep_view() =~= before.push(upto.last()));
        }
        i += 1;
    }
    assert(rows.deep_view().take(i as int) =~= rows.deep_view());
    out
}

/// The ids of some tracks.
pub open spec fn ids_of(ts: Seq<TrackView>) -> Seq<Seq<char>> {
    Seq::new(ts.len(), |i: int| ts[i].video_id)
}

pub fn collect_ids(ts: &Vec<Track>) -> (r: Vec<VideoId>)
    ensures
        r.deep_view() == ids_of(ts.deep_view()),
{
    let mut out: Vec<VideoId> = Vec::new();
    let mut i: usize = 0;
    while i < ts.len()
        invariant
            i <= ts@.len(),
            out@.len() == i,
            forall|k: int| 0 <= k < i ==> out@[k].deep_view() == ts@[k].video_id.deep_view(),
        decreases ts@.len() - i,
    {
        out.push(ts[i].video_id.copy());
        i += 1;
    }
    assert(out.deep_view() =~= ids_of(ts.deep_view()));
    out
}

/// The playlists that can be added to.
pub open spec fn editable(ps: Seq<PlaylistView>) -> Seq<(Seq<char>, Seq<char>)>
    decreases ps.len(),
{
    if ps.len() == 0 {
        Seq::empty()
    } else if ps.last().is_system {
        editable(ps.drop_last())
    } else {
        editable(ps.drop_last()).push((ps.last().id, ps.last().title))
    }
}

fn collect_editable(ps: &Vec<Playlist>) -> (r: Vec<(PlaylistId, String)>)
    ensures
        r.deep_view() == editable(ps.deep_view()),
{
    let mut out: Vec<(PlaylistId, String)> = Vec::new();
    let mut i: usize = 0;
    assert(out.deep_view() =~= editable(ps.deep_view().take(0)));
    while i < ps.len()
        invariant
            i <= ps@.len(),
            out.deep_view() == editable(ps.deep_view().take(i as int)),
        decreases ps@.len() - i,
    {
        let ghost upto = ps.deep_view().take(i + 1);
        let ghost before = out.deep_view();
        assert(upto.last() == ps@[i as int].deep_view());
        assert(upto.drop_last() =~= ps.deep_view().take(i as int));
        if !ps[i].is_system {
            out.push((ps[i].id.copy(), ps[i].title.clone()));
            assert(out.deep_view() =~= before.push((upto.last().id, upto.last().title)));
        }
        i += 1;
    }
    assert(ps.deep_view().take(i as int) =~= ps.deep_view());
    out
}

/// The playlist entries of the tracks with these ids.
pub open spec fn entries_of(ts: Seq<TrackView>, ids: Seq<Seq<char>>) -> Seq<Seq<char>>
    decreases ts.len(),
{
    if ts.len() == 0 {
        Seq::empty()
    } else {
        let rest = entries_of(ts.drop_last(), ids);
        match ts.last().set_video_id {
            Some(sv) => if ids.contains(ts.last().video_id) {
                rest.push(sv)
            } else {
                rest
            },
            None => rest,
        }
    }
}

fn has_id(ids: &Vec<VideoId>, id: &VideoId) -> (r: bool)
    ensures
        r == ids.deep_view().contains(id.deep_view()),
{
    let mut i: usize = 0;
    while i < ids.len()
        invariant
            i <= ids@.len(),
            forall|k: int| 0 <= k < i ==> ids@[k].deep_view() != id.deep_view(),
        decreases ids@.len() - i,
    {
        if ids[i].same(id) {
            assert(ids.deep_view()[i as int] == id.deep_view());
            return true;
        }
        i += 1;
    }
    assert forall|k: int| 0 <= k < ids.deep_view().len() implies ids.deep_view()[k]
        != id.deep_view() by {
        assert(ids@[k].deep_view() != id.deep_view());
    }
    false
}

fn has_entry(ids: &Vec<SetVideoId>, id: &SetVideoId) -> (r: bool)
    ensures
        r == ids.deep_view().contains(id.deep_view()),
{
    let mut i: usize = 0;
    while i < ids.len()
        invariant
            i <= ids@.len(),
            forall|k: int| 0 <= k < i ==> ids@[k].deep_view() != id.deep_view(),
        decreases ids@.len() - i,
    {
        if ids[i].same(id) {
            assert(ids.deep_view()[i as int] == id.deep_view());
            return true;
        }
        i += 1;
    }
    assert forall|k: int| 0 <= k < ids.deep_view().len() implies ids.deep_view()[k]
        != id.deep_view() by {
        assert(ids@[k].deep_view() != id.deep_view());
    }
    false
}

fn collect_entries(ts: &Vec<Track>, ids: &Vec<VideoId>) -> (r: Vec<SetVideoId>)
    ensures
        r.deep_view() == entries_of(ts.deep_view(), ids.deep_view()),
{
    let mut out: Vec<SetVideoId> = Vec::new();
    let mut i: usize = 0;
    assert(out.deep_view() =~= entries_of(ts.deep_view().take(0), ids.deep_view()));
    while i < ts.len()
        invariant
            i <= ts@.len(),
            out.deep_view() == entries_of(ts.deep_view().take(i as int), ids.deep_view()),
        decreases ts@.len() - i,
    {
        let ghost upto = ts.deep_view().take(i + 1);
        let ghost before = out.deep_view();
        assert(upto.last() == ts@[i as int].deep_view());
        assert(upto.drop_last() =~= ts.deep_view().take(i as int));
        match &ts[i].set_video_id {
            None => {},
            Some(sv) => {
                if has_id(ids, &ts[i].video_id) {
                    out.push(sv.copy());
                    assert(out.deep_view() =~= before.push(sv.deep_view()));
                }
            },
        }
        i += 1;
    }
    assert(ts.deep_view().take(i as int) =~= ts.deep_view());
    out
}

/// The tracks that are one of these entries, with their places.
pub open spec fn rows_of_entries(
    ts: Seq<TrackView>,
    entries: Seq<Seq<char>>,
) -> Seq<(usize, TrackView)>
    decreases ts.len(),
{
    if ts.len() == 0 {
        Seq::empty()
    } else {
        let rest = rows_of_entries(ts.drop_last(), entries);
        match ts.last().set_video_id {
            Some(sv) => if entries.contains(sv) {
                rest.push(((ts.len() - 1) as usize, ts.last()))
            } else {
                rest
            },
            None => rest,
        }
    }
}

fn collect_rows(ts: &Vec<Track>, entries: &Vec<SetVideoId>) -> (r: Vec<(usize, Track)>)
    ensures
        r.deep_view() == rows_of_entries(ts.deep_view(), entries.deep_view()),
{
    let mut out: Vec<(usize, Track)> = Vec::new();
    let mut i: usize = 0;
    assert(out.deep_view() =~= rows_of_entries(ts.deep_view().take(0), entries.deep_view()));
    while i < ts.len()
        invariant
            i <= ts@.len(),
            out.deep_view() == rows_of_entries(ts.deep_view().take(i as int), entries.deep_view()),
        decreases ts@.len() - i,
    {
        let ghost upto = ts.deep_view().take(i + 1);
        let ghost before = out.deep_view();
        assert(upto.last() == ts@[i as int].deep_view());
        assert(upto.drop_last() =~= ts.deep_view().take(i as int));
        match &ts[i].set_video_id {
            None => {},
            Some(sv) => {
                if has_entry(entries, sv) {
                    out.push((i, ts[i].copy()));
                    assert(out.deep_view() =~= before.push((i, upto.last())));
                }
            },
        }
        i += 1;
    }
    assert(ts.deep_view().take(i as int) =~= ts.deep_view());
    out
}

/// The rows of some entries are rows of the list, in its order.
pub proof fn rows_of_entries_are_rows(ts: Seq<TrackView>, entries: Seq<Seq<char>>)
    requires
        ts.len() <= usize::MAX,
    ensures
        mutation::taken_from(rows_of_entries(ts, entries), ts),
    decreases ts.len(),
{
    if ts.len() > 0 {
        let shorter = ts.drop_last();
        rows_of_entries_are_rows(shorter, entries);
        let rest = rows_of_entries(shorter, entries);
        let all = rows_of_entries(ts, entries);
        assert forall|k: int| 0 <= k < all.len() implies (#[trigger] all[k]).0 < ts.len()
            && all[k].1 == ts[all[k].0 as int] by {
            if k < rest.len() {
                assert(all[k] == rest[k]);
                assert(shorter[rest[k].0 as int] == ts[rest[k].0 as int]);
            }
        }
        assert forall|j: int, k: int| 0 <= j < k < all.len() implies (#[trigger] all[j]).0
            < (#[trigger] all[k]).0 by {
            assert(all[j] == rest[j]);
            if k < rest.len() {
                assert(all[k] == rest[k]);
            }
        }
    }
}

/// Whether a track is one of these entries. A track that is no entry of a playlist is
/// none of them.
pub open spec fn is_entry(t: TrackView, entries: Seq<Seq<char>>) -> bool {
    t.set_video_id matches Some(sv) && entries.contains(sv)
}

/// Dropping the rows of some entries leaves exactly the tracks that are none of them, in
/// their order.
pub proof fn only_the_entries_are_dropped(ts: Seq<TrackView>, entries: Seq<Seq<char>>)
    requires
        ts.len() <= usize::MAX,
    ensures
        mutation::dropped(ts, rows_of_entries(ts, entries)) == ts.filter(
            |t: TrackView| !is_entry(t, entries),
        ),
    decreases ts.len(),
{
    reveal(Seq::filter);
    let rows = rows_of_entries(ts, entries);
    if ts.len() > 0 {
        let shorter = ts.drop_last();
        let rest = rows_of_entries(shorter, entries);
        only_the_entries_are_dropped(shorter, entries);
        if is_entry(ts.last(), entries) {
            assert(rows.drop_last() =~= rest);
            assert(queue::without(ts, ts.len() - 1) =~= shorter);
        } else {
            rows_of_entries_are_rows(shorter, entries);
            lemma_dropped_below(shorter, ts.last(), rest);
            assert(shorter.push(ts.last()) =~= ts);
        }
    }
}

proof fn lemma_dropped_below(s: Seq<TrackView>, t: TrackView, removed: Seq<(usize, TrackView)>)
    requires
        forall|k: int| 0 <= k < removed.len() ==> (#[trigger] removed[k]).0 < s.len(),
        forall|j: int, k: int|
            0 <= j < k < removed.len() ==> (#[trigger] removed[j]).0 < (#[trigger] removed[k]).0,
    ensures
        mutation::dropped(s.push(t), removed) == mutation::dropped(s, removed).push(t),
    decreases removed.len(),
{
    if removed.len() > 0 {
        let i = removed.last().0 as int;
        let rest = removed.drop_last();
        assert(removed[removed.len() - 1].0 < s.len());
        assert(queue::without(s.push(t), i) =~= queue::without(s, i).push(t));
        assert forall|k: int| 0 <= k < rest.len() implies (#[trigger] rest[k]).0 < queue::without(
            s,
            i,
        ).len() by {
            assert(removed[k].0 < removed[removed.len() - 1].0);
        }
        assert forall|j: int, k: int| 0 <= j < k < rest.len() implies (#[trigger] rest[j]).0
            < (#[trigger] rest[k]).0 by {
            assert(rest[j] == removed[j] && rest[k] == removed[k]);
        }
        lemma_dropped_below(queue::without(s, i), t, rest);
    }
}

/// A removal that was agreed to takes exactly the named entries off the screen, whatever
/// playlist is open, and asks the server for the same; taken back, it leaves the tracks
/// as they were.
pub proof fn a_removal_can_be_undone(
    s: StateView,
    text: Seq<char>,
    playlist: Seq<char>,
    entries: Seq<Seq<char>>,
)
    requires
        s.modal == Some(
            ModalView::Confirm { text, action: ConfirmActionView::RemoveTracks { playlist, entries } },
        ),
        s.pending.next < u64::MAX,
        s.tracks.len() <= usize::MAX,
    ensures
        ({
            let (t, task) = s.confirmed();
            &&& t.tracks == s.tracks.filter(|t: TrackView| !is_entry(t, entries))
            &&& t.modal is None
            &&& task == Some(
                (s.pending.next, MutationTaskView::RemoveTracks { id: playlist, entries }),
            )
            &&& t.rolled_back(s.pending.next).tracks == s.tracks
        }),
{
    let closed = StateView { modal: None, ..s };
    let m = MutationView::RemoveTracks { playlist, removed: rows_of_entries(s.tracks, entries) };
    only_the_entries_are_dropped(s.tracks, entries);
    rows_of_entries_are_rows(s.tracks, entries);
    reducer::a_refused_edit_leaves_no_trace(closed, m);
    assert(s.confirmed().0.tracks == mutation::dropped(
        s.tracks,
        rows_of_entries(s.tracks, entries),
    ) && s.confirmed().0.modal is None) by {
        reveal(StateView::begun);
        reveal(StateView::edited);
        reveal(StateView::clamped);
    }
}

/// The marked rows, else the one under the cursor: what a bulk action works on.
pub fn queue_targets(state: &AppState) -> (r: Vec<Track>)
    ensures
        r.deep_view() == state@.targets(),
{
    proof {
        app::state_shows_its_switches(state);
    }
    if !state.marked.is_empty() {
        let rows = state.track_rows();
        choose_marked(&rows, &state.marked)
    } else {
        let mut out: Vec<Track> = Vec::new();
        match state.selected_track() {
            None => {
                assert(out.deep_view() =~= Seq::<TrackView>::empty());
            },
            Some(t) => {
                let ghost v = t.deep_view();
                out.push(t);
                assert(out.deep_view() =~= seq![v]);
            },
        }
        out
    }
}

/// Marked tracks if any, otherwise the selected one, in the order of the rows.
pub fn targets_for_add(state: &AppState) -> (r: Vec<VideoId>)
    ensures
        r.deep_view() == ids_of(state@.targets()),
{
    let ts = queue_targets(state);
    collect_ids(&ts)
}

/// Applies an open prompt and hands back the edit with the call it needs. An empty
/// name is refused before any row appears, so there is nothing to roll back.
pub fn submit_prompt(state: &mut AppState) -> (r: Option<(u64, MutationTask)>)
    requires
        old(state)@.pending.next < u64::MAX,
    ensures
        (final(state)@, edit_view(r)) == old(state)@.submitted(),
{
    proof {
        app::state_shows_its_fields(&*state);
    }
    let (title, action): (String, PromptAction) = match &state.modal {
        Some(Modal::Prompt { value, action, .. }) => (trim(value.as_str()), action.copy()),
        _ => {
            return None;
        },
    };
    if title.as_str().is_empty() {
        state.tell(ToastKind::Error, "a name is required");
        return None;
    }
    match action {
        PromptAction::CreatePlaylist => {
            let id = temp_playlist_id(state.pending.peek_token());
            let temp = Playlist::stub(id.as_str(), title.as_str());
            state.set_modal(None);
            let token = state.begin_mutation(Mutation::CreatePlaylist { temp });
            Some(
                (token, MutationTask::Create { title, description: None, privacy: Privacy::Private }),
            )
        },
        PromptAction::RenamePlaylist(id) => {
            let at = find_playlist(&state.playlists, &id);
            match at {
                None => {
                    state.set_modal(None);
                    None
                },
                Some(i) => {
                    let previous = state.playlists[i].title.clone();
                    state.set_modal(None);
                    let token = state.begin_mutation(
                        Mutation::RenamePlaylist { id: id.copy(), previous, next: title.clone() },
                    );
                    Some((token, MutationTask::Rename { id, title }))
                },
            }
        },
    }
}

/// Opens the create prompt. Always allowed: it depends on no selection.
pub fn open_create_prompt(state: &mut AppState)
    ensures
        final(state)@ == old(state)@.create_prompted(),
{
    state.set_modal(
        Some(
            Modal::Prompt {
                title: "New playlist name".to_owned(),
                value: String::new(),
                action: PromptAction::CreatePlaylist,
            },
        ),
    );
}

/// Opens the rename prompt for the selected playlist, pre-filled with its title.
pub fn open_rename_prompt(state: &mut AppState) -> (r: Option<PlaylistId>)
    ensures
        (final(state)@, r.deep_view()) == old(state)@.rename_prompted(),
{
    match state.selected_playlist() {
        None => None,
        Some(p) => {
            if p.is_system {
                let msg = join3("\"", p.title.as_str(), "\" cannot be renamed");
                state.tell(ToastKind::Error, msg.as_str());
                None
            } else {
                state.set_modal(
                    Some(
                        Modal::Prompt {
                            title: "Rename playlist".to_owned(),
                            value: p.title.clone(),
                            action: PromptAction::RenamePlaylist(p.id.copy()),
                        },
                    ),
                );
                Some(p.id)
            }
        },
    }
}

/// Asks before deleting. Refuses a playlist the service manages outright: no
/// question about an action that cannot succeed.
pub fn open_delete_confirm(state: &mut AppState)
    ensures
        final(state)@ == old(state)@.delete_asked(),
{
    match state.selected_playlist() {
        None => {},
        Some(p) => {
            if p.is_system {
                let msg = join3(
                    "\"",
                    p.title.as_str(),
                    "\" is managed by YouTube Music and cannot be deleted",
                );
                state.tell(ToastKind::Error, msg.as_str());
            } else {
                let text = join3("Delete \"", p.title.as_str(), "\"? This cannot be undone.");
                state.set_modal(
                    Some(Modal::Confirm { text, action: ConfirmAction::DeletePlaylist(p.id) }),
                );
            }
        },
    }
}

/// The answer was yes: shows the edit and hands back the work to do.
pub fn confirm_action(state: &mut AppState) -> (r: Option<(u64, MutationTask)>)
    requires
        old(state)@.pending.next < u64::MAX,
    ensures
        (final(state)@, edit_view(r)) == old(state)@.confirmed(),
{
    let modal = state.take_modal();
    proof {
        app::state_shows_its_fields(&*state);
    }
    match modal {
        Some(Modal::Confirm { text: _, action }) => match action {
            ConfirmAction::Quit => None,
            ConfirmAction::DeletePlaylist(id) => {
                let at = find_playlist(&state.playlists, &id);
                match at {
                    None => None,
                    Some(index) => {
                        let snapshot = state.playlists[index].copy();
                        let token = state.begin_mutation(
                            Mutation::DeletePlaylist { id: id.copy(), index, snapshot },
                        );
                        Some((token, MutationTask::Delete { id }))
                    },
                }
            },
            ConfirmAction::RemoveTracks { playlist, entries } => {
                // The places come from the list as it stands, so a rollback can put
                // each track back where it was.
                let removed = collect_rows(&state.tracks, &entries);
                let token = state.begin_mutation(
                    Mutation::RemoveTracks { playlist: playlist.copy(), removed },
                );
                Some((token, MutationTask::RemoveTracks { id: playlist, entries }))
            },
        },
        _ => None,
    }
}

/// Opens the picker for the marked or selected tracks. Only editable playlists are
/// offered: the service rejects an add to one it manages.
pub fn open_add_to_playlist(state: &mut AppState)
    ensures
        final(state)@ == old(state)@.picker_opened(),
{
    proof {
        app::state_shows_its_fields(&*state);
    }
    let targets = targets_for_add(state);
    assert(targets@.len() == targets.deep_view().len());
    if targets.len() == 0 {
        state.tell(ToastKind::Error, "nothing selected");
        return;
    }
    let choices = collect_editable(&state.playlists);
    assert(choices@.len() == choices.deep_view().len());
    if choices.len() == 0 {
        state.tell(
            ToastKind::Error,
            "no editable playlist to add to \u{2014} create one with N",
        );
        return;
    }
    state.set_modal(Some(Modal::PickPlaylist { targets, choices, selected: 0 }));
}

/// A playlist was picked: hands back the add to run. The tracks go to a playlist
/// that need not be on screen, so nothing shown changes.
pub fn submit_pick(state: &mut AppState) -> (r: Option<(u64, MutationTask)>)
    requires
        old(state)@.pending.next < u64::MAX,
    ensures
        (final(state)@, edit_view(r)) == old(state)@.picked(),
{
    match state.take_modal() {
        Some(Modal::PickPlaylist { targets, choices, selected }) => {
            assert(choices@.len() == choices.deep_view().len());
            assert(targets@.len() == targets.deep_view().len());
            if selected < choices.len() {
                let id = choices[selected].0.copy();
                let token = state.begin_mutation(
                    Mutation::AddTracks { playlist: id.copy(), count: targets.len() },
                );
                state.clear_marks();
                Some((token, MutationTask::AddTracks { id, videos: targets }))
            } else {
                None
            }
        },
        _ => None,
    }
}

/// Asks before removing tracks from the open playlist.
pub fn open_remove_confirm(state: &mut AppState)
    ensures
        final(state)@ == old(state)@.removal_asked(),
{
    proof {
        app::state_shows_its_fields(&*state);
    }
    let playlist: PlaylistId = match &state.open_playlist {
        None => {
            state.tell(ToastKind::Error, "open a playlist first");
            return;
        },
        Some(id) => id.copy(),
    };
    let targets = targets_for_add(state);
    let entries = collect_entries(&state.tracks, &targets);
    assert(entries@.len() == entries.deep_view().len());
    if entries.len() == 0 {
        state.tell(
            ToastKind::Error,
            "these tracks cannot be removed \u{2014} try refreshing the playlist",
        );
        return;
    }
    let mut text = "Remove ".to_owned();
    push_decimal(&mut text, entries.len() as u64);
    text.append(" track(s) from this playlist?");
    state.set_modal(
        Some(Modal::Confirm { text, action: ConfirmAction::RemoveTracks { playlist, entries } }),
    );
}

} // verus!
