//! What holds of several parts together: of an intent and the queue that carries it
//! out, of an edit and the answer that refuses it.

use crate::app::{self, ConfirmActionView, ModalView, PromptActionView, StateView, ToastKind};
use crate::app_loop::{self, Step};
use crate::config::BehaviourConfig;
use crate::edits;
use crate::event::{AppEvent, InputAction};
use crate::model::{PlaylistView, TrackView};
use crate::mutation::{self, MutationView, UnderwayView};
use crate::player::{self, PlayerCommandView};
use crate::queue::{self, QueueView};
use crate::reducer;
use crate::tasks::{MutationTaskView, TaskView};
use crate::text;
use vstd::prelude::*;

verus! {

/// A guest who asks for an edit of a playlist is told so, and nothing else happens.
pub proof fn a_guest_edits_no_playlist(s: StateView, a: InputAction, b: BehaviourConfig)
    requires
        s.guest,
        s.modal is None,
        s.is_account_action(a),
    ensures
        ({
            let step = s.dispatched(a, b);
            &&& step.state.modal is None
            &&& step.sent.len() == 0
            &&& step.task is None
            &&& step.state.playlists == s.playlists
            &&& step.state.tracks == s.tracks
            &&& step.state.pending == s.pending
        }),
{
    reveal(StateView::refused);
    reveal(StateView::told);
    reveal(StateView::toasted);
}

/// While an overlay is open the player is left alone, whatever is pressed.
pub proof fn an_overlay_keeps_keys_from_the_player(
    s: StateView,
    a: InputAction,
    b: BehaviourConfig,
)
    requires
        s.modal is Some,
    ensures
        s.dispatched(a, b).sent.len() == 0,
{
    reveal(StateView::in_modal);
}

/// A step of the volume, however large, ends at the ends, and the player is told where.
pub proof fn a_step_of_any_size_ends_at_the_ends(s: StateView, b: BehaviourConfig)
    requires
        s.modal is None,
    ensures
        ({
            let up = player::clamped(s.volume + b.volume_step, 0, 100) as u8;
            let down = player::clamped(s.volume - b.volume_step, 0, 100) as u8;
            &&& s.dispatched(InputAction::VolumeUp, b) == (Step {
                state: StateView { volume: up, ..s },
                sent: seq![PlayerCommandView::SetVolume(up)],
                task: None,
            })
            &&& s.dispatched(InputAction::VolumeDown, b) == (Step {
                state: StateView { volume: down, ..s },
                sent: seq![PlayerCommandView::SetVolume(down)],
                task: None,
            })
        }),
{
    reveal(StateView::transported);
    reveal(StateView::louder);
}

/// What is done to several rows is done in the order in which the list shows them,
/// not in the order in which they were marked.
pub proof fn targets_follow_the_order_of_the_list(rows: Seq<TrackView>, marked: Set<Seq<char>>)
    ensures
        edits::chosen(rows, marked).len() == app_loop::marked_places(rows, marked).len(),
        forall|k: int|
            0 <= k < edits::chosen(rows, marked).len() ==> #[trigger] edits::chosen(rows, marked)[k]
                == rows[app_loop::marked_places(rows, marked)[k]],
        forall|j: int, k: int|
            0 <= j < k < app_loop::marked_places(rows, marked).len()
                ==> #[trigger] app_loop::marked_places(rows, marked)[j]
                < #[trigger] app_loop::marked_places(rows, marked)[k],
    decreases rows.len(),
{
    let keep = Seq::new(rows.len(), |i: int| marked.contains(rows[i].video_id));
    app::lemma_kept(keep);
    if rows.len() > 0 {
        let less = rows.drop_last();
        targets_follow_the_order_of_the_list(less, marked);
        let rest = Seq::new(less.len(), |i: int| marked.contains(less[i].video_id));
        app::lemma_kept(rest);
        assert(keep.drop_last() =~= rest);
        let places = app_loop::marked_places(rows, marked);
        let fewer = app_loop::marked_places(less, marked);
        let all = edits::chosen(rows, marked);
        assert forall|k: int| 0 <= k < all.len() implies #[trigger] all[k] == rows[places[k]] by {
            if k < fewer.len() {
                assert(places[k] == fewer[k]);
                assert(all[k] == edits::chosen(less, marked)[k]);
                assert(rest[fewer[k]]);
                assert(less[fewer[k]] == rows[fewer[k]]);
            }
        }
    }
}

/// The queue once the player has carried out commands that edit it, in turn.
pub open spec fn obeyed(q: QueueView, cmds: Seq<PlayerCommandView>) -> QueueView
    decreases cmds.len(),
{
    if cmds.len() == 0 {
        q
    } else {
        obeyed(
            match cmds[0] {
                PlayerCommandView::RemoveFromQueue(i) => q.removed(i as int),
                PlayerCommandView::MoveInQueue { from, to } => q.reordered(from as int, to as int),
                PlayerCommandView::ClearQueue => q.cleared(),
                _ => q,
            },
            cmds.drop_first(),
        )
    }
}

/// The entries that are not marked, in their order.
pub open spec fn unmarked_of(ts: Seq<TrackView>, marked: Set<Seq<char>>) -> Seq<TrackView>
    decreases ts.len(),
{
    if ts.len() == 0 {
        Seq::empty()
    } else if marked.contains(ts.last().video_id) {
        unmarked_of(ts.drop_last(), marked)
    } else {
        unmarked_of(ts.drop_last(), marked).push(ts.last())
    }
}

/// A list without the entries at some places, the last taken out first.
spec fn taken_out(ts: Seq<TrackView>, places: Seq<int>) -> Seq<TrackView>
    decreases places.len(),
{
    if places.len() == 0 {
        ts
    } else {
        taken_out(queue::without(ts, places.last()), places.drop_last())
    }
}

/// Places in a list, in ascending order.
spec fn ascending_in(places: Seq<int>, n: int) -> bool {
    &&& forall|k: int| 0 <= k < places.len() ==> 0 <= #[trigger] places[k] < n
    &&& forall|j: int, k: int| 0 <= j < k < places.len() ==> #[trigger] places[j] < #[trigger] places[k]
}

proof fn lemma_fewer(places: Seq<int>, n: int)
    requires
        ascending_in(places, n),
        places.len() > 0,
    ensures
        ascending_in(places.drop_last(), places.last()),
{
    let less = places.drop_last();
    assert forall|k: int| 0 <= k < less.len() implies 0 <= #[trigger] less[k] < places.last() by {
        assert(less[k] == places[k]);
        assert(places[places.len() - 1] == places.last());
    }
    assert forall|j: int, k: int| 0 <= j < k < less.len() implies #[trigger] less[j]
        < #[trigger] less[k] by {
        assert(less[j] == places[j] && less[k] == places[k]);
    }
}

proof fn lemma_wider(places: Seq<int>, n: int, m: int)
    requires
        ascending_in(places, n),
        n <= m,
    ensures
        ascending_in(places, m),
{
}

proof fn lemma_obeys_removals(q: QueueView, places: Seq<int>)
    requires
        ascending_in(places, q.tracks.len() as int),
        q.tracks.len() <= usize::MAX,
    ensures
        obeyed(q, app_loop::removals(places)).tracks == taken_out(q.tracks, places),
    decreases places.len(),
{
    let cmds = app_loop::removals(places);
    if places.len() > 0 {
        let i = places.last();
        assert(places[places.len() - 1] == i);
        assert(cmds[0] == PlayerCommandView::RemoveFromQueue(i as usize));
        assert(cmds.drop_first() =~= app_loop::removals(places.drop_last()));
        lemma_fewer(places, q.tracks.len() as int);
        lemma_wider(places.drop_last(), i, q.removed(i).tracks.len() as int);
        lemma_obeys_removals(q.removed(i), places.drop_last());
    }
}

/// What stands last is left alone by what is taken out before it.
proof fn lemma_last_stays(ts: Seq<TrackView>, x: TrackView, places: Seq<int>)
    requires
        ascending_in(places, ts.len() as int),
    ensures
        taken_out(ts.push(x), places) == taken_out(ts, places).push(x),
    decreases places.len(),
{
    if places.len() > 0 {
        let i = places.last();
        assert(places[places.len() - 1] == i);
        assert(queue::without(ts.push(x), i) =~= queue::without(ts, i).push(x));
        lemma_fewer(places, ts.len() as int);
        lemma_wider(places.drop_last(), i, queue::without(ts, i).len() as int);
        lemma_last_stays(queue::without(ts, i), x, places.drop_last());
    }
}

proof fn lemma_marked_taken_out(ts: Seq<TrackView>, marked: Set<Seq<char>>)
    ensures
        taken_out(ts, app_loop::marked_places(ts, marked)) == unmarked_of(ts, marked),
    decreases ts.len(),
{
    let places = app_loop::marked_places(ts, marked);
    if ts.len() > 0 {
        let less = ts.drop_last();
        let keep = Seq::new(ts.len(), |i: int| marked.contains(ts[i].video_id));
        let rest = Seq::new(less.len(), |i: int| marked.contains(less[i].video_id));
        assert(keep.drop_last() =~= rest);
        let fewer = app_loop::marked_places(less, marked);
        app::lemma_kept(rest);
        assert(ascending_in(fewer, less.len() as int));
        lemma_marked_taken_out(less, marked);
        if marked.contains(ts.last().video_id) {
            assert(places =~= fewer.push(ts.len() - 1));
            assert(places.drop_last() =~= fewer);
            assert(queue::without(ts, ts.len() - 1) =~= less);
        } else {
            assert(places == fewer);
            lemma_last_stays(less, ts.last(), fewer);
            assert(less.push(ts.last()) =~= ts);
        }
    }
}

/// Removing the marked entries of the queue removes exactly those: once the player has
/// carried it out, what is left is what was not marked, in its order.
pub proof fn removing_takes_out_exactly_the_marked(s: StateView, q: QueueView)
    requires
        s.marked != Set::<Seq<char>>::empty(),
        q.tracks == s.queue,
        s.queue.len() <= usize::MAX,
    ensures
        obeyed(q, s.dequeued().sent).tracks == unmarked_of(s.queue, s.marked),
{
    reveal(StateView::dequeued);
    let keep = Seq::new(s.queue.len(), |i: int| s.marked.contains(s.queue[i].video_id));
    app::lemma_kept(keep);
    let places = app_loop::marked_places(s.queue, s.marked);
    assert(ascending_in(places, s.queue.len() as int));
    lemma_obeys_removals(q, places);
    lemma_marked_taken_out(s.queue, s.marked);
}

/// A list with the entries at some places each moved by one place: the last first on
/// the way down, the first first on the way up.
spec fn stepped(ts: Seq<TrackView>, places: Seq<int>, down: bool) -> Seq<TrackView>
    decreases places.len(),
{
    if places.len() == 0 {
        ts
    } else if down {
        let i = places.last();
        stepped(queue::moved(ts, i, i + 1), places.drop_last(), down)
    } else {
        let i = places[0];
        stepped(queue::moved(ts, i, i - 1), places.drop_first(), down)
    }
}

proof fn lemma_obeys_moves_down(q: QueueView, places: Seq<int>)
    requires
        ascending_in(places, q.tracks.len() - 1),
        q.tracks.len() <= usize::MAX,
    ensures
        obeyed(q, app_loop::moves(places, true)).tracks == stepped(q.tracks, places, true),
    decreases places.len(),
{
    let cmds = app_loop::moves(places, true);
    if places.len() > 0 {
        let i = places.last();
        assert(places[places.len() - 1] == i);
        assert(cmds[0] == PlayerCommandView::MoveInQueue { from: i as usize, to: (i + 1) as usize });
        assert(cmds.drop_first() =~= app_loop::moves(places.drop_last(), true));
        lemma_fewer(places, q.tracks.len() - 1);
        lemma_wider(places.drop_last(), i, q.tracks.len() - 1);
        lemma_obeys_moves_down(q.reordered(i, i + 1), places.drop_last());
    }
}

/// Each entry moves down by one; what is farther down than all of them stays.
proof fn lemma_steps_down(ts: Seq<TrackView>, places: Seq<int>)
    requires
        ascending_in(places, ts.len() - 1),
    ensures
        stepped(ts, places, true).len() == ts.len(),
        stepped(ts, places, true).to_multiset() == ts.to_multiset(),
        forall|k: int|
            0 <= k < places.len() ==> stepped(ts, places, true)[#[trigger] places[k] + 1]
                == ts[places[k]],
        forall|j: int|
            0 <= j < ts.len() && (places.len() > 0 ==> j > places.last() + 1)
                ==> #[trigger] stepped(ts, places, true)[j] == ts[j],
    decreases places.len(),
{
    if places.len() > 0 {
        let i = places.last();
        assert(places[places.len() - 1] == i);
        let next = queue::moved(ts, i, i + 1);
        let less = places.drop_last();
        lemma_fewer(places, ts.len() - 1);
        lemma_wider(less, i, next.len() - 1);
        queue::moving_keeps_every_entry(ts, i, i + 1);
        lemma_steps_down(next, less);
        let r = stepped(ts, places, true);
        assert(r == stepped(next, less, true));
        assert(less.len() > 0 ==> less.last() == places[places.len() - 2]);
        assert forall|k: int| 0 <= k < places.len() implies r[#[trigger] places[k] + 1]
            == ts[places[k]] by {
            if k < less.len() {
                assert(less[k] == places[k]);
                assert(r[less[k] + 1] == next[less[k]]);
                assert(next[places[k]] == ts[places[k]]);
            } else {
                assert(r[i + 1] == next[i + 1]);
            }
        }
        assert forall|j: int| 0 <= j < ts.len() && j > i + 1 implies #[trigger] r[j] == ts[j] by {
            assert(r[j] == next[j]);
        }
    }
}

proof fn lemma_later(places: Seq<int>, n: int)
    requires
        ascending_in(places, n),
        places.len() > 0,
    ensures
        ascending_in(places.drop_first(), n),
        forall|k: int| 0 <= k < places.len() - 1 ==> #[trigger] places.drop_first()[k] > places[0],
{
    let less = places.drop_first();
    assert forall|k: int| 0 <= k < less.len() implies 0 <= #[trigger] less[k] < n && less[k]
        > places[0] by {
        assert(less[k] == places[k + 1]);
    }
    assert forall|j: int, k: int| 0 <= j < k < less.len() implies #[trigger] less[j]
        < #[trigger] less[k] by {
        assert(less[j] == places[j + 1] && less[k] == places[k + 1]);
    }
}

proof fn lemma_obeys_moves_up(q: QueueView, places: Seq<int>)
    requires
        ascending_in(places, q.tracks.len() as int),
        places.len() > 0 ==> places[0] > 0,
        q.tracks.len() <= usize::MAX,
    ensures
        obeyed(q, app_loop::moves(places, false)).tracks == stepped(q.tracks, places, false),
    decreases places.len(),
{
    let cmds = app_loop::moves(places, false);
    if places.len() > 0 {
        let i = places[0];
        assert(cmds[0] == PlayerCommandView::MoveInQueue { from: i as usize, to: (i - 1) as usize });
        assert(cmds.drop_first() =~= app_loop::moves(places.drop_first(), false));
        lemma_later(places, q.tracks.len() as int);
        lemma_obeys_moves_up(q.reordered(i, i - 1), places.drop_first());
    }
}

/// Each entry moves up by one; what is farther up than all of them stays.
proof fn lemma_steps_up(ts: Seq<TrackView>, places: Seq<int>)
    requires
        ascending_in(places, ts.len() as int),
        places.len() > 0 ==> places[0] > 0,
    ensures
        stepped(ts, places, false).len() == ts.len(),
        stepped(ts, places, false).to_multiset() == ts.to_multiset(),
        forall|k: int|
            0 <= k < places.len() ==> stepped(ts, places, false)[#[trigger] places[k] - 1]
                == ts[places[k]],
        forall|j: int|
            0 <= j < ts.len() && (places.len() > 0 ==> j < places[0] - 1)
                ==> #[trigger] stepped(ts, places, false)[j] == ts[j],
    decreases places.len(),
{
    if places.len() > 0 {
        let i = places[0];
        let next = queue::moved(ts, i, i - 1);
        let less = places.drop_first();
        lemma_later(places, ts.len() as int);
        queue::moving_keeps_every_entry(ts, i, i - 1);
        lemma_steps_up(next, less);
        let r = stepped(ts, places, false);
        assert(r == stepped(next, less, false));
        assert forall|k: int| 0 <= k < places.len() implies r[#[trigger] places[k] - 1]
            == ts[places[k]] by {
            if k > 0 {
                assert(less[k - 1] == places[k]);
                assert(r[less[k - 1] - 1] == next[less[k - 1]]);
                assert(next[places[k]] == ts[places[k]]);
            } else {
                assert(less.len() > 0 ==> less[0] > i);
                assert(r[i - 1] == next[i - 1]);
            }
        }
        assert forall|j: int| 0 <= j < ts.len() && j < i - 1 implies #[trigger] r[j] == ts[j] by {
            assert(r[j] == next[j]);
        }
    }
}

/// The entries of a list that do not stand at these places, in their order.
pub open spec fn others(ts: Seq<TrackView>, places: Set<int>) -> Seq<TrackView>
    decreases ts.len(),
{
    if ts.len() == 0 {
        Seq::empty()
    } else if places.contains(ts.len() - 1) {
        others(ts.drop_last(), places)
    } else {
        others(ts.drop_last(), places).push(ts.last())
    }
}

/// Places, each one farther down or up.
pub open spec fn one_farther(places: Seq<int>, down: bool) -> Seq<int> {
    Seq::new(
        places.len(),
        |k: int|
            if down {
                places[k] + 1
            } else {
                places[k] - 1
            },
    )
}

proof fn lemma_others_agree(ts: Seq<TrackView>, a: Set<int>, b: Set<int>)
    requires
        forall|j: int| 0 <= j < ts.len() ==> (#[trigger] a.contains(j) == b.contains(j)),
    ensures
        others(ts, a) == others(ts, b),
    decreases ts.len(),
{
    if ts.len() > 0 {
        assert(a.contains(ts.len() - 1) == b.contains(ts.len() - 1));
        lemma_others_agree(ts.drop_last(), a, b);
    }
}

/// An entry of the block that changes places with one that is not leaves the others in
/// their order.
proof fn lemma_others_pass(ts: Seq<TrackView>, us: Seq<TrackView>, a: Set<int>, b: Set<int>, i: int)
    requires
        0 <= i < ts.len() - 1,
        us.len() == ts.len(),
        us[i] == ts[i + 1],
        us[i + 1] == ts[i],
        forall|j: int| 0 <= j < ts.len() && j != i && j != i + 1 ==> #[trigger] us[j] == ts[j],
        a.contains(i),
        !a.contains(i + 1),
        !b.contains(i),
        b.contains(i + 1),
        forall|j: int| j != i && j != i + 1 ==> (#[trigger] a.contains(j) == b.contains(j)),
    ensures
        others(us, b) == others(ts, a),
    decreases ts.len(),
{
    let n = ts.len() - 1;
    if n > i + 1 {
        assert(us[n] == ts[n]);
        assert(a.contains(n) == b.contains(n));
        lemma_others_pass(ts.drop_last(), us.drop_last(), a, b, i);
    } else {
        let before = ts.drop_last().drop_last();
        assert(us.drop_last().drop_last() =~= before);
        assert(us.drop_last().last() == us[i]);
        lemma_others_agree(before, a, b);
        assert(others(ts, a) == others(ts.drop_last(), a).push(ts[i + 1]));
        assert(others(ts.drop_last(), a) == others(before, a));
        assert(others(us, b) == others(us.drop_last(), b));
        assert(others(us.drop_last(), b) == others(before, b).push(us[i]));
    }
}

proof fn lemma_others_stay_down(ts: Seq<TrackView>, places: Seq<int>, gone: Set<int>)
    requires
        ascending_in(places, ts.len() - 1),
        forall|j: int| #[trigger] gone.contains(j) && places.len() > 0 ==> j > places.last() + 1,
    ensures
        others(stepped(ts, places, true), one_farther(places, true).to_set().union(gone)) == others(
            ts,
            places.to_set().union(gone),
        ),
    decreases places.len(),
{
    if places.len() == 0 {
        assert(one_farther(places, true) =~= places);
    } else {
        let i = places.last();
        assert(places[places.len() - 1] == i);
        let next = queue::moved(ts, i, i + 1);
        let less = places.drop_last();
        lemma_fewer(places, ts.len() - 1);
        lemma_wider(less, i, next.len() - 1);
        let now = gone.insert(i + 1);
        assert(less.len() > 0 ==> less.last() == places[places.len() - 2]);
        lemma_others_stay_down(next, less, now);
        let a = places.to_set().union(gone);
        let b = less.to_set().union(now);
        lemma_members(places, i);
        lemma_members(one_farther(places, true), i + 1);
        assert(one_farther(places, true).drop_last() =~= one_farther(less, true));
        assert(one_farther(places, true).to_set().union(gone) =~= one_farther(less, true).to_set().union(
            now,
        ));
        assert(!less.contains(i)) by {
            if less.contains(i) {
                let k = choose|k: int| 0 <= k < less.len() && less[k] == i;
                assert(places[k] < places[places.len() - 1]);
            }
        }
        assert(!less.contains(i + 1)) by {
            if less.contains(i + 1) {
                let k = choose|k: int| 0 <= k < less.len() && less[k] == i + 1;
                assert(places[k] < places[places.len() - 1]);
            }
        }
        lemma_others_pass(ts, next, a, b, i);
    }
}

proof fn lemma_others_stay_up(ts: Seq<TrackView>, places: Seq<int>, gone: Set<int>)
    requires
        ascending_in(places, ts.len() as int),
        places.len() > 0 ==> places[0] > 0,
        forall|j: int| #[trigger] gone.contains(j) && places.len() > 0 ==> j < places[0] - 1,
    ensures
        others(stepped(ts, places, false), one_farther(places, false).to_set().union(gone))
            == others(ts, places.to_set().union(gone)),
    decreases places.len(),
{
    if places.len() == 0 {
        assert(one_farther(places, false) =~= places);
    } else {
        let i = places[0];
        let next = queue::moved(ts, i, i - 1);
        let less = places.drop_first();
        lemma_later(places, ts.len() as int);
        let now = gone.insert(i - 1);
        assert(less.len() > 0 ==> less[0] > i);
        lemma_others_stay_up(next, less, now);
        let a = places.to_set().union(gone);
        let b = less.to_set().union(now);
        lemma_first_member(places);
        lemma_first_member(one_farther(places, false));
        assert(one_farther(places, false).drop_first() =~= one_farther(less, false));
        assert(one_farther(places, false).to_set().union(gone) =~= one_farther(
            less,
            false,
        ).to_set().union(now));
        assert forall|k: int| 0 <= k < less.len() implies #[trigger] less[k] > i by {}
        assert(!less.contains(i) && !less.contains(i - 1));
        lemma_others_pass(next, ts, b, a, i - 1);
    }
}

proof fn lemma_members(s: Seq<int>, last: int)
    requires
        s.len() > 0,
        s.last() == last,
    ensures
        s.to_set() =~= s.drop_last().to_set().insert(last),
{
    assert forall|x: int| s.to_set().contains(x) == s.drop_last().to_set().insert(last).contains(x) by {
        if s.contains(x) && x != last {
            let k = choose|k: int| 0 <= k < s.len() && s[k] == x;
            assert(s.drop_last()[k] == x);
        }
        if s.drop_last().contains(x) {
            let k = choose|k: int| 0 <= k < s.len() - 1 && s.drop_last()[k] == x;
            assert(s[k] == x);
        }
        assert(s[s.len() - 1] == last);
    }
}

proof fn lemma_first_member(s: Seq<int>)
    requires
        s.len() > 0,
    ensures
        s.to_set() =~= s.drop_first().to_set().insert(s[0]),
{
    assert forall|x: int| s.to_set().contains(x) == s.drop_first().to_set().insert(s[0]).contains(x) by {
        if s.contains(x) && x != s[0] {
            let k = choose|k: int| 0 <= k < s.len() && s[k] == x;
            assert(s.drop_first()[k - 1] == x);
        }
        if s.drop_first().contains(x) {
            let k = choose|k: int| 0 <= k < s.len() - 1 && s.drop_first()[k] == x;
            assert(s[k + 1] == x);
        }
    }
}

/// A block of entries moves together: once the player has carried it out, every entry of
/// the block stands one place farther, the entries between them are those that were not
/// of the block, in their order, and there is nothing else.
pub proof fn a_block_moves_together(s: StateView, q: QueueView, down: bool)
    requires
        s.can_move(down),
        q.tracks == s.queue,
        s.queue.len() <= usize::MAX,
    ensures
        ({
            let after = obeyed(q, s.shifted(down).sent).tracks;
            let from = s.queue_places();
            let to = one_farther(from, down);
            &&& after.len() == s.queue.len()
            &&& after.to_multiset() == s.queue.to_multiset()
            &&& forall|k: int|
                0 <= k < to.len() ==> 0 <= #[trigger] to[k] < after.len() && after[to[k]]
                    == s.queue[from[k]]
            &&& others(after, to.to_set()) == others(s.queue, from.to_set())
        }),
{
    reveal(StateView::shifted);
    let places = s.queue_places();
    let to = one_farther(places, down);
    app_loop::queue_places_ascend(s);
    let n = s.queue.len() as int;
    let none = Set::<int>::empty();
    assert(ascending_in(places, n));
    assert(places.to_set().union(none) =~= places.to_set());
    assert(to.to_set().union(none) =~= to.to_set());
    if down {
        assert(places[places.len() - 1] == places.last());
        assert(ascending_in(places, n - 1)) by {
            assert forall|j: int| 0 <= j < places.len() implies 0 <= #[trigger] places[j] < n - 1 by {
                assert(j < places.len() - 1 ==> places[j] < places[places.len() - 1]);
            }
        }
        lemma_obeys_moves_down(q, places);
        lemma_steps_down(q.tracks, places);
        lemma_others_stay_down(q.tracks, places, none);
        assert forall|k: int| 0 <= k < to.len() implies 0 <= #[trigger] to[k] < n && stepped(
            q.tracks,
            places,
            true,
        )[to[k]] == s.queue[places[k]] by {
            assert(to[k] == places[k] + 1);
        }
    } else {
        lemma_obeys_moves_up(q, places);
        lemma_steps_up(q.tracks, places);
        lemma_others_stay_up(q.tracks, places, none);
        assert forall|k: int| 0 <= k < to.len() implies 0 <= #[trigger] to[k] < n && stepped(
            q.tracks,
            places,
            false,
        )[to[k]] == s.queue[places[k]] by {
            assert(to[k] == places[k] - 1);
            assert(k > 0 ==> places[0] < places[k]);
        }
    }
}

/// An edit that the server refuses is taken back: whatever overlay started it, the answer
/// that it failed leaves the playlists, the tracks and the edits under way as they were
/// before the key was pressed.
pub proof fn a_refused_edit_is_taken_back(
    s: StateView,
    a: InputAction,
    b: BehaviourConfig,
    token: u64,
    task: MutationTaskView,
    message: String,
)
    requires
        s.modal is Some,
        s.pending.next < u64::MAX,
        s.playlists.len() <= usize::MAX,
        s.tracks.len() <= usize::MAX,
        s.dispatched(a, b).task == Some(TaskView::Mutate { token, task }),
    ensures
        ({
            let t = s.dispatched(a, b).state.after(AppEvent::MutationFailed { token, message });
            &&& t.playlists == s.playlists
            &&& t.tracks == s.tracks
            &&& t.pending.entries == s.pending.entries
        }),
{
    reveal(StateView::in_modal);
    reveal(StateView::after);
    reveal(StateView::told);
    reveal(StateView::toasted);
    let closed = StateView { modal: None, ..s };
    match s.modal {
        Some(ModalView::Prompt { title: _, value, action }) => {
            let name = text::trimmed(value);
            match action {
                PromptActionView::CreatePlaylist => {
                    let temp = PlaylistView::stub(edits::temp_id(s.pending.next), name);
                    reducer::a_refused_edit_leaves_no_trace(
                        closed,
                        MutationView::CreatePlaylist { temp },
                    );
                },
                PromptActionView::RenamePlaylist(id) => {
                    let i = reducer::playlist_at(s.playlists, id)->0;
                    reducer::a_refused_edit_leaves_no_trace(
                        closed,
                        MutationView::RenamePlaylist {
                            id,
                            previous: s.playlists[i].title,
                            next: name,
                        },
                    );
                },
            }
        },
        Some(ModalView::PickPlaylist { targets, choices, selected }) => {
            let m = MutationView::AddTracks {
                playlist: choices[selected as int].0,
                count: targets.len() as usize,
            };
            reducer::a_refused_edit_leaves_no_trace(closed, m);
            reveal(StateView::unmarked);
            reveal(StateView::begun);
            reveal(StateView::rolled_back);
            reveal(StateView::edited);
            reveal(StateView::unedited);
            mutation::a_token_names_its_own_edit(
                s.pending,
                UnderwayView { edit: m, shown: s.open_playlist },
            );
        },
        Some(ModalView::Confirm { text: _, action }) => match action {
            ConfirmActionView::DeletePlaylist(id) => {
                reducer::lemma_playlist_at(s.playlists, id);
                let i = reducer::playlist_at(s.playlists, id)->0;
                reducer::a_refused_edit_leaves_no_trace(
                    closed,
                    MutationView::DeletePlaylist {
                        id,
                        index: i as usize,
                        snapshot: s.playlists[i],
                    },
                );
            },
            ConfirmActionView::RemoveTracks { playlist, entries } => {
                edits::rows_of_entries_are_rows(s.tracks, entries);
                reducer::a_refused_edit_leaves_no_trace(
                    closed,
                    MutationView::RemoveTracks {
                        playlist,
                        removed: edits::rows_of_entries(s.tracks, entries),
                    },
                );
            },
            ConfirmActionView::Quit => {},
        },
        _ => {},
    }
}

/// What the player reports is the same: the queue, where it is in it, and how it plays.
pub open spec fn as_reported(a: StateView, b: StateView) -> bool {
    &&& a.queue == b.queue
    &&& a.queue_current == b.queue_current
    &&& a.playback == b.playback
    &&& a.now_playing == b.now_playing
    &&& a.position == b.position
    &&& a.duration == b.duration
}

proof fn lemma_steps_keep_reports(s: StateView)
    ensures
        as_reported(s.unmarked(), s),
        as_reported(s.clamped(), s),
        as_reported(s.stretched(), s),
        as_reported(s.mark_toggled(), s),
        forall|kind: ToastKind, t: Seq<char>| as_reported(#[trigger] s.told(kind, t), s),
        forall|what: Seq<char>| as_reported(#[trigger] s.refused(what), s),
{
    reveal(StateView::unmarked);
    reveal(StateView::clamped);
    reveal(StateView::stretched);
    reveal(StateView::mark_toggled);
    reveal(StateView::told);
    reveal(StateView::toasted);
    reveal(StateView::refused);
}

proof fn lemma_rows_keep_reports(s: StateView, row: usize)
    ensures
        as_reported(s.on_row(row), s),
{
    reveal(StateView::on_row);
    lemma_steps_keep_reports(
        StateView { selected: row, scroll_offset: s.revealing(row), ..s },
    );
}

proof fn lemma_sources_keep_reports(s: StateView, n: u8)
    ensures
        as_reported(s.at_source(n), s),
{
    reveal(StateView::at_source);
    reveal(StateView::unmarked);
    lemma_steps_keep_reports(s);
}

proof fn lemma_moves_keep_reports(s: StateView, a: InputAction)
    ensures
        as_reported(s.list_moved(a), s),
{
    reveal(StateView::list_moved);
    let n = s.visible().len();
    let row = s.row_after(a);
    lemma_rows_keep_reports(
        s,
        if row < 0 {
            0
        } else if row < n {
            row as usize
        } else {
            (n - 1) as usize
        },
    );
}

proof fn lemma_wheel_keeps_reports(s: StateView, down: bool)
    ensures
        as_reported(s.wheeled(down), s),
        as_reported(s.on_playing(), s),
        as_reported(s.backed_out(), s),
        as_reported(s.cancelled(), s),
        as_reported(s.visual_toggled(), s),
{
    reveal(StateView::wheeled);
    reveal(StateView::stretched);
    reveal(StateView::centred);
    reveal(StateView::closed);
    reveal(StateView::unmarked);
    reveal(StateView::filtering);
    assert(as_reported(s.on_playing(), s)) by {
        reveal(StateView::on_playing);
        match s.now_playing {
            Some(t) => match s.row_of(t.video_id) {
                Some(row) => lemma_rows_keep_reports(s, row as usize),
                None => {},
            },
            None => {},
        }
    }
    assert(as_reported(s.backed_out(), s)) by {
        reveal(StateView::backed_out);
    }
    assert(as_reported(s.cancelled(), s)) by {
        reveal(StateView::cancelled);
    }
    assert(as_reported(s.visual_toggled(), s)) by {
        reveal(StateView::visual_toggled);
    }
}

proof fn lemma_input_keeps_reports(s: StateView, a: InputAction)
    ensures
        as_reported(s.after(AppEvent::Input(a)), s),
{
    lemma_steps_keep_reports(s);
    lemma_moves_keep_reports(s, a);
    lemma_wheel_keeps_reports(s, true);
    lemma_wheel_keeps_reports(s, false);
    assert(as_reported(s.navigated(a), s)) by {
        reveal(StateView::navigated);
        reveal(StateView::sidebar_moved);
        reveal(StateView::centred);
        reveal(StateView::search_opened);
        lemma_sources_keep_reports(s, s.source_after(0));
        lemma_sources_keep_reports(s, s.source_after(1));
        lemma_sources_keep_reports(s, s.source_after(7));
        lemma_sources_keep_reports(s, 6);
        lemma_sources_keep_reports(s, 7);
        if let InputAction::GoTo(n) = a {
            lemma_sources_keep_reports(s, n);
        }
    }
    assert(as_reported(s.query_edited(a), s)) by {
        reveal(StateView::query_edited);
        reveal(StateView::asking);
    }
    assert(as_reported(s.filter_edited(a), s)) by {
        reveal(StateView::filter_edited);
        reveal(StateView::filtering);
    }
    assert(as_reported(s.answered(a), s)) by {
        reveal(StateView::answered);
    }
    reveal(StateView::after);
    reveal(StateView::after_input);
}

proof fn lemma_edits_keep_reports(s: StateView, m: MutationView)
    ensures
        as_reported(s.begun(m), s),
{
    reveal(StateView::begun);
    reveal(StateView::edited);
    reveal(StateView::clamped);
}

proof fn lemma_overlays_keep_reports(s: StateView, a: InputAction)
    ensures
        as_reported(s.in_modal(a).state, s),
{
    reveal(StateView::in_modal);
    reveal(StateView::unmarked);
    lemma_input_keeps_reports(s, a);
    lemma_steps_keep_reports(s);
    let closed = StateView { modal: None, ..s };
    assert forall|m: MutationView| as_reported(#[trigger] closed.begun(m), closed) by {
        lemma_edits_keep_reports(closed, m);
    }
}

proof fn lemma_openings_keep_reports(s: StateView)
    ensures
        match s.descended() {
            Some(step) => as_reported(step.state, s),
            None => true,
        },
{
    reveal(StateView::descended);
    lemma_sources_keep_reports(s, 2);
    lemma_sources_keep_reports(s, 4);
    lemma_sources_keep_reports(s, 5);
}

proof fn lemma_arrangements_keep_reports(s: StateView, a: InputAction)
    ensures
        as_reported(s.arranged(a).state, s),
{
    lemma_steps_keep_reports(s);
    assert(as_reported(s.dequeued().state, s)) by {
        reveal(StateView::dequeued);
        reveal(StateView::unmarked);
    }
    assert(as_reported(s.undownloaded().state, s)) by {
        reveal(StateView::undownloaded);
        reveal(StateView::unmarked);
        reveal(StateView::clamped);
        reveal(StateView::told);
        reveal(StateView::toasted);
    }
    assert(as_reported(s.shifted(true).state, s) && as_reported(s.shifted(false).state, s)) by {
        reveal(StateView::shifted);
    }
    assert(as_reported(s.queue_cleared().state, s)) by {
        reveal(StateView::queue_cleared);
        reveal(StateView::unmarked);
    }
    reveal(StateView::arranged);
}

proof fn lemma_intents_keep_reports(s: StateView, a: InputAction, b: BehaviourConfig)
    requires
        s.modal is None,
    ensures
        as_reported(s.dispatched(a, b).state, s),
{
    lemma_input_keeps_reports(s, a);
    lemma_steps_keep_reports(s);
    lemma_openings_keep_reports(s);
    lemma_arrangements_keep_reports(s, a);
    assert(as_reported(s.entered().state, s)) by {
        reveal(StateView::entered);
    }
    assert(as_reported(s.enqueued(true).state, s) && as_reported(s.enqueued(false).state, s)) by {
        reveal(StateView::enqueued);
        reveal(StateView::unmarked);
    }
    assert(as_reported(s.downloading().state, s)) by {
        reveal(StateView::downloading);
        reveal(StateView::unmarked);
    }
    assert(a is Right ==> as_reported(s.forward().state, s)) by {
        reveal(StateView::forward);
    }
    if let InputAction::GoTo(n) = a {
        assert(as_reported(s.gone_to(n).state, s)) by {
            reveal(StateView::gone_to);
        }
    }
    assert(match s.transported(a, b) {
        Some(step) => as_reported(step.state, s),
        None => true,
    }) by {
        reveal(StateView::transported);
        reveal(StateView::louder);
    }
}

/// A key never changes what is shown of the player's: it sends a command at most, and what
/// comes of that the player reports.
pub proof fn keys_leave_the_queue_to_the_player(s: StateView, a: InputAction, b: BehaviourConfig)
    ensures
        as_reported(s.dispatched(a, b).state, s),
{
    if s.modal is Some {
        lemma_overlays_keep_reports(s, a);
    } else {
        lemma_intents_keep_reports(s, a, b);
    }
}

/// Moving about reaches the player in no way.
pub open spec fn moves_about(a: InputAction) -> bool {
    match a {
        InputAction::Up
        | InputAction::Down
        | InputAction::Left
        | InputAction::Right
        | InputAction::Home
        | InputAction::End
        | InputAction::PageUp
        | InputAction::PageDown
        | InputAction::ScrollUp
        | InputAction::ScrollDown
        | InputAction::NextPane
        | InputAction::PrevPane
        | InputAction::GoTo(_)
        | InputAction::OpenSearch
        | InputAction::OpenFilter
        | InputAction::OpenQueue
        | InputAction::OpenHelp
        | InputAction::CenterOnCursor
        | InputAction::FocusCurrent
        | InputAction::ToggleMark
        | InputAction::ToggleVisual
        | InputAction::Char(_) => true,
        _ => false,
    }
}

/// Moving about, marking and typing never reach the player.
pub proof fn moving_about_leaves_the_player_alone(
    s: StateView,
    a: InputAction,
    b: BehaviourConfig,
)
    requires
        moves_about(a),
    ensures
        s.dispatched(a, b).sent.len() == 0,
{
    reveal(StateView::in_modal);
    reveal(StateView::forward);
    reveal(StateView::descended);
    reveal(StateView::gone_to);
    reveal(StateView::transported);
}

/// An answer to a query that is no longer the one typed changes nothing.
pub proof fn a_late_answer_changes_nothing(s: StateView, ev: AppEvent)
    requires
        match ev {
            AppEvent::SearchResults { query, .. } => query@ != s.search_query,
            AppEvent::ArtistSearchResults { query, .. } => query@ != s.search_query,
            _ => false,
        },
    ensures
        s.after(ev) == s,
{
    reveal(StateView::after);
    reveal(StateView::after_load);
}

/// A playlist that the service manages is neither deleted nor renamed: asking for it opens
/// nothing and starts nothing.
pub proof fn a_system_playlist_is_left_alone(s: StateView, a: InputAction, b: BehaviourConfig)
    requires
        a is DeletePlaylist || a is RenamePlaylist,
        s.modal is None,
        s.selected_playlist() matches Some(p) && p.is_system,
    ensures
        s.dispatched(a, b).state.modal is None,
        s.dispatched(a, b).task is None,
        s.dispatched(a, b).state.playlists == s.playlists,
{
    reveal(StateView::arranged);
    reveal(StateView::refused);
    reveal(StateView::told);
    reveal(StateView::toasted);
}

} // verus!
