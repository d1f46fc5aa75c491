//! What the player is for: which track sounds after a command, what becomes of the queue,
//! and what the interface is told.

use crate::actor::{self, ActView, ActorView, Did, EndReason};
use crate::model::TrackView;
use crate::player::{self, PlaybackState, PlayerCommandView, PlayerEventView, RepeatMode};
use crate::queue::{self, QueueView};
use vstd::prelude::*;

verus! {

/// Nothing is loaded, and no track is announced.
pub open spec fn starts_nothing(acts: Seq<ActView>) -> bool {
    forall|i: int|
        0 <= i < acts.len() ==> !((#[trigger] acts[i]) is Load) && !(acts[i] matches ActView::Emit(
            PlayerEventView::TrackChanged(_),
        ))
}

/// Exactly one thing is loaded, this track, and it is announced before that.
pub open spec fn starts(acts: Seq<ActView>, t: TrackView) -> bool {
    exists|i: int, j: int|
        0 <= i < j < acts.len() && #[trigger] acts[i] == ActView::Emit(
            PlayerEventView::TrackChanged(Some(t)),
        ) && #[trigger] acts[j] == ActView::Load(t) && (forall|k: int|
            0 <= k < acts.len() && k != j ==> !((#[trigger] acts[k]) is Load))
}

/// What is not about which track plays stays as it was.
pub open spec fn sounds_the_same(a: ActorView, b: ActorView) -> bool {
    &&& a.volume == b.volume
    &&& a.muted_at == b.muted_at
    &&& a.queue.shuffle == b.queue.shuffle
    &&& a.queue.repeat == b.queue.repeat
    &&& a.active == b.active
}

proof fn lemma_starts(d: Did, t: TrackView)
    requires
        starts_nothing(d.acts),
    ensures
        starts(d.playing(t).acts, t),
        d.playing(t).core.state is Loading,
        d.playing(t).core.queue == d.core.queue,
        sounds_the_same(d.playing(t).core, d.core),
{
    let acts = d.playing(t).acts;
    let n = acts.len();
    assert(acts[n - 3] == ActView::Emit(PlayerEventView::TrackChanged(Some(t))));
    assert(acts[n - 2] == ActView::Load(t));
    assert forall|k: int| 0 <= k < n && k != n - 2 implies !((#[trigger] acts[k]) is Load) by {
        if k < d.acts.len() {
            assert(acts[k] == d.acts[k]);
        }
    }
}

/// Tracks that are queued while something plays leave it playing: nothing is loaded and
/// nothing announced, and the playback is in the state it was in. Only where the queue was
/// empty does playing start, with the first of them.
pub proof fn queuing_leaves_what_plays(
    s: ActorView,
    ts: Seq<TrackView>,
    next: bool,
    picks: Seq<usize>,
)
    requires
        s.wf(),
    ensures
        ({
            let cmd = if next {
                PlayerCommandView::EnqueueNext(ts)
            } else {
                PlayerCommandView::EnqueueBack(ts)
            };
            let d = s.handled(cmd, picks);
            &&& d.core.wf()
            &&& sounds_the_same(d.core, s)
            &&& s.queue.tracks.len() > 0 ==> starts_nothing(d.acts) && d.core.state == s.state
                && d.core.queue.playing() == s.queue.playing() && d.core.retried == s.retried
            &&& s.queue.tracks.len() == 0 && ts.len() > 0 ==> starts(d.acts, ts[0])
                && d.core.state is Loading && d.core.queue.playing() == Some(ts[0])
            &&& s.queue.tracks.len() == 0 && ts.len() == 0 ==> starts_nothing(d.acts)
                && d.core.state == s.state
        }),
{
    let q = if next {
        s.queue.pushed_next(ts)
    } else {
        s.queue.pushed_back(ts)
    };
    let d = actor::nothing(s.with_queue(q)).showing_queue();
    if s.queue.tracks.len() == 0 && ts.len() > 0 {
        assert(q.tracks[0] == ts[0]);
        lemma_starts(d, ts[0]);
    }
}

/// Where queued tracks go: behind all others, or right behind what plays, in their order,
/// and nothing that was queued is lost or changes its order.
pub proof fn queued_tracks_go_where_they_belong(
    s: ActorView,
    ts: Seq<TrackView>,
    picks: Seq<usize>,
)
    requires
        s.wf(),
    ensures
        ({
            let old = s.queue.tracks;
            let back = s.handled(PlayerCommandView::EnqueueBack(ts), picks).core.queue.tracks;
            let next = s.handled(PlayerCommandView::EnqueueNext(ts), picks).core.queue.tracks;
            &&& back.len() == old.len() + ts.len() && next.len() == back.len()
            &&& forall|i: int| 0 <= i < old.len() ==> #[trigger] back[i] == old[i]
            &&& forall|i: int| 0 <= i < ts.len() ==> #[trigger] back[old.len() + i] == ts[i]
            &&& s.queue.current matches Some(c) ==> {
                &&& forall|i: int| 0 <= i <= c ==> #[trigger] next[i] == old[i]
                &&& forall|i: int| 0 <= i < ts.len() ==> #[trigger] next[c + 1 + i] == ts[i]
                &&& forall|i: int|
                    c < i < old.len() ==> #[trigger] next[i + ts.len()] == old[i]
            }
        }),
{
}

/// What is to play next plays next: after it was queued so, going on loads the first of it,
/// and going back from there loads what played before.
pub proof fn what_is_to_play_next_does(s: ActorView, ts: Seq<TrackView>, picks: Seq<usize>)
    requires
        s.wf(),
        s.queue.tracks.len() > 0,
        ts.len() > 0,
        !(s.queue.repeat is One),
    ensures
        ({
            let queued = s.handled(PlayerCommandView::EnqueueNext(ts), picks).core;
            let next = queued.handled(PlayerCommandView::Next, picks);
            let back = next.core.handled(PlayerCommandView::Previous, picks);
            &&& starts(next.acts, ts[0])
            &&& next.core.queue.playing() == Some(ts[0])
            &&& starts(back.acts, s.queue.playing()->0)
            &&& back.core.queue == queued.queue
        }),
{
    let c = s.queue.current->0;
    let queued = s.handled(PlayerCommandView::EnqueueNext(ts), picks).core;
    assert(queued.queue.tracks[c + 1] == ts[0]);
    assert(queued.queue.tracks[c] == s.queue.tracks[c]);
    let q = queued.queue.at(c + 1);
    lemma_starts(actor::nothing(queued.afresh().with_queue(q)).showing_queue(), ts[0]);
    let on = queued.handled(PlayerCommandView::Next, picks).core;
    assert(on.queue == q);
    lemma_starts(
        actor::nothing(on.afresh().with_queue(q.at(c))).showing_queue(),
        s.queue.tracks[c],
    );
    assert(q.at(c) =~= queued.queue);
}

/// Going on plays the track behind the one that plays. Where all repeat, the first follows
/// the last; where one repeats, it is played again.
pub proof fn going_on_plays_what_is_behind(s: ActorView, picks: Seq<usize>)
    requires
        s.wf(),
        s.queue.current is Some,
    ensures
        ({
            let c = s.queue.current->0;
            let n = s.queue.tracks.len() as int;
            let d = s.handled(PlayerCommandView::Next, picks);
            &&& d.core.queue.tracks == s.queue.tracks
            &&& sounds_the_same(d.core, s)
            &&& s.queue.repeat is One ==> starts(d.acts, s.queue.tracks[c])
                && d.core.queue.current == Some(c)
            &&& !(s.queue.repeat is One) && c + 1 < n ==> starts(d.acts, s.queue.tracks[c + 1])
                && d.core.queue.current == Some(c + 1)
            &&& s.queue.repeat is All && c + 1 == n ==> starts(d.acts, s.queue.tracks[0])
                && d.core.queue.current == Some(0int)
        }),
{
    let c = s.queue.current->0;
    let q = s.queue;
    let on = match q.next_index() {
        Some(i) => i,
        None => c,
    };
    lemma_starts(actor::nothing(s.afresh().with_queue(q.at(on))).showing_queue(), q.tracks[on]);
}

/// Going back plays the track in front of the one that plays. Where all repeat, the last
/// stands in front of the first; where one repeats, it is played again; and in front of the
/// first of a queue that does not repeat there is nothing.
pub proof fn going_back_plays_what_is_in_front(s: ActorView, picks: Seq<usize>)
    requires
        s.wf(),
        s.queue.current is Some,
    ensures
        ({
            let c = s.queue.current->0;
            let n = s.queue.tracks.len() as int;
            let d = s.handled(PlayerCommandView::Previous, picks);
            &&& d.core.queue.tracks == s.queue.tracks
            &&& sounds_the_same(d.core, s)
            &&& s.queue.repeat is One ==> starts(d.acts, s.queue.tracks[c])
                && d.core.queue.current == Some(c)
            &&& !(s.queue.repeat is One) && c > 0 ==> starts(d.acts, s.queue.tracks[c - 1])
                && d.core.queue.current == Some(c - 1)
            &&& s.queue.repeat is All && c == 0 ==> starts(d.acts, s.queue.tracks[n - 1])
                && d.core.queue.current == Some(n - 1)
            &&& s.queue.repeat is Off && c == 0 ==> d.acts.len() == 0 && d.core.queue == s.queue
                && d.core.state == s.state
        }),
{
    let c = s.queue.current->0;
    let q = s.queue;
    let back = match q.prev_index() {
        Some(i) => i,
        None => c,
    };
    lemma_starts(
        actor::nothing(s.afresh().with_queue(q.at(back))).showing_queue(),
        q.tracks[back],
    );
}

/// Going back undoes going on, and the other way round.
pub proof fn going_back_undoes_going_on(s: ActorView, picks: Seq<usize>)
    requires
        s.wf(),
        s.queue.current is Some,
    ensures
        ({
            let c = s.queue.current->0;
            let on = s.handled(PlayerCommandView::Next, picks).core;
            let back = s.handled(PlayerCommandView::Previous, picks).core;
            &&& c + 1 < s.queue.tracks.len() ==> on.handled(
                PlayerCommandView::Previous,
                picks,
            ).core.queue == s.queue
            &&& c > 0 ==> back.handled(PlayerCommandView::Next, picks).core.queue == s.queue
        }),
{
    let c = s.queue.current->0;
    assert(s.queue.at(c + 1).at(c) =~= s.queue);
    assert(s.queue.at(c - 1).at(c) =~= s.queue);
}

/// Behind the last track of a queue that does not repeat there is silence: nothing is
/// loaded, the playback stops, and the interface is told that nothing plays.
pub proof fn the_end_is_silence(s: ActorView, picks: Seq<usize>)
    requires
        s.wf(),
        s.queue.repeat is Off,
        s.queue.current matches Some(c) ==> c + 1 == s.queue.tracks.len(),
    ensures
        ({
            let on = s.handled(PlayerCommandView::Next, picks);
            &&& forall|i: int| 0 <= i < on.acts.len() ==> !((#[trigger] on.acts[i]) is Load)
            &&& on.core.state is Stopped
            &&& on.core.queue == s.queue
            &&& on.acts.len() > 0 && on.acts.last() == ActView::Emit(
                PlayerEventView::TrackChanged(None),
            )
        }),
{
}

/// A track that finished is said to have, and then the player goes on as if it had been
/// told to. What it did itself, a stop or its end, starts nothing.
pub proof fn a_finished_track_is_followed(s: ActorView, picks: Seq<usize>)
    requires
        s.wf(),
    ensures
        ({
            let d = s.ended(EndReason::Eof);
            let on = s.handled(PlayerCommandView::Next, picks);
            &&& d.core == on.core
            &&& s.queue.playing() matches Some(t) ==> d.acts == seq![
                ActView::Emit(PlayerEventView::TrackEnded(t.video_id)),
            ] + on.acts
            &&& s.queue.playing() is None ==> d.acts == on.acts
        }),
        s.ended(EndReason::Stop) == actor::nothing(s),
        s.ended(EndReason::Quit) == actor::nothing(s),
{
}

/// Only a clean finish is taken for one: the one number that means it. Every number that
/// means nothing else is an error.
pub proof fn what_is_not_named_is_an_error(reason: u32)
    ensures
        actor::end_of(reason) is Eof <==> reason == 0,
        actor::end_of(reason) is Stop <==> reason == 2,
        actor::end_of(reason) is Quit <==> reason == 3,
        reason == 1 || reason > 3 ==> actor::end_of(reason) is Error,
{
}

/// A track that is to play now does: it alone is loaded, it is what plays, and everything
/// that was queued is still there, with what was to come still to come behind it.
pub proof fn what_is_to_play_now_does(s: ActorView, t: TrackView, picks: Seq<usize>)
    requires
        s.wf(),
    ensures
        ({
            let d = s.handled(PlayerCommandView::PlayNow(t), picks);
            let old = s.queue.tracks;
            let new = d.core.queue.tracks;
            &&& starts(d.acts, t)
            &&& d.core.state is Loading
            &&& d.core.queue.playing() == Some(t)
            &&& d.core.wf()
            &&& sounds_the_same(d.core, s)
            &&& new.len() == old.len() + 1
            &&& d.core.queue.current matches Some(at) && {
                &&& s.queue.current matches Some(c) ==> at == c + 1
                &&& forall|i: int| 0 <= i < at ==> #[trigger] new[i] == old[i]
                &&& forall|i: int| at < i < new.len() ==> #[trigger] new[i] == old[i - 1]
            }
        }),
{
    let q = s.queue.pushed_next(seq![t]);
    let stepped = match s.queue.current {
        Some(c) => q.at(c + 1),
        None => q,
    };
    lemma_starts(actor::nothing(s.afresh().with_queue(stepped)).showing_queue(), t);
}

/// Jumping to a place in the queue plays what stands there and moves nothing; a place that
/// is not there plays nothing.
pub proof fn jumping_plays_what_stands_there(s: ActorView, i: usize, picks: Seq<usize>)
    requires
        s.wf(),
    ensures
        ({
            let d = s.handled(PlayerCommandView::JumpTo(i), picks);
            &&& d.core.queue.tracks == s.queue.tracks
            &&& sounds_the_same(d.core, s)
            &&& i < s.queue.tracks.len() ==> starts(d.acts, s.queue.tracks[i as int])
                && d.core.queue.playing() == Some(s.queue.tracks[i as int])
                && d.core.queue.current == Some(i as int)
            &&& i >= s.queue.tracks.len() ==> starts_nothing(d.acts) && d.core.queue == s.queue
                && d.core.state == s.state
        }),
{
    if i < s.queue.tracks.len() {
        lemma_starts(
            actor::nothing(s.afresh().with_queue(s.queue.at(i as int))).showing_queue(),
            s.queue.tracks[i as int],
        );
    }
}

/// Taking an entry out of the queue takes out that one. Another than the one that plays
/// leaves it playing; in place of the one that plays, what stood behind it plays, or what
/// stood in front where it was the last; and with the last entry the music stops.
pub proof fn taking_out_takes_out_that_one(s: ActorView, i: usize, picks: Seq<usize>)
    requires
        s.wf(),
    ensures
        ({
            let d = s.handled(PlayerCommandView::RemoveFromQueue(i), picks);
            let old = s.queue.tracks;
            let new = d.core.queue.tracks;
            let k = i as int;
            &&& d.core.wf()
            &&& sounds_the_same(d.core, s)
            &&& k >= old.len() ==> d.core == s && starts_nothing(d.acts)
            &&& k < old.len() ==> new.len() == old.len() - 1 && (forall|j: int|
                0 <= j < k ==> #[trigger] new[j] == old[j]) && (forall|j: int|
                k <= j < new.len() ==> #[trigger] new[j] == old[j + 1])
            &&& s.queue.current != Some(k) ==> starts_nothing(d.acts) && d.core.state == s.state
                && d.core.queue.playing() == s.queue.playing()
            &&& s.queue.current == Some(k) && old.len() > k + 1 ==> starts(d.acts, old[k + 1])
                && d.core.queue.playing() == Some(old[k + 1])
            &&& s.queue.current == Some(k) && old.len() == k + 1 && k > 0 ==> starts(
                d.acts,
                old[k - 1],
            ) && d.core.queue.playing() == Some(old[k - 1])
            &&& s.queue.current == Some(k) && old.len() == 1 ==> d.core.state is Stopped
                && d.acts.contains(ActView::Stop) && new.len() == 0
        }),
{
    let q = s.queue.removed(i as int);
    let d = actor::nothing(s.with_queue(q)).showing_queue();
    if s.queue.current == Some(i as int) {
        match q.playing() {
            Some(t) => lemma_starts(d, t),
            None => {
                assert(d.and(ActView::Stop).silent().acts[1] == ActView::Stop);
            },
        }
    }
}

/// Moving an entry of the queue carries that entry to its new place, past the others, which
/// keep their order; what plays plays on.
pub proof fn moving_carries_that_entry(s: ActorView, from: usize, to: usize, picks: Seq<usize>)
    requires
        s.wf(),
    ensures
        ({
            let d = s.handled(PlayerCommandView::MoveInQueue { from, to }, picks);
            let old = s.queue.tracks;
            let new = d.core.queue.tracks;
            &&& starts_nothing(d.acts)
            &&& d.core.state == s.state
            &&& d.core.wf()
            &&& sounds_the_same(d.core, s)
            &&& d.core.queue.playing() == s.queue.playing()
            &&& from < old.len() && to < old.len() ==> new.len() == old.len() && new[to as int]
                == old[from as int] && queue::without(new, to as int) == queue::without(
                old,
                from as int,
            )
            &&& from >= old.len() || to >= old.len() ==> new == old
        }),
{
    queue::reordering_keeps_what_plays(s.queue, from as int, to as int);
    if from < s.queue.tracks.len() && to < s.queue.tracks.len() {
        assert(queue::without(
            queue::moved(s.queue.tracks, from as int, to as int),
            to as int,
        ) =~= queue::without(s.queue.tracks, from as int));
    }
}

/// Emptying the queue empties it and stops the music; how it plays stays.
pub proof fn emptying_empties(s: ActorView, picks: Seq<usize>)
    ensures
        ({
            let d = s.handled(PlayerCommandView::ClearQueue, picks);
            &&& d.core.queue.tracks.len() == 0 && d.core.queue.current is None
            &&& sounds_the_same(d.core, s)
            &&& d.core.state is Stopped
            &&& d.acts.contains(ActView::Stop)
            &&& d.acts.contains(ActView::Emit(PlayerEventView::TrackChanged(None)))
            &&& forall|i: int| 0 <= i < d.acts.len() ==> !((#[trigger] d.acts[i]) is Load)
        }),
{
    let d = s.handled(PlayerCommandView::ClearQueue, picks);
    let n = d.acts.len();
    assert(d.acts[0] == ActView::Stop);
    assert(d.acts[n - 2] == ActView::Emit(PlayerEventView::TrackChanged(None)));
}

/// Stopping stops, and forgets nothing of the queue.
pub proof fn stopping_stops(s: ActorView, picks: Seq<usize>)
    ensures
        ({
            let d = s.handled(PlayerCommandView::Stop, picks);
            &&& d.core == (ActorView { state: PlaybackState::Stopped, ..s })
            &&& d.acts.contains(ActView::Stop)
            &&& starts_nothing(d.acts)
        }),
{
    assert(s.handled(PlayerCommandView::Stop, picks).acts[0] == ActView::Stop);
}

/// What is asked of the audio where a command is about pausing.
pub open spec fn asks_to_pause(d: Did, on: bool) -> bool {
    d.acts == seq![ActView::SetPause(on)]
}

/// The pause key pauses what sounds and resumes what does not, and two presses that work
/// lead back to where it was. What did not work changes nothing.
pub proof fn the_pause_key_is_its_own_undoing(s: ActorView, picks: Seq<usize>)
    ensures
        ({
            let d = s.handled(PlayerCommandView::TogglePause, picks);
            let sounds = s.state is Playing || s.state is Loading;
            let settled = s.pause_settled(sounds, true).core;
            let again = settled.handled(PlayerCommandView::TogglePause, picks);
            &&& d.core == s
            &&& asks_to_pause(d, sounds)
            &&& asks_to_pause(again, !sounds)
            &&& s.state is Playing ==> settled.state is Paused
            &&& s.state is Paused ==> settled.state is Playing
            &&& s.state is Playing || s.state is Paused ==> settled.pause_settled(
                !sounds,
                true,
            ).core == s
        }),
        forall|paused: bool| (#[trigger] s.pause_settled(paused, false)) == actor::nothing(s),
{
    let d = s.handled(PlayerCommandView::TogglePause, picks);
    let sounds = s.state is Playing || s.state is Loading;
    assert(d.acts =~= seq![ActView::SetPause(sounds)]);
    let settled = s.pause_settled(sounds, true).core;
    assert(settled.handled(PlayerCommandView::TogglePause, picks).acts =~= seq![
        ActView::SetPause(!sounds),
    ]);
}

/// Pausing pauses and resuming resumes, whatever there was, and what came of it is told.
pub proof fn pausing_pauses(s: ActorView, picks: Seq<usize>)
    ensures
        asks_to_pause(s.handled(PlayerCommandView::Pause, picks), true),
        asks_to_pause(s.handled(PlayerCommandView::Resume, picks), false),
        s.pause_settled(true, true).core == (ActorView { state: PlaybackState::Paused, ..s }),
        s.pause_settled(false, true).core == (ActorView { state: PlaybackState::Playing, ..s }),
        s.sounding().core == (ActorView { state: PlaybackState::Playing, ..s }),
        !(s.state is Paused) ==> s.pause_settled(true, true).acts == seq![
            ActView::Emit(PlayerEventView::StateChanged(PlaybackState::Paused)),
        ],
        !(s.state is Playing) ==> s.sounding().acts == seq![
            ActView::Emit(PlayerEventView::StateChanged(PlaybackState::Playing)),
        ],
{
    assert(s.handled(PlayerCommandView::Pause, picks).acts =~= seq![ActView::SetPause(true)]);
    assert(s.handled(PlayerCommandView::Resume, picks).acts =~= seq![ActView::SetPause(false)]);
    assert(!(s.state is Paused) ==> s.pause_settled(true, true).acts =~= seq![
        ActView::Emit(PlayerEventView::StateChanged(PlaybackState::Paused)),
    ]);
    assert(!(s.state is Playing) ==> s.sounding().acts =~= seq![
        ActView::Emit(PlayerEventView::StateChanged(PlaybackState::Playing)),
    ]);
}

/// A volume that is asked for is what is set, up to the loudest there is; once it is set it
/// is the volume, the interface is told of it, and nothing is muted any more. One that
/// cannot be set leaves the volume, and the reason is told.
pub proof fn a_volume_that_is_asked_for_is_set(
    s: ActorView,
    v: u8,
    why: Seq<char>,
    picks: Seq<usize>,
)
    ensures
        ({
            let d = s.handled(PlayerCommandView::SetVolume(v), picks);
            let want: u8 = if v > 100 {
                100
            } else {
                v
            };
            let set = s.volume_settled(want, Ok(()));
            &&& d.core == s
            &&& d.acts == seq![ActView::SetVolume(want)]
            &&& set.core == (ActorView { volume: want, muted_at: None, ..s })
            &&& set.acts == seq![ActView::Emit(PlayerEventView::VolumeChanged(want))]
            &&& s.volume_settled(want, Err(why)).core == s
            &&& s.volume_settled(want, Err(why)).acts == seq![
                ActView::Emit(PlayerEventView::Error(why)),
            ]
        }),
{
    let d = s.handled(PlayerCommandView::SetVolume(v), picks);
    let want: u8 = if v > 100 {
        100
    } else {
        v
    };
    assert(d.acts =~= seq![ActView::SetVolume(want)]);
    assert(s.volume_settled(want, Ok(())).acts =~= seq![
        ActView::Emit(PlayerEventView::VolumeChanged(want)),
    ]);
    assert(s.volume_settled(want, Err(why)).acts =~= seq![
        ActView::Emit(PlayerEventView::Error(why)),
    ]);
}

/// Muting makes it silent and remembers the volume; muting again brings that back. What did
/// not work changes nothing.
pub proof fn muting_is_its_own_undoing(s: ActorView, picks: Seq<usize>)
    requires
        s.muted_at is None,
    ensures
        ({
            let mute = s.handled(PlayerCommandView::ToggleMute, picks);
            let muted = s.mute_settled(true);
            let unmute = muted.core.handled(PlayerCommandView::ToggleMute, picks);
            let back = unmute.core.unmute_settled(s.volume, true);
            &&& mute.core == s && mute.acts == seq![ActView::Mute]
            &&& muted.core.volume == 0 && muted.acts == seq![
                ActView::Emit(PlayerEventView::VolumeChanged(0)),
            ]
            &&& unmute.acts == seq![ActView::Unmute(s.volume)]
            &&& back.core == s && back.acts == seq![
                ActView::Emit(PlayerEventView::VolumeChanged(s.volume)),
            ]
            &&& s.mute_settled(false) == actor::nothing(s)
        }),
{
    let mute = s.handled(PlayerCommandView::ToggleMute, picks);
    assert(mute.acts =~= seq![ActView::Mute]);
    let muted = s.mute_settled(true);
    assert(muted.acts =~= seq![ActView::Emit(PlayerEventView::VolumeChanged(0))]);
    let unmute = muted.core.handled(PlayerCommandView::ToggleMute, picks);
    assert(unmute.acts =~= seq![ActView::Unmute(s.volume)]);
    let back = unmute.core.unmute_settled(s.volume, true);
    assert(back.core =~= s);
    assert(back.acts =~= seq![ActView::Emit(PlayerEventView::VolumeChanged(s.volume))]);
}

/// Seeking asks for exactly that, and changes nothing else; where it fails that is said.
pub proof fn seeking_asks_for_exactly_that(
    s: ActorView,
    delta: i64,
    secs: u64,
    why: Seq<char>,
    picks: Seq<usize>,
)
    ensures
        s.handled(PlayerCommandView::SeekRelative(delta), picks) == (Did {
            core: s,
            acts: seq![ActView::SeekBy(delta)],
        }),
        s.handled(PlayerCommandView::SeekAbsolute(secs), picks) == (Did {
            core: s,
            acts: seq![ActView::SeekTo(secs)],
        }),
        s.seek_settled(Ok(())) == actor::nothing(s),
        s.seek_settled(Err(why)) == (Did {
            core: s,
            acts: seq![ActView::Emit(PlayerEventView::Error(why))],
        }),
{
    assert(s.handled(PlayerCommandView::SeekRelative(delta), picks).acts =~= seq![
        ActView::SeekBy(delta),
    ]);
    assert(s.handled(PlayerCommandView::SeekAbsolute(secs), picks).acts =~= seq![
        ActView::SeekTo(secs),
    ]);
    assert(s.seek_settled(Err(why)).acts =~= seq![ActView::Emit(PlayerEventView::Error(why))]);
}

/// A seek lands where it is asked to, as long as that is in the track: never before its
/// beginning, and never behind its end where that is known.
pub proof fn a_seek_lands_in_the_track(pos: int, delta: int, dur: int)
    requires
        dur <= i64::MAX,
    ensures
        player::seek_target(pos, delta, dur) >= 0,
        dur > 0 ==> player::seek_target(pos, delta, dur) <= dur,
        0 <= pos + delta && pos + delta <= (if dur > 0 {
            dur
        } else {
            i64::MAX as int
        }) ==> player::seek_target(pos, delta, dur) == pos + delta,
        pos + delta < 0 ==> player::seek_target(pos, delta, dur) == 0,
        dur > 0 && pos + delta > dur ==> player::seek_target(pos, delta, dur) == dur,
{
}

/// Shuffling is remembered and told, and leaves what has played and what plays where they
/// are; what is to come is the same, in whatever order. Turning it off moves nothing.
pub proof fn shuffling_is_about_what_is_to_come(s: ActorView, on: bool, picks: Seq<usize>)
    requires
        s.wf(),
    ensures
        ({
            let d = s.handled(PlayerCommandView::SetShuffle(on), picks);
            &&& d.core.queue.shuffle == on
            &&& d.core.queue.repeat == s.queue.repeat
            &&& d.core.queue.current == s.queue.current
            &&& d.core.queue.playing() == s.queue.playing()
            &&& d.core.queue.tracks.to_multiset() == s.queue.tracks.to_multiset()
            &&& s.queue.current matches Some(c) ==> d.core.queue.tracks.take(c + 1)
                == s.queue.tracks.take(c + 1)
            &&& !on || s.queue.shuffle ==> d.core.queue.tracks == s.queue.tracks
            &&& d.core.state == s.state && d.core.volume == s.volume
            &&& starts_nothing(d.acts)
            &&& d.acts.contains(ActView::Emit(PlayerEventView::ShuffleChanged(on)))
        }),
{
    queue::shuffle_keeps_what_plays(s.queue, on, picks);
    let k = match s.queue.current {
        Some(c) => c + 1,
        None => 0,
    };
    queue::shuffling_keeps_every_entry(s.queue.tracks, k, picks);
    let d = s.handled(PlayerCommandView::SetShuffle(on), picks);
    assert(d.acts[0] == ActView::Emit(PlayerEventView::ShuffleChanged(on)));
    if s.queue.current is Some {
        assert(d.core.queue.tracks.take(k) =~= s.queue.tracks.take(k));
    }
}

/// How the queue repeats is remembered and told, and changes nothing else.
pub proof fn repeating_is_remembered(s: ActorView, m: RepeatMode, picks: Seq<usize>)
    ensures
        ({
            let d = s.handled(PlayerCommandView::SetRepeat(m), picks);
            &&& d.core == (ActorView { queue: QueueView { repeat: m, ..s.queue }, ..s })
            &&& d.acts == seq![ActView::Emit(PlayerEventView::RepeatChanged(m))]
        }),
        m.after().after().after() == m,
        m.after() != m && m.after().after() != m,
        RepeatMode::Off.after() is One,
{
    assert(s.handled(PlayerCommandView::SetRepeat(m), picks).acts =~= seq![
        ActView::Emit(PlayerEventView::RepeatChanged(m)),
    ]);
}

/// What the interface is told of the queue is the queue.
pub open spec fn tells_the_queue(d: Did) -> bool {
    forall|i: int|
        0 <= i < d.acts.len() ==> match #[trigger] d.acts[i] {
            ActView::Emit(PlayerEventView::QueueChanged { tracks, current }) => tracks
                == d.core.queue.tracks && match d.core.queue.current {
                Some(c) => current == Some(c as usize),
                None => current is None,
            },
            _ => true,
        }
}

/// Some of what is to be done tells of the queue.
pub open spec fn says_the_queue_changed(acts: Seq<ActView>) -> bool {
    exists|i: int|
        0 <= i < acts.len() && #[trigger] acts[i] matches ActView::Emit(
            PlayerEventView::QueueChanged { .. },
        )
}

/// The interface is told of every change it shows: of another state, of another queue, and
/// it is told the queue that there is. What is loaded is what then plays.
pub open spec fn is_told(s: ActorView, d: Did) -> bool {
    &&& d.core.wf()
    &&& tells_the_queue(d)
    &&& d.core.state != s.state ==> d.acts.contains(
        ActView::Emit(PlayerEventView::StateChanged(d.core.state)),
    )
    &&& d.core.queue.tracks != s.queue.tracks || d.core.queue.current != s.queue.current
        ==> says_the_queue_changed(d.acts)
    &&& forall|i: int|
        0 <= i < d.acts.len() ==> match #[trigger] d.acts[i] {
            ActView::Load(t) => d.core.queue.playing() == Some(t) && d.core.state is Loading,
            _ => true,
        }
    &&& d.core.volume == s.volume
    &&& d.core.active == s.active
}

#[verifier::spinoff_prover]
proof fn lemma_told_of_a_track(s: ActorView, core: ActorView, t: TrackView)
    requires
        core.wf(),
        core.queue.playing() == Some(t),
        core.state == s.state,
        core.volume == s.volume,
        core.active == s.active,
    ensures
        is_told(s, actor::nothing(core).showing_queue().playing(t)),
{
    let d = actor::nothing(core).showing_queue().playing(t);
    assert(d.acts[0] matches ActView::Emit(PlayerEventView::QueueChanged { .. }));
    if d.core.state != s.state {
        assert(d.acts[1] == ActView::Emit(PlayerEventView::StateChanged(d.core.state)));
    }
}

#[verifier::spinoff_prover]
proof fn lemma_told_of_the_queue(s: ActorView, core: ActorView)
    requires
        core.wf(),
        core.state == s.state,
        core.volume == s.volume,
        core.active == s.active,
    ensures
        is_told(s, actor::nothing(core).showing_queue()),
        is_told(s, actor::nothing(core).showing_queue().and(ActView::Prefetch)),
        core.queue.playing() is None ==> is_told(
            s,
            actor::nothing(core).showing_queue().and(ActView::Stop).silent(),
        ),
{
    let d = actor::nothing(core).showing_queue();
    assert(d.acts[0] matches ActView::Emit(PlayerEventView::QueueChanged { .. }));
    assert(d.and(ActView::Prefetch).acts[0] == d.acts[0]);
    let e = d.and(ActView::Stop).silent();
    assert(e.acts[0] == d.acts[0]);
    if e.core.state != s.state {
        assert(e.acts[2] == ActView::Emit(PlayerEventView::StateChanged(e.core.state)));
    }
}

#[verifier::spinoff_prover]
proof fn lemma_told_of_little(s: ActorView, cmd: PlayerCommandView, picks: Seq<usize>)
    requires
        s.wf(),
        cmd is Shutdown || cmd is Pause || cmd is Resume || cmd is TogglePause || cmd is Stop
            || cmd is SeekRelative || cmd is SeekAbsolute || cmd is SetVolume || cmd is ToggleMute
            || cmd is SetRepeat,
    ensures
        is_told(s, s.handled(cmd, picks)),
{
    let d = s.handled(cmd, picks);
    if d.core.state != s.state {
        assert(d.acts[1] == ActView::Emit(PlayerEventView::StateChanged(d.core.state)));
    }
}

#[verifier::spinoff_prover]
proof fn lemma_told_of_the_order(s: ActorView, cmd: PlayerCommandView, picks: Seq<usize>)
    requires
        s.wf(),
        cmd is SetShuffle || cmd is ClearQueue,
    ensures
        is_told(s, s.handled(cmd, picks)),
{
    let d = s.handled(cmd, picks);
    let n = d.acts.len();
    if cmd is SetShuffle {
        queue::shuffle_keeps_what_plays(s.queue, cmd->SetShuffle_0, picks);
    }
    assert(d.acts[n - 1] matches ActView::Emit(PlayerEventView::QueueChanged { .. }));
    if d.core.state != s.state {
        assert(d.acts[1] == ActView::Emit(PlayerEventView::StateChanged(d.core.state)));
    }
}

/// Whatever is asked of the player, the interface is told of it, and the queue stays
/// well-formed.
#[verifier::spinoff_prover]
pub proof fn the_interface_is_told(s: ActorView, cmd: PlayerCommandView, picks: Seq<usize>)
    requires
        s.wf(),
    ensures
        is_told(s, s.handled(cmd, picks)),
{
    let q = s.queue;
    match cmd {
        PlayerCommandView::PlayNow(t) => {
            let new = q.pushed_next(seq![t]);
            let stepped = match q.current {
                Some(c) => new.at(c + 1),
                None => new,
            };
            lemma_told_of_a_track(s, s.afresh().with_queue(stepped), t);
        },
        PlayerCommandView::JumpTo(i) => {
            if i < q.tracks.len() {
                lemma_told_of_a_track(
                    s,
                    s.afresh().with_queue(q.at(i as int)),
                    q.tracks[i as int],
                );
            }
        },
        PlayerCommandView::Next => lemma_told_of_steps(s, q.next_index(), true),
        PlayerCommandView::Previous => lemma_told_of_steps(s, q.prev_index(), false),
        PlayerCommandView::EnqueueBack(ts) => lemma_told_of_more(s, q.pushed_back(ts)),
        PlayerCommandView::EnqueueNext(ts) => lemma_told_of_more(s, q.pushed_next(ts)),
        PlayerCommandView::RemoveFromQueue(i) => {
            let new = q.removed(i as int);
            lemma_told_of_the_queue(s, s.with_queue(new));
            if q.current == Some(i as int) && new.playing() is Some {
                lemma_told_of_a_track(s, s.with_queue(new), new.playing()->0);
            }
        },
        PlayerCommandView::MoveInQueue { from, to } => {
            queue::reordering_keeps_what_plays(q, from as int, to as int);
            lemma_told_of_the_queue(s, s.with_queue(q.reordered(from as int, to as int)));
        },
        PlayerCommandView::SetShuffle(_) => lemma_told_of_the_order(s, cmd, picks),
        PlayerCommandView::ClearQueue => lemma_told_of_the_order(s, cmd, picks),
        _ => lemma_told_of_little(s, cmd, picks),
    }
}

#[verifier::spinoff_prover]
proof fn lemma_told_of_steps(s: ActorView, to: Option<int>, on: bool)
    requires
        s.wf(),
        to == (if on {
            s.queue.next_index()
        } else {
            s.queue.prev_index()
        }),
    ensures
        is_told(
            s,
            if on {
                s.advanced()
            } else {
                s.gone_back()
            },
        ),
{
    match to {
        Some(i) => lemma_told_of_a_track(
            s,
            s.afresh().with_queue(s.queue.at(i)),
            s.queue.tracks[i],
        ),
        None => {
            let d = s.advanced();
            if on && d.core.state != s.state {
                assert(d.acts[0] == ActView::Emit(PlayerEventView::StateChanged(d.core.state)));
            }
        },
    }
}

#[verifier::spinoff_prover]
proof fn lemma_told_of_more(s: ActorView, q: QueueView)
    requires
        q.wf(),
    ensures
        is_told(s, s.enqueued(q)),
{
    lemma_told_of_the_queue(s, s.with_queue(q));
    match q.playing() {
        Some(t) => lemma_told_of_a_track(s, s.with_queue(q), t),
        None => {},
    }
}

/// Shutting down asks nothing of the audio, and changes nothing.
pub proof fn shutting_down_does_nothing_more(s: ActorView, picks: Seq<usize>)
    ensures
        s.handled(PlayerCommandView::Shutdown, picks) == actor::nothing(s),
{
}

/// What is fetched ahead of time is exactly what comes next and is neither on disk nor being
/// fetched: the nearest tracks behind the one that plays, in their order.
pub proof fn what_comes_next_is_fetched(
    s: ActorView,
    count: nat,
    local: Set<Seq<char>>,
    id: Seq<char>,
)
    requires
        s.wf(),
    ensures
        ({
            let next = s.queue.upcoming(count as int);
            let ids = actor::track_ids(next);
            &&& actor::wanted(ids, local, s.active).contains(id) <==> ids.contains(id)
                && !local.contains(id) && !s.active.contains(id)
            &&& next.len() <= count
            &&& s.queue.current matches Some(c) ==> {
                &&& forall|i: int|
                    0 <= i < next.len() ==> #[trigger] next[i] == s.queue.tracks[c + 1 + i]
                &&& next.len() == count || c + 1 + next.len() == s.queue.tracks.len()
            }
            &&& s.queue.current is None ==> next.len() == 0
            &&& forall|i: int| 0 <= i < ids.len() ==> #[trigger] ids[i] == next[i].video_id
        }),
{
    let ids = actor::track_ids(s.queue.upcoming(count as int));
    actor::nothing_is_prefetched_twice(ids, local, s.active);
    if ids.contains(id) && !local.contains(id) && !s.active.contains(id) {
        lemma_wanted(ids, local, s.active, id);
    }
}

proof fn lemma_wanted(
    ids: Seq<Seq<char>>,
    local: Set<Seq<char>>,
    active: Set<Seq<char>>,
    id: Seq<char>,
)
    requires
        ids.contains(id),
        !local.contains(id),
        !active.contains(id),
    ensures
        actor::wanted(ids, local, active).contains(id),
    decreases ids.len(),
{
    let rest = ids.drop_last();
    let before = actor::wanted(rest, local, active);
    let all = actor::wanted(ids, local, active);
    if rest.contains(id) {
        lemma_wanted(rest, local, active, id);
        let k = choose|k: int| 0 <= k < before.len() && before[k] == id;
        assert(all[k] == id);
    } else {
        let k = choose|k: int| 0 <= k < ids.len() && ids[k] == id;
        if k < rest.len() {
            assert(rest[k] == id);
        }
        if before.contains(id) {
        } else {
            assert(all[all.len() - 1] == id);
        }
    }
}

/// What is being fetched is not asked for again, until it is done.
pub proof fn a_fetch_under_way_is_not_started_again(
    s: ActorView,
    ids: Seq<Seq<char>>,
    id: Seq<char>,
)
    requires
        ids.contains(id),
    ensures
        s.fetching(ids).active.contains(id),
        !s.fetching(ids).fetched(id).active.contains(id),
        forall|x: Seq<char>|
            x != id ==> (#[trigger] s.fetched(id).active.contains(x) <==> s.active.contains(x)),
        s.fetching(ids).queue == s.queue && s.fetching(ids).state == s.state,
        s.fetched(id).queue == s.queue && s.fetched(id).state == s.state,
{
    assert(ids.to_set().contains(id));
}

/// The progress is told only of what sounds or is about to, and not all the time.
pub proof fn the_progress_is_of_what_sounds(s: ActorView, since_ms: u64)
    ensures
        s.tells_progress(since_ms) ==> s.state is Playing || s.state is Loading,
        s.state is Playing && since_ms >= 1000 ==> s.tells_progress(since_ms),
        since_ms == 0 ==> !s.tells_progress(since_ms),
{
}

/// At first nothing plays, nothing is queued, and nothing is muted.
pub proof fn at_first_there_is_silence(volume: u8)
    ensures
        ({
            let s = ActorView::initial(volume);
            &&& s.wf()
            &&& s.queue.tracks.len() == 0
            &&& s.state is Stopped
            &&& s.volume == volume
            &&& s.muted_at is None
            &&& !s.retried
            &&& s.queue.repeat is Off && !s.queue.shuffle
            &&& s.active == Set::<Seq<char>>::empty()
        }),
{
}

/// A track that was found and loaded changes nothing yet: it plays once its file does. One
/// that could not be is told with the reason, and playback stops.
pub proof fn a_load_that_failed_stops(s: ActorView, why: Seq<char>)
    ensures
        s.load_settled(Ok(())) == actor::nothing(s),
        ({
            let d = s.load_settled(Err(why));
            &&& d.core == (ActorView { state: PlaybackState::Stopped, ..s })
            &&& d.acts.len() > 0 && d.acts[0] == ActView::Emit(PlayerEventView::Error(why))
            &&& !(s.state is Stopped) ==> d.acts.contains(
                ActView::Emit(PlayerEventView::StateChanged(PlaybackState::Stopped)),
            )
            &&& starts_nothing(d.acts)
        }),
{
    let d = s.load_settled(Err(why));
    if !(s.state is Stopped) {
        assert(d.acts[1] == ActView::Emit(PlayerEventView::StateChanged(PlaybackState::Stopped)));
    }
}

} // verus!
