//! What the player does with a command, with the end of a track, and with how its own
//! actions came out. The audio library, the resolver and the disk are elsewhere: this
//! decides, and says what is to be done in which order.

use crate::copied::Copied;
use crate::marks::MarkSet;
use crate::model::{Track, TrackView, VideoId};
use crate::player::{
    self, PlaybackState, PlayerCommand, PlayerCommandView, PlayerEvent, PlayerEventView,
    clamp_volume,
};
use crate::queue::{Queue, QueueView};
use vstd::prelude::*;

verus! {

/// One retry per track.
#[derive(Debug, Clone, Copy, PartialEq, Eq, Structural)]
pub struct RetryState {
    used: bool,
}

impl View for RetryState {
    type V = bool;

    /// Whether the retry is used up.
    closed spec fn view(&self) -> bool {
        self.used
    }
}

impl Default for RetryState {
    fn default() -> (r: RetryState)
        ensures
            !r@,
    {
        RetryState { used: false }
    }
}

impl RetryState {
    /// Whether to retry; true once until it is reset.
    pub fn should_retry(&mut self) -> (r: bool)
        ensures
            r == !old(self)@,
            final(self)@,
    {
        if self.used {
            false
        } else {
            self.used = true;
            true
        }
    }

    pub fn reset(&mut self)
        ensures
            !final(self)@,
    {
        self.used = false;
    }
}

/// Why a file ended.
#[derive(Debug, Clone, Copy, PartialEq, Eq, Structural)]
pub enum EndReason {
    Eof,
    Error,
    Stop,
    Quit,
}

/// Why a file ended, by the number the audio library gives.
pub open spec fn end_of(reason: u32) -> EndReason {
    if reason == 0 {
        EndReason::Eof
    } else if reason == 2 {
        EndReason::Stop
    } else if reason == 3 {
        EndReason::Quit
    } else {
        EndReason::Error
    }
}

/// Why a file ended, by the number the audio library gives. Anything it does not name
/// is taken for an error: taking it for a clean finish would silently skip a track.
pub fn map_end_reason(reason: u32) -> (r: EndReason)
    ensures
        r == end_of(reason),
{
    match reason {
        0 => EndReason::Eof,
        2 => EndReason::Stop,
        3 => EndReason::Quit,
        _ => EndReason::Error,
    }
}

/// Something to be done.
#[derive(Debug, Clone, PartialEq, Eq)]
pub enum Act {
    /// Tell the interface.
    Emit(PlayerEvent),
    /// Find this track's audio, and load it.
    Load(Track),
    /// Fetch what comes next ahead of time.
    Prefetch,
    /// Forget where this track's audio was found.
    Invalidate(VideoId),
    SetPause(bool),
    Stop,
    SetVolume(u8),
    Mute,
    /// Back to the volume there was.
    Unmute(u8),
    SeekBy(i64),
    SeekTo(u64),
}

/// The model of an `Act`.
#[verifier::ext_equal]
pub enum ActView {
    Emit(PlayerEventView),
    Load(TrackView),
    Prefetch,
    Invalidate(Seq<char>),
    SetPause(bool),
    Stop,
    SetVolume(u8),
    Mute,
    Unmute(u8),
    SeekBy(i64),
    SeekTo(u64),
}

impl DeepView for Act {
    type V = ActView;

    open spec fn deep_view(&self) -> ActView {
        match self {
            Act::Emit(e) => ActView::Emit(e.deep_view()),
            Act::Load(t) => ActView::Load(t.deep_view()),
            Act::Prefetch => ActView::Prefetch,
            Act::Invalidate(id) => ActView::Invalidate(id.deep_view()),
            Act::SetPause(on) => ActView::SetPause(*on),
            Act::Stop => ActView::Stop,
            Act::SetVolume(v) => ActView::SetVolume(*v),
            Act::Mute => ActView::Mute,
            Act::Unmute(v) => ActView::Unmute(*v),
            Act::SeekBy(d) => ActView::SeekBy(*d),
            Act::SeekTo(s) => ActView::SeekTo(*s),
        }
    }
}

/// What the player knows.
#[derive(Debug, Clone)]
pub struct ActorCore {
    queue: Queue,
    retry: RetryState,
    state: PlaybackState,
    volume: u8,
    /// The volume before muting.
    muted_at: Option<u8>,
    /// What is being fetched ahead of time.
    active: MarkSet,
}

/// The model of an `ActorCore`.
#[verifier::ext_equal]
pub struct ActorView {
    pub queue: QueueView,
    /// The retry of the current track is used up.
    pub retried: bool,
    pub state: PlaybackState,
    pub volume: u8,
    pub muted_at: Option<u8>,
    pub active: Set<Seq<char>>,
}

impl View for ActorCore {
    type V = ActorView;

    closed spec fn view(&self) -> ActorView {
        ActorView {
            queue: self.queue@,
            retried: self.retry@,
            state: self.state,
            volume: self.volume,
            muted_at: self.muted_at,
            active: self.active@,
        }
    }
}

/// What comes of something: what the player then knows, and what is to be done.
#[verifier::ext_equal]
pub struct Did {
    pub core: ActorView,
    pub acts: Seq<ActView>,
}

/// Nothing is to be done.
pub open spec fn nothing(core: ActorView) -> Did {
    Did { core, acts: Seq::empty() }
}

impl Did {
    /// With one thing more to be done.
    pub open spec fn and(self, act: ActView) -> Did {
        Did { acts: self.acts.push(act), ..self }
    }

    /// With the playback in another state, and the interface told of it if it is one.
    pub open spec fn in_state(self, s: PlaybackState) -> Did {
        if self.core.state == s {
            self
        } else {
            Did {
                core: ActorView { state: s, ..self.core },
                acts: self.acts.push(ActView::Emit(PlayerEventView::StateChanged(s))),
            }
        }
    }

    /// With the interface told of the queue.
    pub open spec fn showing_queue(self) -> Did {
        self.and(
            ActView::Emit(
                PlayerEventView::QueueChanged {
                    tracks: self.core.queue.tracks,
                    current: match self.core.queue.current {
                        Some(i) => Some(i as usize),
                        None => None,
                    },
                },
            ),
        )
    }

    /// With a track loading, and what comes after it fetched ahead of time.
    pub open spec fn playing(self, t: TrackView) -> Did {
        self.in_state(PlaybackState::Loading).and(
            ActView::Emit(PlayerEventView::TrackChanged(Some(t))),
        ).and(ActView::Load(t)).and(ActView::Prefetch)
    }

    /// With nothing playing any more.
    pub open spec fn silent(self) -> Did {
        self.in_state(PlaybackState::Stopped).and(
            ActView::Emit(PlayerEventView::TrackChanged(None)),
        )
    }
}

impl ActorView {
    /// What the player knows at first.
    pub open spec fn initial(volume: u8) -> ActorView {
        ActorView {
            queue: QueueView::empty(),
            retried: false,
            state: PlaybackState::Stopped,
            volume,
            muted_at: None,
            active: Set::empty(),
        }
    }

    pub open spec fn wf(self) -> bool {
        self.queue.wf()
    }

    /// With another queue.
    pub open spec fn with_queue(self, queue: QueueView) -> ActorView {
        ActorView { queue, ..self }
    }

    /// With a retry to spare.
    pub open spec fn afresh(self) -> ActorView {
        ActorView { retried: false, ..self }
    }

    /// On to the next track; where there is none, that is said rather than starting
    /// over.
    pub open spec fn advanced(self) -> Did {
        let core = self.afresh().with_queue(self.queue.moved_to(self.queue.next_index()));
        match self.queue.next_index() {
            Some(i) => nothing(core).showing_queue().playing(self.queue.tracks[i]),
            None => nothing(core).silent(),
        }
    }

    /// Back to the track before, where there is one.
    pub open spec fn gone_back(self) -> Did {
        let core = self.afresh().with_queue(self.queue.moved_to(self.queue.prev_index()));
        match self.queue.prev_index() {
            Some(i) => nothing(core).showing_queue().playing(self.queue.tracks[i]),
            None => nothing(core),
        }
    }

    /// A track is put in right after the current one, and stepped onto.
    pub open spec fn played_now(self, t: TrackView) -> Did {
        let q = self.queue.pushed_next(seq![t]);
        let stepped = match self.queue.current {
            Some(c) => q.at(c + 1),
            None => q,
        };
        nothing(self.afresh().with_queue(stepped)).showing_queue().playing(t)
    }

    /// Tracks were put into the queue; where it was empty, it starts.
    pub open spec fn enqueued(self, q: QueueView) -> Did {
        let d = nothing(self.with_queue(q)).showing_queue();
        match q.playing() {
            Some(t) if self.queue.tracks.len() == 0 => d.playing(t),
            _ => d.and(ActView::Prefetch),
        }
    }

    /// A track is taken out of the queue. Removing what is playing changes what is
    /// playing.
    pub open spec fn dequeued(self, i: int) -> Did {
        let q = self.queue.removed(i);
        let d = nothing(self.with_queue(q)).showing_queue();
        if self.queue.current == Some(i) {
            match q.playing() {
                Some(t) => d.playing(t),
                None => d.and(ActView::Stop).silent(),
            }
        } else {
            d
        }
    }

    /// What a command leads to. `picks` is chance, for a shuffle.
    pub open spec fn handled(self, cmd: PlayerCommandView, picks: Seq<usize>) -> Did {
        match cmd {
            PlayerCommandView::Shutdown => nothing(self),
            PlayerCommandView::PlayNow(t) => self.played_now(t),
            PlayerCommandView::JumpTo(i) => if i < self.queue.tracks.len() {
                nothing(
                    self.afresh().with_queue(self.queue.at(i as int)),
                ).showing_queue().playing(self.queue.tracks[i as int])
            } else {
                nothing(self.afresh())
            },
            PlayerCommandView::Pause => nothing(self).and(ActView::SetPause(true)),
            PlayerCommandView::Resume => nothing(self).and(ActView::SetPause(false)),
            PlayerCommandView::TogglePause => nothing(self).and(
                ActView::SetPause(self.state.active()),
            ),
            PlayerCommandView::Stop => nothing(self).and(ActView::Stop).in_state(
                PlaybackState::Stopped,
            ),
            PlayerCommandView::Next => self.advanced(),
            PlayerCommandView::Previous => self.gone_back(),
            PlayerCommandView::SeekRelative(d) => nothing(self).and(ActView::SeekBy(d)),
            PlayerCommandView::SeekAbsolute(s) => nothing(self).and(ActView::SeekTo(s)),
            PlayerCommandView::SetVolume(v) => nothing(self).and(
                ActView::SetVolume(player::clamped(v as int, 0, 100) as u8),
            ),
            PlayerCommandView::ToggleMute => match self.muted_at {
                Some(prev) => nothing(ActorView { muted_at: None, ..self }).and(
                    ActView::Unmute(prev),
                ),
                None => nothing(self).and(ActView::Mute),
            },
            PlayerCommandView::SetShuffle(on) => nothing(
                self.with_queue(self.queue.with_shuffle(on, picks)),
            ).and(ActView::Emit(PlayerEventView::ShuffleChanged(on))).showing_queue(),
            PlayerCommandView::SetRepeat(m) => nothing(
                self.with_queue(QueueView { repeat: m, ..self.queue }),
            ).and(ActView::Emit(PlayerEventView::RepeatChanged(m))),
            PlayerCommandView::EnqueueBack(ts) => self.enqueued(self.queue.pushed_back(ts)),
            PlayerCommandView::EnqueueNext(ts) => self.enqueued(self.queue.pushed_next(ts)),
            PlayerCommandView::RemoveFromQueue(i) => self.dequeued(i as int),
            PlayerCommandView::MoveInQueue { from, to } => nothing(
                self.with_queue(self.queue.reordered(from as int, to as int)),
            ).showing_queue(),
            PlayerCommandView::ClearQueue => nothing(
                self.with_queue(self.queue.cleared()),
            ).and(ActView::Stop).silent().showing_queue(),
        }
    }
}

/// Adds something to be done.
fn push_act(out: &mut Vec<Act>, act: Act)
    ensures
        final(out).deep_view() == old(out).deep_view().push(act.deep_view()),
{
    let ghost v = act.deep_view();
    out.push(act);
    assert(out.deep_view() =~= old(out).deep_view().push(v));
}

fn no_acts() -> (r: Vec<Act>)
    ensures
        r.deep_view() == Seq::<ActView>::empty(),
{
    let r: Vec<Act> = Vec::new();
    assert(r.deep_view() =~= Seq::<ActView>::empty());
    r
}

impl ActorCore {
    pub open spec fn wf(self) -> bool {
        self@.wf()
    }

    pub fn new(volume: u8) -> (r: ActorCore)
        ensures
            r@ == ActorView::initial(volume),
            r.wf(),
    {
        let r = ActorCore {
            queue: Queue::default(),
            retry: RetryState::default(),
            state: PlaybackState::Stopped,
            volume,
            muted_at: None,
            active: MarkSet::new(),
        };
        assert(r@ =~= ActorView::initial(volume));
        r
    }

    /// The playback is in this state.
    pub fn state(&self) -> (r: PlaybackState)
        ensures
            r == self@.state,
    {
        self.state
    }

    fn set_state(&mut self, s: PlaybackState, out: &mut Vec<Act>)
        ensures
            (Did { core: final(self)@, acts: final(out).deep_view() }) == (Did {
                core: old(self)@,
                acts: old(out).deep_view(),
            }).in_state(s),
    {
        if self.state != s {
            self.state = s;
            push_act(out, Act::Emit(PlayerEvent::StateChanged(s)));
        }
    }

    fn emit_queue(&self, out: &mut Vec<Act>)
        ensures
            (Did { core: self@, acts: final(out).deep_view() }) == (Did {
                core: self@,
                acts: old(out).deep_view(),
            }).showing_queue(),
    {
        push_act(
            out,
            Act::Emit(
                PlayerEvent::QueueChanged {
                    tracks: self.queue.tracks().copy(),
                    current: self.queue.current_index(),
                },
            ),
        );
    }

    fn play_track(&mut self, t: Track, out: &mut Vec<Act>)
        ensures
            (Did { core: final(self)@, acts: final(out).deep_view() }) == (Did {
                core: old(self)@,
                acts: old(out).deep_view(),
            }).playing(t.deep_view()),
    {
        self.set_state(PlaybackState::Loading, out);
        push_act(out, Act::Emit(PlayerEvent::TrackChanged(Some(t.copy()))));
        push_act(out, Act::Load(t));
        push_act(out, Act::Prefetch);
    }

    fn fall_silent(&mut self, out: &mut Vec<Act>)
        ensures
            (Did { core: final(self)@, acts: final(out).deep_view() }) == (Did {
                core: old(self)@,
                acts: old(out).deep_view(),
            }).silent(),
    {
        self.set_state(PlaybackState::Stopped, out);
        push_act(out, Act::Emit(PlayerEvent::TrackChanged(None)));
    }

    fn advance_and_play(&mut self, out: &mut Vec<Act>)
        requires
            old(self).wf(),
            old(out).deep_view() == Seq::<ActView>::empty(),
        ensures
            (Did { core: final(self)@, acts: final(out).deep_view() }) == old(self)@.advanced(),
            final(self).wf(),
    {
        self.retry.reset();
        match self.queue.advance() {
            Some(t) => {
                self.emit_queue(out);
                self.play_track(t, out);
            },
            None => self.fall_silent(out),
        }
    }

    fn play_previous(&mut self, out: &mut Vec<Act>)
        requires
            old(self).wf(),
            old(out).deep_view() == Seq::<ActView>::empty(),
        ensures
            (Did { core: final(self)@, acts: final(out).deep_view() }) == old(self)@.gone_back(),
            final(self).wf(),
    {
        self.retry.reset();
        match self.queue.previous() {
            Some(t) => {
                self.emit_queue(out);
                self.play_track(t, out);
            },
            None => {},
        }
    }

    fn play_now(&mut self, t: Track, out: &mut Vec<Act>)
        requires
            old(self).wf(),
            old(out).deep_view() == Seq::<ActView>::empty(),
        ensures
            (Did { core: final(self)@, acts: final(out).deep_view() }) == old(self)@.played_now(
                t.deep_view(),
            ),
            final(self).wf(),
    {
        self.retry.reset();
        let at = self.queue.current_index();
        let mut one: Vec<Track> = Vec::new();
        one.push(t.copy());
        assert(one.deep_view() =~= seq![t.deep_view()]);
        self.queue.push_next(one);
        match at {
            Some(c) => {
                let ghost q = self.queue@;
                let n = self.queue.len();
                assert(c < n);
                let _ = self.queue.jump_to(c + 1);
            },
            None => {},
        }
        self.emit_queue(out);
        self.play_track(t, out);
    }

    fn enqueue(&mut self, ts: Vec<Track>, next: bool, out: &mut Vec<Act>)
        requires
            old(self).wf(),
            old(out).deep_view() == Seq::<ActView>::empty(),
        ensures
            (Did { core: final(self)@, acts: final(out).deep_view() }) == old(self)@.enqueued(
                if next {
                    old(self)@.queue.pushed_next(ts.deep_view())
                } else {
                    old(self)@.queue.pushed_back(ts.deep_view())
                },
            ),
            final(self).wf(),
    {
        let was_empty: bool = self.queue.is_empty();
        if next {
            self.queue.push_next(ts);
        } else {
            self.queue.push_back(ts);
        }
        self.emit_queue(out);
        match self.queue.current() {
            Some(t) => {
                if was_empty {
                    self.play_track(t, out);
                    return;
                }
            },
            None => {},
        }
        push_act(out, Act::Prefetch);
    }

    fn dequeue(&mut self, i: usize, out: &mut Vec<Act>)
        requires
            old(self).wf(),
            old(out).deep_view() == Seq::<ActView>::empty(),
        ensures
            (Did { core: final(self)@, acts: final(out).deep_view() }) == old(self)@.dequeued(
                i as int,
            ),
            final(self).wf(),
    {
        let was_current: bool = match self.queue.current_index() {
            Some(c) => c == i,
            None => false,
        };
        self.queue.remove(i);
        self.emit_queue(out);
        if was_current {
            match self.queue.current() {
                Some(t) => self.play_track(t, out),
                None => {
                    push_act(out, Act::Stop);
                    self.fall_silent(out);
                },
            }
        }
    }

    /// What a command leads to. `picks` is chance, for a shuffle.
    pub fn handle(&mut self, cmd: PlayerCommand, picks: &Vec<usize>) -> (acts: Vec<Act>)
        requires
            old(self).wf(),
        ensures
            (Did { core: final(self)@, acts: acts.deep_view() }) == old(self)@.handled(
                cmd.deep_view(),
                picks@,
            ),
            final(self).wf(),
    {
        let mut out = no_acts();
        match cmd {
            PlayerCommand::Shutdown => {},
            PlayerCommand::PlayNow(t) => self.play_now(t, &mut out),
            PlayerCommand::JumpTo(i) => {
                self.retry.reset();
                match self.queue.jump_to(i) {
                    Some(t) => {
                        self.emit_queue(&mut out);
                        self.play_track(t, &mut out);
                    },
                    None => {},
                }
            },
            PlayerCommand::Pause => push_act(&mut out, Act::SetPause(true)),
            PlayerCommand::Resume => push_act(&mut out, Act::SetPause(false)),
            PlayerCommand::TogglePause => push_act(
                &mut out,
                Act::SetPause(self.state.is_active()),
            ),
            PlayerCommand::Stop => {
                push_act(&mut out, Act::Stop);
                self.set_state(PlaybackState::Stopped, &mut out);
            },
            PlayerCommand::Next => self.advance_and_play(&mut out),
            PlayerCommand::Previous => self.play_previous(&mut out),
            PlayerCommand::SeekRelative(d) => push_act(&mut out, Act::SeekBy(d)),
            PlayerCommand::SeekAbsolute(s) => push_act(&mut out, Act::SeekTo(s)),
            PlayerCommand::SetVolume(v) => push_act(
                &mut out,
                Act::SetVolume(clamp_volume(v as i64)),
            ),
            PlayerCommand::ToggleMute => match self.muted_at {
                Some(prev) => {
                    self.muted_at = None;
                    push_act(&mut out, Act::Unmute(prev));
                },
                None => push_act(&mut out, Act::Mute),
            },
            PlayerCommand::SetShuffle(on) => {
                self.queue.set_shuffle(on, picks);
                push_act(&mut out, Act::Emit(PlayerEvent::ShuffleChanged(on)));
                self.emit_queue(&mut out);
            },
            PlayerCommand::SetRepeat(m) => {
                self.queue.set_repeat(m);
                push_act(&mut out, Act::Emit(PlayerEvent::RepeatChanged(m)));
            },
            PlayerCommand::EnqueueBack(ts) => self.enqueue(ts, false, &mut out),
            PlayerCommand::EnqueueNext(ts) => self.enqueue(ts, true, &mut out),
            PlayerCommand::RemoveFromQueue(i) => self.dequeue(i, &mut out),
            PlayerCommand::MoveInQueue { from, to } => {
                self.queue.move_item(from, to);
                self.emit_queue(&mut out);
            },
            PlayerCommand::ClearQueue => {
                self.queue.clear();
                push_act(&mut out, Act::Stop);
                self.fall_silent(&mut out);
                self.emit_queue(&mut out);
            },
        }
        out
    }
}

/// How often the progress is told, at most, in milliseconds.
pub const PROGRESS_MS: u64 = 240;

/// The model of how something came out.
pub open spec fn told(outcome: Result<(), String>) -> Result<(), Seq<char>> {
    match outcome {
        Ok(_) => Ok(()),
        Err(e) => Err(e@),
    }
}

/// Which of some tracks to fetch ahead of time: those that are neither on disk nor
/// being fetched already, each once.
pub open spec fn wanted(
    ids: Seq<Seq<char>>,
    local: Set<Seq<char>>,
    active: Set<Seq<char>>,
) -> Seq<Seq<char>>
    decreases ids.len(),
{
    if ids.len() == 0 {
        Seq::empty()
    } else {
        let before = wanted(ids.drop_last(), local, active);
        let id = ids.last();
        if local.contains(id) || active.contains(id) || before.contains(id) {
            before
        } else {
            before.push(id)
        }
    }
}

/// The ids of tracks.
pub open spec fn track_ids(ts: Seq<TrackView>) -> Seq<Seq<char>> {
    Seq::new(ts.len(), |i: int| ts[i].video_id)
}

impl ActorView {
    /// After pausing or resuming, where that worked.
    pub open spec fn pause_settled(self, paused: bool, ok: bool) -> Did {
        if ok {
            nothing(self).in_state(
                if paused {
                    PlaybackState::Paused
                } else {
                    PlaybackState::Playing
                },
            )
        } else {
            nothing(self)
        }
    }

    /// With another volume, of which the interface is told.
    pub open spec fn at_volume(self, v: u8, muted_at: Option<u8>) -> Did {
        nothing(ActorView { volume: v, muted_at, ..self }).and(
            ActView::Emit(PlayerEventView::VolumeChanged(v)),
        )
    }

    /// After setting the volume: a volume that was set ends the muting.
    pub open spec fn volume_settled(self, v: u8, outcome: Result<(), Seq<char>>) -> Did {
        match outcome {
            Ok(_) => self.at_volume(v, None),
            Err(why) => self.failed(why),
        }
    }

    /// After muting, where that worked. The volume there was is remembered.
    pub open spec fn mute_settled(self, ok: bool) -> Did {
        if ok {
            self.at_volume(0, Some(self.volume))
        } else {
            nothing(self)
        }
    }

    /// After going back to the volume there was, where that worked.
    pub open spec fn unmute_settled(self, prev: u8, ok: bool) -> Did {
        if ok {
            self.at_volume(prev, self.muted_at)
        } else {
            nothing(self)
        }
    }

    /// After seeking.
    pub open spec fn seek_settled(self, outcome: Result<(), Seq<char>>) -> Did {
        match outcome {
            Ok(_) => nothing(self),
            Err(why) => self.failed(why),
        }
    }

    /// After finding and loading a track.
    pub open spec fn load_settled(self, outcome: Result<(), Seq<char>>) -> Did {
        match outcome {
            Ok(_) => nothing(self),
            Err(why) => self.failed(why).in_state(PlaybackState::Stopped),
        }
    }

    /// With a file loaded.
    pub open spec fn sounding(self) -> Did {
        nothing(self).in_state(PlaybackState::Playing)
    }

    /// The progress is to be told, so long after it was told last.
    pub open spec fn tells_progress(self, since_ms: u64) -> bool {
        self.state.active() && since_ms >= PROGRESS_MS
    }

    /// With some tracks being fetched ahead of time.
    pub open spec fn fetching(self, ids: Seq<Seq<char>>) -> ActorView {
        ActorView { active: self.active.union(ids.to_set()), ..self }
    }

    /// With a track no longer being fetched ahead of time.
    pub open spec fn fetched(self, id: Seq<char>) -> ActorView {
        ActorView { active: self.active.remove(id), ..self }
    }

    /// With the interface told of an error.
    pub open spec fn failed(self, why: Seq<char>) -> Did {
        nothing(self).and(ActView::Emit(PlayerEventView::Error(why)))
    }

    /// A stream that expired is renewed once per track.
    pub open spec fn retrying(self) -> Did {
        match self.queue.playing() {
            Some(t) => if self.retried {
                self.failed("this track's stream expired and could not be renewed"@).in_state(
                    PlaybackState::Stopped,
                )
            } else {
                nothing(ActorView { retried: true, ..self }).and(
                    ActView::Invalidate(t.video_id),
                ).playing(t)
            },
            None => nothing(self),
        }
    }

    /// After a file ended. A clean finish goes on to the next track, an error tries
    /// the same one again; the rest is the player's own doing.
    pub open spec fn ended(self, reason: EndReason) -> Did {
        match reason {
            EndReason::Eof => match self.queue.playing() {
                Some(t) => Did {
                    acts: seq![ActView::Emit(PlayerEventView::TrackEnded(t.video_id))]
                        + self.advanced().acts,
                    ..self.advanced()
                },
                None => self.advanced(),
            },
            EndReason::Error => self.retrying(),
            EndReason::Stop => nothing(self),
            EndReason::Quit => nothing(self),
        }
    }
}

impl ActorCore {
    /// How pausing or resuming came out.
    pub fn pause_done(&mut self, paused: bool, ok: bool) -> (acts: Vec<Act>)
        requires
            old(self).wf(),
        ensures
            (Did { core: final(self)@, acts: acts.deep_view() }) == old(self)@.pause_settled(
                paused,
                ok,
            ),
            final(self).wf(),
    {
        let mut out = no_acts();
        if ok {
            self.set_state(
                if paused {
                    PlaybackState::Paused
                } else {
                    PlaybackState::Playing
                },
                &mut out,
            );
        }
        out
    }

    /// How setting the volume came out.
    pub fn volume_done(&mut self, v: u8, outcome: Result<(), String>) -> (acts: Vec<Act>)
        requires
            old(self).wf(),
        ensures
            (Did { core: final(self)@, acts: acts.deep_view() }) == old(self)@.volume_settled(
                v,
                told(outcome),
            ),
            final(self).wf(),
    {
        let mut out = no_acts();
        match outcome {
            Ok(_) => {
                self.volume = v;
                self.muted_at = None;
                push_act(&mut out, Act::Emit(PlayerEvent::VolumeChanged(v)));
            },
            Err(e) => push_act(&mut out, Act::Emit(PlayerEvent::Error(e))),
        }
        out
    }

    /// How muting came out. The volume there was is remembered.
    pub fn mute_done(&mut self, ok: bool) -> (acts: Vec<Act>)
        requires
            old(self).wf(),
        ensures
            (Did { core: final(self)@, acts: acts.deep_view() }) == old(self)@.mute_settled(ok),
            final(self).wf(),
    {
        let mut out = no_acts();
        if ok {
            self.muted_at = Some(self.volume);
            self.volume = 0;
            push_act(&mut out, Act::Emit(PlayerEvent::VolumeChanged(0)));
        }
        out
    }

    /// How going back to the volume there was came out.
    pub fn unmute_done(&mut self, prev: u8, ok: bool) -> (acts: Vec<Act>)
        requires
            old(self).wf(),
        ensures
            (Did { core: final(self)@, acts: acts.deep_view() }) == old(self)@.unmute_settled(
                prev,
                ok,
            ),
            final(self).wf(),
    {
        let mut out = no_acts();
        if ok {
            self.volume = prev;
            push_act(&mut out, Act::Emit(PlayerEvent::VolumeChanged(prev)));
        }
        out
    }

    /// How seeking came out.
    pub fn seek_done(&mut self, outcome: Result<(), String>) -> (acts: Vec<Act>)
        requires
            old(self).wf(),
        ensures
            (Did { core: final(self)@, acts: acts.deep_view() }) == old(self)@.seek_settled(
                told(outcome),
            ),
            final(self).wf(),
    {
        let mut out = no_acts();
        match outcome {
            Ok(_) => {},
            Err(e) => push_act(&mut out, Act::Emit(PlayerEvent::Error(e))),
        }
        out
    }

    /// How finding and loading a track came out.
    pub fn load_done(&mut self, outcome: Result<(), String>) -> (acts: Vec<Act>)
        requires
            old(self).wf(),
        ensures
            (Did { core: final(self)@, acts: acts.deep_view() }) == old(self)@.load_settled(
                told(outcome),
            ),
            final(self).wf(),
    {
        let mut out = no_acts();
        match outcome {
            Ok(_) => {},
            Err(e) => {
                push_act(&mut out, Act::Emit(PlayerEvent::Error(e)));
                self.set_state(PlaybackState::Stopped, &mut out);
            },
        }
        out
    }

    /// The audio library has a file loaded.
    pub fn file_loaded(&mut self) -> (acts: Vec<Act>)
        requires
            old(self).wf(),
        ensures
            (Did { core: final(self)@, acts: acts.deep_view() }) == old(self)@.sounding(),
            final(self).wf(),
    {
        let mut out = no_acts();
        self.set_state(PlaybackState::Playing, &mut out);
        out
    }

    fn retry_current(&mut self, out: &mut Vec<Act>)
        requires
            old(self).wf(),
            old(out).deep_view() == Seq::<ActView>::empty(),
        ensures
            (Did { core: final(self)@, acts: final(out).deep_view() }) == old(self)@.retrying(),
            final(self).wf(),
    {
        match self.queue.current() {
            Some(t) => {
                if self.retry.should_retry() {
                    push_act(out, Act::Invalidate(t.video_id.copy()));
                    self.play_track(t, out);
                } else {
                    push_act(
                        out,
                        Act::Emit(
                            PlayerEvent::Error(
                                "this track's stream expired and could not be renewed".to_owned(),
                            ),
                        ),
                    );
                    self.set_state(PlaybackState::Stopped, out);
                }
            },
            None => {},
        }
    }

    /// The audio library has come to the end of a file.
    pub fn file_ended(&mut self, reason: EndReason) -> (acts: Vec<Act>)
        requires
            old(self).wf(),
        ensures
            (Did { core: final(self)@, acts: acts.deep_view() }) == old(self)@.ended(reason),
            final(self).wf(),
    {
        let mut out = no_acts();
        match reason {
            EndReason::Eof => {
                let finished = self.queue.current();
                let mut rest = no_acts();
                self.advance_and_play(&mut rest);
                match finished {
                    Some(t) => {
                        push_act(&mut out, Act::Emit(PlayerEvent::TrackEnded(t.video_id)));
                        let ghost first = out.deep_view();
                        let ghost more = rest.deep_view();
                        out.append(&mut rest);
                        assert(out.deep_view() =~= first + more);
                        assert(first =~= seq![
                            ActView::Emit(PlayerEventView::TrackEnded(t.deep_view().video_id)),
                        ]);
                    },
                    None => {
                        return rest;
                    },
                }
            },
            EndReason::Error => self.retry_current(&mut out),
            EndReason::Stop => {},
            EndReason::Quit => {},
        }
        out
    }

    /// Whether to tell the progress, so long after it was told last.
    pub fn progress_due(&self, since_ms: u64) -> (r: bool)
        ensures
            r == self@.tells_progress(since_ms),
    {
        self.state.is_active() && since_ms >= PROGRESS_MS
    }

    /// The next `count` tracks, by their ids.
    pub fn upcoming_ids(&self, count: usize) -> (r: Vec<VideoId>)
        requires
            self.wf(),
        ensures
            r.deep_view() == track_ids(self@.queue.upcoming(count as int)),
    {
        let mut out: Vec<VideoId> = Vec::new();
        let ghost want = track_ids(self@.queue.upcoming(count as int));
        match self.queue.current_index() {
            None => {
                assert(out.deep_view() =~= want);
                out
            },
            Some(c) => {
                let tracks = self.queue.tracks();
                let ghost all = tracks.deep_view();
                let n: usize = tracks.len();
                assert(n == all.len());
                let mut i: usize = c + 1;
                assert(out.deep_view() =~= want.take(0));
                while i < n && i - c - 1 < count
                    invariant
                        c < i <= n == all.len(),
                        all == tracks.deep_view(),
                        n == tracks@.len(),
                        i - c - 1 <= count,
                        want == track_ids(self@.queue.upcoming(count as int)),
                        self@.queue.tracks == all,
                        self@.queue.current == Some(c as int),
                        out.deep_view() == want.take(i - c - 1),
                    decreases n - i,
                {
                    let ghost before = out.deep_view();
                    let id = tracks[i].video_id.copy();
                    let ghost v = id.deep_view();
                    out.push(id);
                    assert(out.deep_view() =~= before.push(v));
                    assert(v == all[i as int].video_id);
                    assert(want[i - c - 1] == v);
                    i += 1;
                    assert(want.take(i - c - 1) =~= want.take(i - c - 2).push(want[i - c - 2]));
                }
                assert(out.deep_view() =~= want);
                out
            },
        }
    }

    /// Which of the next `count` tracks to fetch ahead of time, given those that are
    /// on disk. They count as being fetched from now on.
    pub fn plan_prefetch(&mut self, count: usize, local: &MarkSet) -> (r: Vec<VideoId>)
        requires
            old(self).wf(),
        ensures
            r.deep_view() == wanted(
                track_ids(old(self)@.queue.upcoming(count as int)),
                local@,
                old(self)@.active,
            ),
            final(self)@ == old(self)@.fetching(r.deep_view()),
            final(self).wf(),
    {
        let ids = self.upcoming_ids(count);
        let ghost all = ids.deep_view();
        let ghost first = self@.active;
        let mut out: Vec<VideoId> = Vec::new();
        let mut i: usize = 0;
        assert(out.deep_view() =~= wanted(all.take(0), local@, first));
        assert(first.union(out.deep_view().to_set()) =~= first);
        while i < ids.len()
            invariant
                i <= ids@.len() == all.len(),
                all == ids.deep_view(),
                out.deep_view() == wanted(all.take(i as int), local@, first),
                self@ == (ActorView {
                    active: first.union(out.deep_view().to_set()),
                    ..old(self)@
                }),
            decreases ids@.len() - i,
        {
            let ghost upto = all.take(i + 1);
            let ghost before = out.deep_view();
            assert(upto.drop_last() =~= all.take(i as int));
            assert(upto.last() == ids@[i as int].deep_view());
            if !local.contains(&ids[i]) && !self.active.contains(&ids[i]) {
                let id = ids[i].copy();
                let ghost v = id.deep_view();
                self.active.insert(id.copy());
                out.push(id);
                assert(out.deep_view() =~= before.push(v));
                assert(!before.contains(v)) by {
                    if before.contains(v) {
                        assert(before.to_set().contains(v));
                    }
                }
                assert(before.push(v).to_set() =~= before.to_set().insert(v)) by {
                    assert forall|x: Seq<char>| before.push(v).to_set().contains(x)
                        == before.to_set().insert(v).contains(x) by {
                        if before.contains(x) {
                            let k = choose|k: int| 0 <= k < before.len() && before[k] == x;
                            assert(before.push(v)[k] == x);
                        }
                        assert(before.push(v)[before.len() as int] == v);
                        if before.push(v).contains(x) && x != v {
                            let k = choose|k: int|
                                0 <= k < before.push(v).len() && before.push(v)[k] == x;
                            assert(before[k] == x);
                        }
                    }
                }
                assert(self@.active =~= first.union(out.deep_view().to_set()));
            } else {
                assert(local@.contains(upto.last()) || first.contains(upto.last())
                    || before.contains(upto.last()));
            }
            i += 1;
        }
        assert(all.take(i as int) =~= all);
        out
    }

    /// A track is no longer being fetched ahead of time.
    pub fn prefetch_done(&mut self, id: &VideoId)
        requires
            old(self).wf(),
        ensures
            final(self)@ == old(self)@.fetched(id.deep_view()),
            final(self).wf(),
    {
        self.active.remove(id);
    }
}

/// A stream that expires is renewed at most once: what fails again is given up.
pub proof fn an_error_is_retried_once(s: ActorView)
    requires
        s.wf(),
        s.queue.tracks.len() > 0,
        !s.retried,
    ensures
        s.ended(EndReason::Error).acts.contains(ActView::Load(s.queue.playing()->0)),
        s.ended(EndReason::Error).core.retried,
        s.ended(EndReason::Error).core.queue == s.queue,
        forall|t: TrackView|
            !s.ended(EndReason::Error).core.ended(EndReason::Error).acts.contains(
                ActView::Load(t),
            ),
{
    let d = s.ended(EndReason::Error);
    let t = s.queue.playing()->0;
    assert(d.acts[d.acts.len() - 2] == ActView::Load(t));
    assert forall|u: TrackView| !d.core.ended(EndReason::Error).acts.contains(ActView::Load(u)) by {
        let again = d.core.ended(EndReason::Error).acts;
        assert forall|i: int| 0 <= i < again.len() implies again[i] != ActView::Load(u) by {}
    }
}

/// A track that starts is announced before anything is loaded for it, exactly one thing
/// is loaded, and what comes after it is fetched ahead of time only then.
pub proof fn a_track_is_announced_before_it_is_loaded(d: Did, t: TrackView)
    ensures
        d.playing(t).acts == d.in_state(PlaybackState::Loading).acts + seq![
            ActView::Emit(PlayerEventView::TrackChanged(Some(t))),
            ActView::Load(t),
            ActView::Prefetch,
        ],
        d.playing(t).core.state == PlaybackState::Loading,
        d.playing(t).core.queue == d.core.queue,
{
    assert(d.playing(t).acts =~= d.in_state(PlaybackState::Loading).acts + seq![
        ActView::Emit(PlayerEventView::TrackChanged(Some(t))),
        ActView::Load(t),
        ActView::Prefetch,
    ]);
}

/// What cannot be loaded is said to have failed, and playback is stopped.
pub proof fn what_cannot_be_loaded_stops_playback(s: ActorView, why: Seq<char>)
    ensures
        ({
            let d = s.failed(why).in_state(PlaybackState::Stopped);
            &&& d.acts[0] == ActView::Emit(PlayerEventView::Error(why))
            &&& d.core == (ActorView { state: PlaybackState::Stopped, ..s })
        }),
{
}

/// Every track gets a retry of its own: whatever starts another one renews it.
pub proof fn another_track_may_be_retried(s: ActorView)
    ensures
        !s.advanced().core.retried,
        !s.gone_back().core.retried,
        forall|t: TrackView| !(#[trigger] s.played_now(t)).core.retried,
{
}

/// Muting and then unmuting is back at the volume there was.
pub proof fn unmuting_restores_the_volume(s: ActorView, picks: Seq<usize>)
    requires
        s.muted_at is None,
    ensures
        s.handled(PlayerCommandView::ToggleMute, picks).acts == seq![ActView::Mute],
        ({
            let muted = s.at_volume(0, Some(s.volume)).core;
            let d = muted.handled(PlayerCommandView::ToggleMute, picks);
            &&& d.acts == seq![ActView::Unmute(s.volume)]
            &&& d.core.at_volume(s.volume, d.core.muted_at).core == s
        }),
{
    assert(s.handled(PlayerCommandView::ToggleMute, picks).acts =~= seq![ActView::Mute]);
    let muted = s.at_volume(0, Some(s.volume)).core;
    let d = muted.handled(PlayerCommandView::ToggleMute, picks);
    assert(d.acts =~= seq![ActView::Unmute(s.volume)]);
    assert(d.core.at_volume(s.volume, d.core.muted_at).core =~= s);
}

/// Nothing is fetched ahead of time that is on disk or being fetched already, and
/// nothing twice.
pub proof fn nothing_is_prefetched_twice(
    ids: Seq<Seq<char>>,
    local: Set<Seq<char>>,
    active: Set<Seq<char>>,
)
    ensures
        wanted(ids, local, active).no_duplicates(),
        forall|id: Seq<char>| #[trigger]
            wanted(ids, local, active).contains(id) ==> ids.contains(id) && !local.contains(id)
                && !active.contains(id),
    decreases ids.len(),
{
    if ids.len() > 0 {
        let rest = ids.drop_last();
        nothing_is_prefetched_twice(rest, local, active);
        let before = wanted(rest, local, active);
        let all = wanted(ids, local, active);
        assert forall|id: Seq<char>| #[trigger] all.contains(id) implies ids.contains(id)
            && !local.contains(id) && !active.contains(id) by {
            let k = choose|k: int| 0 <= k < all.len() && all[k] == id;
            if k < before.len() {
                assert(before[k] == id);
                assert(before.contains(id));
                let j = choose|j: int| 0 <= j < rest.len() && rest[j] == id;
                assert(ids[j] == id);
            } else {
                assert(ids[ids.len() - 1] == id);
            }
        }
    }
}

} // verus!
