//! The vocabulary between the interface and the player: commands one way, events
//! the other.

use crate::model::{Track, TrackDuration, TrackView, VideoId};
use vstd::prelude::*;

verus! {

/// What the queue does when a track ends.
#[derive(Debug, Clone, Copy, PartialEq, Eq, Structural)]
pub enum RepeatMode {
    Off,
    One,
    All,
}

impl RepeatMode {
    /// The cycle of the repeat key: off, track, all, off.
    pub open spec fn after(self) -> RepeatMode {
        match self {
            RepeatMode::Off => RepeatMode::One,
            RepeatMode::One => RepeatMode::All,
            RepeatMode::All => RepeatMode::Off,
        }
    }

    pub fn next(self) -> (r: RepeatMode)
        ensures
            r == self.after(),
    {
        match self {
            RepeatMode::Off => RepeatMode::One,
            RepeatMode::One => RepeatMode::All,
            RepeatMode::All => RepeatMode::Off,
        }
    }
}

/// What the player is doing.
#[derive(Debug, Clone, Copy, PartialEq, Eq, Structural)]
pub enum PlaybackState {
    Playing,
    Paused,
    Loading,
    Stopped,
}

impl PlaybackState {
    /// Sounding, or about to.
    pub open spec fn active(self) -> bool {
        self is Playing || self is Loading
    }

    pub fn is_active(self) -> (r: bool)
        ensures
            r == self.active(),
    {
        match self {
            PlaybackState::Playing | PlaybackState::Loading => true,
            PlaybackState::Paused | PlaybackState::Stopped => false,
        }
    }
}

/// `v` brought into `lo..=hi`.
pub open spec fn clamped(v: int, lo: int, hi: int) -> int {
    if v < lo {
        lo
    } else if v > hi {
        hi
    } else {
        v
    }
}

/// Brings a requested volume into the range the player accepts.
pub fn clamp_volume(v: i64) -> (r: u8)
    ensures
        r == clamped(v as int, 0, 100),
{
    if v < 0 {
        0
    } else if v > 100 {
        100
    } else {
        v as u8
    }
}

/// Where a relative seek lands: never before the start, and not past the end when
/// the end is known.
pub open spec fn seek_target(pos: int, delta: int, dur: int) -> int {
    clamped(
        pos + delta,
        0,
        if dur > 0 {
            dur
        } else {
            i64::MAX as int
        },
    )
}

pub fn apply_seek(pos: i64, delta: i64, dur: i64) -> (r: i64)
    ensures
        r == seek_target(pos as int, delta as int, dur as int),
{
    let target: i128 = pos as i128 + delta as i128;
    let end: i128 = if dur > 0 {
        dur as i128
    } else {
        i64::MAX as i128
    };
    if target < 0 {
        0
    } else if target > end {
        end as i64
    } else {
        target as i64
    }
}

/// What the interface asks of the player.
#[derive(Debug, Clone, PartialEq, Eq)]
pub enum PlayerCommand {
    /// Play this track now, ahead of everything queued.
    PlayNow(Track),
    /// Play the queue entry at this index.
    JumpTo(usize),
    Pause,
    Resume,
    TogglePause,
    Stop,
    Next,
    Previous,
    SeekRelative(i64),
    SeekAbsolute(u64),
    SetVolume(u8),
    ToggleMute,
    SetShuffle(bool),
    SetRepeat(RepeatMode),
    EnqueueBack(Vec<Track>),
    EnqueueNext(Vec<Track>),
    RemoveFromQueue(usize),
    MoveInQueue { from: usize, to: usize },
    ClearQueue,
    Shutdown,
}

/// The model of a `PlayerCommand`.
#[verifier::ext_equal]
pub enum PlayerCommandView {
    PlayNow(TrackView),
    JumpTo(usize),
    Pause,
    Resume,
    TogglePause,
    Stop,
    Next,
    Previous,
    SeekRelative(i64),
    SeekAbsolute(u64),
    SetVolume(u8),
    ToggleMute,
    SetShuffle(bool),
    SetRepeat(RepeatMode),
    EnqueueBack(Seq<TrackView>),
    EnqueueNext(Seq<TrackView>),
    RemoveFromQueue(usize),
    MoveInQueue { from: usize, to: usize },
    ClearQueue,
    Shutdown,
}

impl DeepView for PlayerCommand {
    type V = PlayerCommandView;

    open spec fn deep_view(&self) -> PlayerCommandView {
        match self {
            PlayerCommand::PlayNow(t) => PlayerCommandView::PlayNow(t.deep_view()),
            PlayerCommand::JumpTo(i) => PlayerCommandView::JumpTo(*i),
            PlayerCommand::Pause => PlayerCommandView::Pause,
            PlayerCommand::Resume => PlayerCommandView::Resume,
            PlayerCommand::TogglePause => PlayerCommandView::TogglePause,
            PlayerCommand::Stop => PlayerCommandView::Stop,
            PlayerCommand::Next => PlayerCommandView::Next,
            PlayerCommand::Previous => PlayerCommandView::Previous,
            PlayerCommand::SeekRelative(d) => PlayerCommandView::SeekRelative(*d),
            PlayerCommand::SeekAbsolute(s) => PlayerCommandView::SeekAbsolute(*s),
            PlayerCommand::SetVolume(v) => PlayerCommandView::SetVolume(*v),
            PlayerCommand::ToggleMute => PlayerCommandView::ToggleMute,
            PlayerCommand::SetShuffle(on) => PlayerCommandView::SetShuffle(*on),
            PlayerCommand::SetRepeat(m) => PlayerCommandView::SetRepeat(*m),
            PlayerCommand::EnqueueBack(ts) => PlayerCommandView::EnqueueBack(ts.deep_view()),
            PlayerCommand::EnqueueNext(ts) => PlayerCommandView::EnqueueNext(ts.deep_view()),
            PlayerCommand::RemoveFromQueue(i) => PlayerCommandView::RemoveFromQueue(*i),
            PlayerCommand::MoveInQueue { from, to } => PlayerCommandView::MoveInQueue {
                from: *from,
                to: *to,
            },
            PlayerCommand::ClearQueue => PlayerCommandView::ClearQueue,
            PlayerCommand::Shutdown => PlayerCommandView::Shutdown,
        }
    }
}

/// What the player reports back.
#[derive(Debug, Clone, PartialEq, Eq)]
pub enum PlayerEvent {
    StateChanged(PlaybackState),
    TrackChanged(Option<Track>),
    TrackEnded(VideoId),
    Progress { position: TrackDuration, duration: TrackDuration },
    QueueChanged { tracks: Vec<Track>, current: Option<usize> },
    VolumeChanged(u8),
    ShuffleChanged(bool),
    RepeatChanged(RepeatMode),
    Error(String),
}

/// The model of a `PlayerEvent`.
#[verifier::ext_equal]
pub enum PlayerEventView {
    StateChanged(PlaybackState),
    TrackChanged(Option<TrackView>),
    TrackEnded(Seq<char>),
    Progress { position: u64, duration: u64 },
    QueueChanged { tracks: Seq<TrackView>, current: Option<usize> },
    VolumeChanged(u8),
    ShuffleChanged(bool),
    RepeatChanged(RepeatMode),
    Error(Seq<char>),
}

impl DeepView for PlayerEvent {
    type V = PlayerEventView;

    open spec fn deep_view(&self) -> PlayerEventView {
        match self {
            PlayerEvent::StateChanged(s) => PlayerEventView::StateChanged(*s),
            PlayerEvent::TrackChanged(t) => PlayerEventView::TrackChanged(t.deep_view()),
            PlayerEvent::TrackEnded(id) => PlayerEventView::TrackEnded(id.deep_view()),
            PlayerEvent::Progress { position, duration } => PlayerEventView::Progress {
                position: position.deep_view(),
                duration: duration.deep_view(),
            },
            PlayerEvent::QueueChanged { tracks, current } => PlayerEventView::QueueChanged {
                tracks: tracks.deep_view(),
                current: *current,
            },
            PlayerEvent::VolumeChanged(v) => PlayerEventView::VolumeChanged(*v),
            PlayerEvent::ShuffleChanged(on) => PlayerEventView::ShuffleChanged(*on),
            PlayerEvent::RepeatChanged(m) => PlayerEventView::RepeatChanged(*m),
            PlayerEvent::Error(m) => PlayerEventView::Error(m@),
        }
    }
}

/// The commands decided on but not yet carried out, oldest first. Whoever owns
/// the player drains it.
#[derive(Debug, Clone, PartialEq, Eq)]
pub struct CommandLog {
    sent: Vec<PlayerCommand>,
}

impl View for CommandLog {
    type V = Seq<PlayerCommandView>;

    closed spec fn view(&self) -> Seq<PlayerCommandView> {
        self.sent.deep_view()
    }
}

impl CommandLog {
    pub fn new() -> (r: CommandLog)
        ensures
            r@ == Seq::<PlayerCommandView>::empty(),
    {
        let r = CommandLog { sent: Vec::new() };
        assert(r@ =~= Seq::<PlayerCommandView>::empty());
        r
    }

    /// Adds one command at the end.
    pub fn send(&mut self, cmd: PlayerCommand)
        ensures
            final(self)@ == old(self)@.push(cmd.deep_view()),
    {
        self.sent.push(cmd);
        assert(self@ =~= old(self)@.push(cmd.deep_view()));
    }

    /// Everything sent so far.
    pub fn commands(&self) -> (r: &Vec<PlayerCommand>)
        ensures
            r.deep_view() == self@,
    {
        &self.sent
    }

    /// Hands the commands over, leaving none behind.
    pub fn take(&mut self) -> (r: Vec<PlayerCommand>)
        ensures
            r.deep_view() == old(self)@,
            final(self)@ == Seq::<PlayerCommandView>::empty(),
    {
        let mut out: Vec<PlayerCommand> = Vec::new();
        std::mem::swap(&mut out, &mut self.sent);
        assert(self@ =~= Seq::<PlayerCommandView>::empty());
        out
    }
}

} // verus!
