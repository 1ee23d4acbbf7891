//! The player's decisions: what each command and each clock tick does to the
//! queue, the reported playback state and the position clock.
//!
//! The queue holds track ids; decoding, audio output and volume ramps happen
//! around these steps. Times are milliseconds on a monotonic clock that the
//! caller reads (`now`).

use crate::models::{PlayerState, RepeatMode};
use crate::queue::{PlayQueue, QueueView};
use vstd::prelude::*;

verus! {

/// Longest crossfade, in milliseconds.
pub const MAX_CROSSFADE_MS: u64 = 12000;

/// A crossfade in progress: the outgoing track fades out while the incoming
/// one (already the current track) fades in. Progress is wall time that
/// stops while paused.
#[derive(Clone, Copy)]
pub struct Fade {
    pub duration_ms: u64,
    pub elapsed_ms: u64,
    pub last_tick_ms: u64,
}

/// What a clock tick did to a crossfade.
pub enum FadeTick {
    /// No crossfade is running.
    Idle,
    /// The crossfade goes on: the incoming side is at `elapsed_ms` of
    /// `duration_ms` (volumes follow an equal-power ramp).
    Ramp { elapsed_ms: u64, duration_ms: u64 },
    /// The crossfade is over: stop the outgoing side, restore full volume.
    Done,
}

/// Whether to start a crossfade now.
pub enum FadeStart {
    Hold,
    /// The preloaded track is no longer the one that plays next: it was
    /// dropped and will be preloaded again.
    Stale,
    /// Start a crossfade of this many milliseconds into the preloaded track.
    Begin(u64),
}

/// What happens when the playing track has run out.
pub enum TrackEnd {
    /// The preloaded track is the next one: play it at once.
    Gapless(i64),
    /// Load and play the (new) current track.
    Reload,
    /// The queue is over: the player stops.
    Finished,
}

/// The player's state.
pub struct PlayerCore {
    pub queue: PlayQueue<i64>,
    /// Reported state, current track, position and length.
    pub state: PlayerState,
    pub current_track: Option<i64>,
    pub position_ms: u64,
    pub duration_ms: u64,
    pub shuffle: bool,
    pub repeat: RepeatMode,
    pub queue_length: usize,
    pub queue_position: Option<usize>,
    /// Length of the loaded track (0 when unknown).
    pub track_ms: u64,
    /// Play time before the last (re)start of the clock.
    pub accumulated_ms: u64,
    /// When the clock was last (re)started; `None` while it stands.
    pub started_ms: Option<u64>,
    pub is_playing: bool,
    /// The track whose audio is already decoded for what plays next.
    pub preloaded: Option<i64>,
    pub normalize: bool,
    pub crossfade_ms: u64,
    pub fade: Option<Fade>,
}

/// The abstract state of a [`PlayerCore`].
pub struct CoreView {
    pub queue: QueueView<i64>,
    pub state: PlayerState,
    pub current_track: Option<i64>,
    pub position_ms: u64,
    pub duration_ms: u64,
    pub shuffle: bool,
    pub repeat: RepeatMode,
    pub queue_length: usize,
    pub queue_position: Option<usize>,
    pub track_ms: u64,
    pub accumulated_ms: u64,
    pub started_ms: Option<u64>,
    pub is_playing: bool,
    pub preloaded: Option<i64>,
    pub normalize: bool,
    pub crossfade_ms: u64,
    pub fade: Option<Fade>,
}

impl View for PlayerCore {
    type V = CoreView;

    open spec fn view(&self) -> CoreView {
        CoreView {
            queue: self.queue@,
            state: self.state,
            current_track: self.current_track,
            position_ms: self.position_ms,
            duration_ms: self.duration_ms,
            shuffle: self.shuffle,
            repeat: self.repeat,
            queue_length: self.queue_length,
            queue_position: self.queue_position,
            track_ms: self.track_ms,
            accumulated_ms: self.accumulated_ms,
            started_ms: self.started_ms,
            is_playing: self.is_playing,
            preloaded: self.preloaded,
            normalize: self.normalize,
            crossfade_ms: self.crossfade_ms,
            fade: self.fade,
        }
    }
}

/// Time from `since` to `now`, never negative.
pub open spec fn elapsed(since: u64, now: u64) -> int {
    if now >= since {
        now - since
    } else {
        0
    }
}

/// The length to use for a loaded track: what the decoder reports, else the
/// length listed for the track, else 0.
pub open spec fn loaded_length(decoded_ms: u64, listed_ms: Option<i64>) -> u64 {
    if decoded_ms > 0 {
        decoded_ms
    } else {
        match listed_ms {
            Some(l) => l as u64,
            None => 0,
        }
    }
}

/// How early before the end the next track is preloaded.
pub open spec fn preload_lead(crossfade_ms: u64) -> int {
    let lead = if crossfade_ms + 3000 > u64::MAX {
        u64::MAX as int
    } else {
        crossfade_ms + 3000
    };
    if lead > 5000 {
        lead
    } else {
        5000
    }
}

/// Time left of a track at a position (0 past the end).
pub open spec fn remaining(track_ms: u64, pos: int) -> int {
    if track_ms >= pos {
        track_ms - pos
    } else {
        0
    }
}

impl CoreView {
    /// The queue's invariant.
    pub open spec fn wf(self) -> bool {
        self.queue.wf()
    }

    /// Position of the clock at `now`.
    pub open spec fn clock(self, now: u64) -> int {
        self.accumulated_ms + match self.started_ms {
            Some(s) => elapsed(s, now),
            None => 0,
        }
    }

    /// The clock's arithmetic stays inside `u64` up to `now`.
    pub open spec fn clock_fits(self, now: u64) -> bool {
        &&& self.accumulated_ms + now <= u64::MAX
        &&& self.fade matches Some(f) ==> f.elapsed_ms + now <= u64::MAX
    }

    /// Whether `next` plays past the end by starting over.
    pub open spec fn wraps(self) -> bool {
        self.repeat == RepeatMode::All
    }

    /// Reported fields after a track started playing.
    pub open spec fn started_track(self, length: u64, now: u64) -> CoreView {
        CoreView {
            track_ms: length,
            accumulated_ms: 0,
            started_ms: Some(now),
            is_playing: true,
            state: PlayerState::Playing,
            current_track: self.queue.current(),
            position_ms: 0,
            duration_ms: length,
            queue_length: self.queue.order.len() as usize,
            queue_position: self.queue.position,
            ..self
        }
    }

    /// State after a pause at `now`: the clock and the crossfade stand.
    pub open spec fn paused(self, now: u64) -> CoreView {
        let acc = self.clock(now) as u64;
        CoreView {
            fade: match self.fade {
                Some(f) => Some(
                    Fade {
                        elapsed_ms: (f.elapsed_ms + elapsed(f.last_tick_ms, now)) as u64,
                        last_tick_ms: now,
                        ..f
                    },
                ),
                None => None,
            },
            accumulated_ms: acc,
            started_ms: None,
            is_playing: false,
            state: PlayerState::Paused,
            position_ms: acc,
            ..self
        }
    }

    /// State after a resume at `now` (when audio is loaded).
    pub open spec fn resumed(self, now: u64) -> CoreView {
        CoreView {
            fade: match self.fade {
                Some(f) => Some(Fade { last_tick_ms: now, ..f }),
                None => None,
            },
            started_ms: Some(now),
            is_playing: true,
            state: PlayerState::Playing,
            ..self
        }
    }

    /// State after a seek to `pos` at `now`.
    pub open spec fn seeked(self, pos: u64, now: u64) -> CoreView {
        CoreView {
            accumulated_ms: pos,
            started_ms: if self.is_playing {
                Some(now)
            } else {
                self.started_ms
            },
            position_ms: pos,
            ..self
        }
    }

    /// The queue after the "next" command, and whether a track is there to
    /// play: repeat-one stays on the current track, repeat-all starts over
    /// at the end.
    pub open spec fn next_queue(self) -> (QueueView<i64>, bool) {
        if self.repeat == RepeatMode::One {
            (self.queue, self.queue.current() is Some)
        } else if self.queue.next_result() is None && self.wraps() {
            (
                self.queue.after_next().after_restart(),
                self.queue.after_next().tracks.len() > 0
                    && self.queue.after_next().after_restart().current() is Some,
            )
        } else {
            (self.queue.after_next(), self.queue.next_result() is Some)
        }
    }

    /// State after the queue ran out.
    pub open spec fn finished_queue(self) -> CoreView {
        CoreView {
            started_ms: None,
            accumulated_ms: 0,
            is_playing: false,
            preloaded: None,
            state: PlayerState::Stopped,
            position_ms: 0,
            ..self
        }
    }

    /// State after "stop": nothing loaded, the queue emptied.
    pub open spec fn stopped(self) -> CoreView {
        CoreView {
            fade: None,
            started_ms: None,
            accumulated_ms: 0,
            track_ms: 0,
            is_playing: false,
            preloaded: None,
            state: PlayerState::Stopped,
            current_track: None,
            position_ms: 0,
            duration_ms: 0,
            queue: QueueView {
                tracks: Seq::empty(),
                order: Seq::empty(),
                position: None,
                stay_on_next: false,
                ..self.queue
            },
            queue_length: 0,
            queue_position: None,
            ..self
        }
    }

    /// The track to preload: the one "next" would play.
    pub open spec fn preload_target(self) -> Option<i64> {
        self.queue.peek_next_result(self.wraps())
    }

    /// Whether to preload the next track at `now`: nothing is preloaded or
    /// fading and the loaded track ends within the preload lead.
    pub open spec fn wants_preload(self, now: u64) -> bool {
        &&& self.preloaded is None
        &&& self.fade is None
        &&& self.track_ms > 0
        &&& remaining(self.track_ms, self.clock(now)) < preload_lead(self.crossfade_ms)
    }

    /// Whether a crossfade may start at `now`, and its length: crossfades
    /// are on, none is running, the next track is preloaded, repeat-one is
    /// off, and the track has more than 250 ms but at most the crossfade
    /// length left.
    pub open spec fn fade_window(self, now: u64) -> Option<u64> {
        let left = remaining(self.track_ms, self.clock(now));
        if self.crossfade_ms > 0 && self.fade is None && self.preloaded is Some && self.track_ms > 0
            && self.repeat != RepeatMode::One && left > 250 && left <= self.crossfade_ms {
            Some(
                if (self.crossfade_ms as int) < left {
                    self.crossfade_ms
                } else {
                    left as u64
                },
            )
        } else {
            None
        }
    }
}


/// The length to use for a loaded track (see [`loaded_length`]).
pub fn track_length(decoded_ms: u64, listed_ms: Option<i64>) -> (r: u64)
    ensures
        r == loaded_length(decoded_ms, listed_ms),
{
    if decoded_ms > 0 {
        decoded_ms
    } else {
        match listed_ms {
            Some(l) => l as u64,
            None => 0,
        }
    }
}

fn since(start: u64, now: u64) -> (r: u64)
    ensures
        r == elapsed(start, now),
{
    if now >= start {
        now - start
    } else {
        0
    }
}

impl PlayerCore {
    /// A stopped player with an empty queue. The crossfade length is capped
    /// at [`MAX_CROSSFADE_MS`].
    pub fn new(normalize: bool, crossfade_ms: u64) -> (p: Self)
        ensures
            p@.wf(),
            p@.queue.tracks.len() == 0,
            p@.queue.order.len() == 0,
            p@.queue.position is None,
            !p@.queue.shuffle,
            !p@.queue.stay_on_next,
            p@.state == PlayerState::Stopped,
            p@.current_track is None,
            p@.position_ms == 0,
            p@.duration_ms == 0,
            !p@.shuffle,
            p@.repeat == RepeatMode::Off,
            p@.queue_length == 0,
            p@.queue_position is None,
            p@.track_ms == 0,
            p@.accumulated_ms == 0,
            p@.started_ms is None,
            !p@.is_playing,
            p@.preloaded is None,
            p@.normalize == normalize,
            p@.crossfade_ms == (if crossfade_ms < MAX_CROSSFADE_MS {
                crossfade_ms
            } else {
                MAX_CROSSFADE_MS
            }),
            p@.fade is None,
    {
        PlayerCore {
            queue: PlayQueue::new(),
            state: PlayerState::Stopped,
            current_track: None,
            position_ms: 0,
            duration_ms: 0,
            shuffle: false,
            repeat: RepeatMode::Off,
            queue_length: 0,
            queue_position: None,
            track_ms: 0,
            accumulated_ms: 0,
            started_ms: None,
            is_playing: false,
            preloaded: None,
            normalize,
            crossfade_ms: if crossfade_ms < MAX_CROSSFADE_MS {
                crossfade_ms
            } else {
                MAX_CROSSFADE_MS
            },
            fade: None,
        }
    }

    /// The position of the clock at `now`.
    pub fn clock(&self, now: u64) -> (r: u64)
        requires
            self@.clock_fits(now),
        ensures
            r == self@.clock(now),
    {
        match self.started_ms {
            Some(s) => self.accumulated_ms + since(s, now),
            None => self.accumulated_ms,
        }
    }

    /// The id of the current track.
    pub fn current_id(&self) -> (r: Option<i64>)
        requires
            self@.wf(),
        ensures
            r == self@.queue.current(),
    {
        match self.queue.current() {
            Some(t) => Some(*t),
            None => None,
        }
    }

    /// Ends a running crossfade (the caller stops the outgoing side and
    /// restores the volume); says whether one was running.
    pub fn end_fade(&mut self) -> (r: bool)
        ensures
            r == old(self)@.fade is Some,
            final(self)@ == (CoreView { fade: None, ..old(self)@ }),
    {
        let r = self.fade.is_some();
        self.fade = None;
        r
    }

    /// Replaces the queue ("play these tracks from this one"); the preload
    /// is dropped.
    pub fn load_queue(&mut self, ids: Vec<i64>, start_index: usize)
        ensures
            final(self)@.wf(),
            final(self)@ == (CoreView { queue: final(self)@.queue, preloaded: None, ..old(self)@ }),
            final(self)@.queue.tracks == ids@,
            final(self)@.queue.shuffle == old(self)@.queue.shuffle,
            !final(self)@.queue.stay_on_next,
            !old(self)@.queue.shuffle ==> final(self)@.queue.order == crate::queue::identity_order(
                ids@.len(),
            ),
            ids@.len() == 0 ==> final(self)@.queue.position is None,
            ids@.len() > 0 ==> (final(self)@.queue.position matches Some(p) && p
                < final(self)@.queue.order.len() && final(self)@.queue.order[p as int] == (
            if start_index < ids@.len() {
                start_index
            } else {
                (ids@.len() - 1) as usize
            })),
    {
        self.queue.set_tracks(ids, start_index);
        self.preloaded = None;
    }

    /// A track was loaded and started (decoder length `decoded_ms`, listed
    /// length `listed_ms`): the clock restarts and the current track is
    /// reported as playing.
    pub fn start_track(&mut self, decoded_ms: u64, listed_ms: Option<i64>, now: u64)
        requires
            old(self)@.wf(),
        ensures
            final(self)@ == old(self)@.started_track(loaded_length(decoded_ms, listed_ms), now),
    {
        let length = track_length(decoded_ms, listed_ms);
        self.track_ms = length;
        self.accumulated_ms = 0;
        self.started_ms = Some(now);
        self.is_playing = true;
        self.state = PlayerState::Playing;
        self.current_track = self.current_id();
        self.position_ms = 0;
        self.duration_ms = length;
        self.queue_length = self.queue.len();
        self.queue_position = self.queue.position();
    }

    /// Loading the current track failed: nothing plays.
    pub fn playback_failed(&mut self)
        ensures
            final(self)@ == (CoreView { is_playing: false, ..old(self)@ }),
    {
        self.is_playing = false;
    }

    /// A play request found an empty queue: stop and report nothing playing.
    pub fn stop_idle(&mut self)
        ensures
            final(self)@ == (CoreView {
                is_playing: false,
                started_ms: None,
                state: PlayerState::Stopped,
                current_track: None,
                position_ms: 0,
                duration_ms: 0,
                ..old(self)@
            }),
    {
        self.is_playing = false;
        self.started_ms = None;
        self.state = PlayerState::Stopped;
        self.current_track = None;
        self.position_ms = 0;
        self.duration_ms = 0;
    }

    /// Pauses at `now`: the clock and a running crossfade stand still.
    pub fn pause(&mut self, now: u64)
        requires
            old(self)@.clock_fits(now),
        ensures
            final(self)@ == old(self)@.paused(now),
    {
        let acc = self.clock(now);
        match self.fade {
            Some(f) => {
                self.fade = Some(
                    Fade {
                        duration_ms: f.duration_ms,
                        elapsed_ms: f.elapsed_ms + since(f.last_tick_ms, now),
                        last_tick_ms: now,
                    },
                );
            },
            None => {},
        }
        self.accumulated_ms = acc;
        self.started_ms = None;
        self.is_playing = false;
        self.state = PlayerState::Paused;
        self.position_ms = acc;
    }

    /// Resumes at `now` if audio is loaded (`sink_empty` is false); says
    /// whether it did.
    pub fn resume(&mut self, sink_empty: bool, now: u64) -> (r: bool)
        ensures
            r == !sink_empty,
            r ==> final(self)@ == old(self)@.resumed(now),
            !r ==> final(self)@ == old(self)@,
    {
        if sink_empty {
            return false;
        }
        match self.fade {
            Some(f) => {
                self.fade = Some(
                    Fade { duration_ms: f.duration_ms, elapsed_ms: f.elapsed_ms, last_tick_ms: now },
                );
            },
            None => {},
        }
        self.started_ms = Some(now);
        self.is_playing = true;
        self.state = PlayerState::Playing;
        true
    }

    /// Stops: nothing loaded, the queue emptied, the state reported stopped.
    pub fn stop(&mut self)
        ensures
            final(self)@ == old(self)@.stopped(),
            final(self)@.wf(),
    {
        self.fade = None;
        self.started_ms = None;
        self.accumulated_ms = 0;
        self.track_ms = 0;
        self.is_playing = false;
        self.preloaded = None;
        self.state = PlayerState::Stopped;
        self.current_track = None;
        self.position_ms = 0;
        self.duration_ms = 0;
        self.queue.clear();
        self.queue_length = 0;
        self.queue_position = None;
    }

    /// The "next" command: moves the queue (see [`CoreView::next_queue`])
    /// and says whether a track is there to play; then the preload is
    /// dropped.
    pub fn advance(&mut self) -> (r: bool)
        requires
            old(self)@.wf(),
        ensures
            final(self)@.wf(),
            r == old(self)@.next_queue().1,
            final(self)@ == (CoreView {
                queue: old(self)@.next_queue().0,
                preloaded: if r {
                    None
                } else {
                    old(self)@.preloaded
                },
                ..old(self)@
            }),
    {
        let found = if self.repeat == RepeatMode::One {
            self.queue.current().is_some()
        } else {
            let stepped = self.queue.next().is_some();
            if !stepped && self.repeat == RepeatMode::All {
                self.queue.restart().is_some()
            } else {
                stepped
            }
        };
        if found {
            self.preloaded = None;
        }
        found
    }

    /// The queue ran out: the clock stops and the player reports stopped.
    pub fn queue_finished(&mut self)
        ensures
            final(self)@ == old(self)@.finished_queue(),
    {
        self.started_ms = None;
        self.accumulated_ms = 0;
        self.is_playing = false;
        self.preloaded = None;
        self.state = PlayerState::Stopped;
        self.position_ms = 0;
    }

    /// The "previous" command: steps back one entry (at the first entry the
    /// current track is played again); says whether it stepped.
    pub fn step_back(&mut self) -> (r: bool)
        requires
            old(self)@.wf(),
        ensures
            final(self)@.wf(),
            r == old(self)@.queue.prev_result() is Some,
            final(self)@ == (CoreView {
                queue: old(self)@.queue.after_prev(),
                preloaded: None,
                ..old(self)@
            }),
    {
        let r = self.queue.prev().is_some();
        self.preloaded = None;
        r
    }

    /// A seek to `pos_ms` succeeded at `now`.
    pub fn seek(&mut self, pos_ms: u64, now: u64)
        ensures
            final(self)@ == old(self)@.seeked(pos_ms, now),
    {
        self.accumulated_ms = pos_ms;
        if self.is_playing {
            self.started_ms = Some(now);
        }
        self.position_ms = pos_ms;
    }
}


impl PlayerCore {
    /// Turns shuffle on or off (see [`PlayQueue::set_shuffle`]).
    pub fn set_shuffle(&mut self, on: bool)
        requires
            old(self)@.wf(),
        ensures
            final(self)@.wf(),
            final(self)@ == (CoreView {
                queue: final(self)@.queue,
                shuffle: on,
                queue_position: final(self)@.queue.position,
                preloaded: None,
                ..old(self)@
            }),
            on == old(self)@.queue.shuffle ==> final(self)@.queue == old(self)@.queue,
            on != old(self)@.queue.shuffle && on ==> final(self)@.queue.shuffled_from(
                old(self)@.queue,
            ),
            on != old(self)@.queue.shuffle && !on ==> final(self)@.queue.unshuffled_from(
                old(self)@.queue,
            ),
    {
        self.queue.set_shuffle(on);
        self.shuffle = on;
        self.queue_position = self.queue.position();
        self.preloaded = None;
    }

    /// Sets the repeat mode; the preload is dropped.
    pub fn set_repeat(&mut self, mode: RepeatMode)
        ensures
            final(self)@ == (CoreView { repeat: mode, preloaded: None, ..old(self)@ }),
    {
        self.repeat = mode;
        self.preloaded = None;
    }

    /// Appends a track to the queue.
    pub fn enqueue(&mut self, id: i64)
        requires
            old(self)@.wf(),
            old(self)@.queue.tracks.len() < usize::MAX,
        ensures
            final(self)@.wf(),
            final(self)@ == (CoreView {
                queue: QueueView {
                    tracks: old(self)@.queue.tracks.push(id),
                    order: old(self)@.queue.order.push(old(self)@.queue.tracks.len() as usize),
                    ..old(self)@.queue
                },
                queue_length: (old(self)@.queue.order.len() + 1) as usize,
                preloaded: None,
                ..old(self)@
            }),
    {
        self.queue.add_track(id);
        self.queue_length = self.queue.len();
        self.preloaded = None;
    }

    /// Puts a track right after the current one.
    pub fn enqueue_next(&mut self, id: i64)
        requires
            old(self)@.wf(),
            old(self)@.queue.tracks.len() < usize::MAX,
            old(self)@.queue.position matches Some(p) ==> p < old(self)@.queue.order.len(),
        ensures
            final(self)@.wf(),
            final(self)@ == (CoreView {
                queue: final(self)@.queue,
                queue_length: final(self)@.queue.order.len() as usize,
                preloaded: None,
                ..old(self)@
            }),
            final(self)@.queue.tracks == old(self)@.queue.tracks.push(id),
            final(self)@.queue.order == (match old(self)@.queue.position {
                Some(p) => old(self)@.queue.order.insert(
                    p + 1,
                    old(self)@.queue.tracks.len() as usize,
                ),
                None => old(self)@.queue.order.insert(0, old(self)@.queue.tracks.len() as usize),
            }),
            final(self)@.queue.position == old(self)@.queue.position,
            final(self)@.queue.shuffle == old(self)@.queue.shuffle,
            final(self)@.queue.stay_on_next == old(self)@.queue.stay_on_next,
    {
        self.queue.add_next(id);
        self.queue_length = self.queue.len();
        self.preloaded = None;
    }

    /// Moves a queue entry, keeping the playing entry current.
    pub fn move_entry(&mut self, from: usize, to: usize)
        requires
            old(self)@.wf(),
        ensures
            final(self)@.wf(),
            final(self)@ == (CoreView {
                queue: old(self)@.queue.after_move(from, to),
                queue_position: old(self)@.queue.after_move(from, to).position,
                preloaded: None,
                ..old(self)@
            }),
    {
        self.queue.move_in_queue(from, to);
        self.queue_position = self.queue.position();
        self.preloaded = None;
    }

    /// Removes a queue entry.
    pub fn remove_entry(&mut self, order_index: usize)
        requires
            old(self)@.wf(),
        ensures
            final(self)@.wf(),
            final(self)@ == (CoreView {
                queue: old(self)@.queue.after_remove(order_index),
                queue_length: old(self)@.queue.after_remove(order_index).order.len() as usize,
                queue_position: old(self)@.queue.after_remove(order_index).position,
                preloaded: None,
                ..old(self)@
            }),
    {
        self.queue.remove_at_order_index(order_index);
        self.queue_length = self.queue.len();
        self.queue_position = self.queue.position();
        self.preloaded = None;
    }

    /// Jumps to a queue entry; when it exists, a crossfade ends and the
    /// preload is dropped. Says whether it exists.
    pub fn jump_to(&mut self, order_index: usize) -> (r: bool)
        requires
            old(self)@.wf(),
        ensures
            final(self)@.wf(),
            r == (order_index < old(self)@.queue.order.len()),
            r ==> final(self)@ == (CoreView {
                queue: old(self)@.queue.after_skip_to(order_index),
                fade: None,
                preloaded: None,
                ..old(self)@
            }),
            !r ==> final(self)@ == old(self)@,
    {
        let found = self.queue.skip_to(order_index).is_some();
        if found {
            self.fade = None;
            self.preloaded = None;
        }
        found
    }

    /// Empties the queue and reports nothing playing (the loaded length
    /// stays as it was).
    pub fn clear_queue(&mut self)
        ensures
            final(self)@.wf(),
            final(self)@ == (CoreView { track_ms: old(self)@.track_ms, ..old(self)@.stopped() }),
    {
        let length = self.track_ms;
        self.stop();
        self.track_ms = length;
    }

    /// Turns volume normalization on or off (it applies to audio loaded
    /// from now on); the preload is dropped.
    pub fn set_normalize(&mut self, on: bool)
        ensures
            final(self)@ == (CoreView { normalize: on, preloaded: None, ..old(self)@ }),
    {
        self.normalize = on;
        self.preloaded = None;
    }

    /// Sets the crossfade length, capped at [`MAX_CROSSFADE_MS`]; turning
    /// crossfades off ends a running one. Says whether one was ended.
    pub fn set_crossfade(&mut self, ms: u64) -> (r: bool)
        ensures
            final(self)@.crossfade_ms == (if ms < MAX_CROSSFADE_MS {
                ms
            } else {
                MAX_CROSSFADE_MS
            }),
            r == (ms == 0 && old(self)@.fade is Some),
            final(self)@ == (CoreView {
                crossfade_ms: final(self)@.crossfade_ms,
                fade: if ms == 0 {
                    None
                } else {
                    old(self)@.fade
                },
                ..old(self)@
            }),
    {
        let capped = if ms < MAX_CROSSFADE_MS {
            ms
        } else {
            MAX_CROSSFADE_MS
        };
        self.crossfade_ms = capped;
        if capped == 0 {
            self.end_fade()
        } else {
            false
        }
    }

    /// After switching to another output device on request: with no current
    /// track nothing plays; when the current track was loaded again
    /// (`reloaded` is its decoder length) playback goes on from `resume_ms`,
    /// playing or paused as before; when loading failed the player stops.
    pub fn after_device_switch(
        &mut self,
        reloaded: Option<u64>,
        resume_ms: u64,
        was_playing: bool,
        now: u64,
    )
        ensures
            final(self)@ == (match (old(self)@.current_track, reloaded) {
                (None, _) => CoreView {
                    preloaded: None,
                    started_ms: None,
                    accumulated_ms: 0,
                    is_playing: false,
                    ..old(self)@
                },
                (Some(_), Some(d)) => CoreView {
                    preloaded: None,
                    track_ms: if d > 0 {
                        d
                    } else {
                        old(self)@.track_ms
                    },
                    accumulated_ms: resume_ms,
                    started_ms: if was_playing {
                        Some(now)
                    } else {
                        None
                    },
                    is_playing: was_playing,
                    ..old(self)@
                },
                (Some(_), None) => CoreView {
                    preloaded: None,
                    started_ms: None,
                    accumulated_ms: 0,
                    is_playing: false,
                    state: PlayerState::Stopped,
                    position_ms: 0,
                    ..old(self)@
                },
            }),
    {
        self.preloaded = None;
        if self.current_track.is_none() {
            self.started_ms = None;
            self.accumulated_ms = 0;
            self.is_playing = false;
            return;
        }
        match reloaded {
            Some(d) => {
                if d > 0 {
                    self.track_ms = d;
                }
                self.accumulated_ms = resume_ms;
                if was_playing {
                    self.started_ms = Some(now);
                    self.is_playing = true;
                } else {
                    self.started_ms = None;
                    self.is_playing = false;
                }
            },
            None => {
                self.started_ms = None;
                self.accumulated_ms = 0;
                self.is_playing = false;
                self.state = PlayerState::Stopped;
                self.position_ms = 0;
            },
        }
    }

    /// The new default output device could not be opened for playing: the
    /// clock stops and nothing plays.
    pub fn output_lost(&mut self)
        ensures
            final(self)@ == (CoreView { is_playing: false, started_ms: None, ..old(self)@ }),
    {
        self.is_playing = false;
        self.started_ms = None;
    }

    /// After following the system's default output device to a new one:
    /// a track that was playing goes on from `position_ms` when it could be
    /// loaded again (`reloaded` is its decoder length), and stops playing
    /// when it could not; the preload is dropped.
    pub fn after_auto_switch(
        &mut self,
        reloaded: Option<u64>,
        position_ms: u64,
        was_playing: bool,
        now: u64,
    )
        ensures
            final(self)@ == (if was_playing && old(self)@.current_track is Some {
                match reloaded {
                    Some(d) => CoreView {
                        preloaded: None,
                        track_ms: if d > 0 {
                            d
                        } else {
                            old(self)@.track_ms
                        },
                        accumulated_ms: position_ms,
                        started_ms: Some(now),
                        is_playing: true,
                        ..old(self)@
                    },
                    None => CoreView { preloaded: None, is_playing: false, ..old(self)@ },
                }
            } else {
                CoreView { preloaded: None, ..old(self)@ }
            }),
    {
        if was_playing && self.current_track.is_some() {
            match reloaded {
                Some(d) => {
                    if d > 0 {
                        self.track_ms = d;
                    }
                    self.accumulated_ms = position_ms;
                    self.started_ms = Some(now);
                    self.is_playing = true;
                },
                None => {
                    self.is_playing = false;
                },
            }
        }
        self.preloaded = None;
    }
}


impl PlayerCore {
    /// Advances a running crossfade at `now`. It is over once its elapsed
    /// time reaches its length (at least 1 ms) or the outgoing side ran
    /// out of audio.
    pub fn fade_tick(&mut self, old_side_empty: bool, now: u64) -> (r: FadeTick)
        requires
            old(self)@.clock_fits(now),
        ensures
            match old(self)@.fade {
                None => r is Idle && final(self)@ == old(self)@,
                Some(f) => {
                    let e = f.elapsed_ms + elapsed(f.last_tick_ms, now);
                    let d = if f.duration_ms > 0 {
                        f.duration_ms as int
                    } else {
                        1
                    };
                    if e >= d || old_side_empty {
                        r is Done && final(self)@ == (CoreView { fade: None, ..old(self)@ })
                    } else {
                        r == FadeTick::Ramp { elapsed_ms: e as u64, duration_ms: f.duration_ms }
                            && final(self)@ == (CoreView {
                            fade: Some(
                                Fade { elapsed_ms: e as u64, last_tick_ms: now, ..f },
                            ),
                            ..old(self)@
                        })
                    }
                },
            },
    {
        match self.fade {
            None => FadeTick::Idle,
            Some(f) => {
                let e = f.elapsed_ms + since(f.last_tick_ms, now);
                let d = if f.duration_ms > 0 {
                    f.duration_ms
                } else {
                    1
                };
                if e >= d || old_side_empty {
                    self.fade = None;
                    FadeTick::Done
                } else {
                    self.fade = Some(
                        Fade { duration_ms: f.duration_ms, elapsed_ms: e, last_tick_ms: now },
                    );
                    FadeTick::Ramp { elapsed_ms: e, duration_ms: f.duration_ms }
                }
            },
        }
    }

    /// Whether to preload the next track now (see [`CoreView::wants_preload`]).
    pub fn wants_preload(&self, now: u64) -> (r: bool)
        requires
            self@.clock_fits(now),
        ensures
            r == self@.wants_preload(now),
    {
        if self.preloaded.is_some() || self.fade.is_some() || self.track_ms == 0 {
            return false;
        }
        let pos = self.clock(now);
        let left = if self.track_ms >= pos {
            self.track_ms - pos
        } else {
            0
        };
        let lead = if self.crossfade_ms <= u64::MAX - 3000 {
            self.crossfade_ms + 3000
        } else {
            u64::MAX
        };
        let lead = if lead > 5000 {
            lead
        } else {
            5000
        };
        left < lead
    }

    /// The track to preload: the one "next" would play.
    pub fn preload_target(&self) -> (r: Option<i64>)
        requires
            self@.wf(),
        ensures
            r == self@.preload_target(),
    {
        match self.queue.peek_next(self.repeat == RepeatMode::All) {
            Some(t) => Some(*t),
            None => None,
        }
    }

    /// The audio of track `id` is ready for what plays next.
    pub fn remember_preload(&mut self, id: i64)
        ensures
            final(self)@ == (CoreView { preloaded: Some(id), ..old(self)@ }),
    {
        self.preloaded = Some(id);
    }

    /// Whether to start a crossfade at `now`: in the fade window (see
    /// [`CoreView::fade_window`]) it begins when the preloaded track is still
    /// the one that plays next, and otherwise the stale preload is dropped.
    pub fn crossfade_check(&mut self, now: u64) -> (r: FadeStart)
        requires
            old(self)@.wf(),
            old(self)@.clock_fits(now),
        ensures
            match old(self)@.fade_window(now) {
                None => r is Hold && final(self)@ == old(self)@,
                Some(len) => if old(self)@.preload_target() == old(self)@.preloaded {
                    r == FadeStart::Begin(len) && final(self)@ == old(self)@
                } else {
                    r is Stale && final(self)@ == (CoreView { preloaded: None, ..old(self)@ })
                },
            },
    {
        if self.crossfade_ms == 0 || self.fade.is_some() || self.preloaded.is_none()
            || self.track_ms == 0 {
            return FadeStart::Hold;
        }
        let pos = self.clock(now);
        let left = if self.track_ms >= pos {
            self.track_ms - pos
        } else {
            0
        };
        if self.repeat == RepeatMode::One || left <= 250 || left > self.crossfade_ms {
            return FadeStart::Hold;
        }
        let len = if self.crossfade_ms < left {
            self.crossfade_ms
        } else {
            left
        };
        let target = self.preload_target();
        if target == self.preloaded {
            FadeStart::Begin(len)
        } else {
            self.preloaded = None;
            FadeStart::Stale
        }
    }

    /// A crossfade of `fade_ms` into the preloaded track began (its decoder
    /// length `decoded_ms`, listed length `listed_ms`): the queue moves on
    /// (starting over at the end under repeat-all), the clock restarts and
    /// the preloaded track is reported as playing.
    pub fn begin_crossfade(
        &mut self,
        fade_ms: u64,
        decoded_ms: u64,
        listed_ms: Option<i64>,
        now: u64,
    )
        requires
            old(self)@.wf(),
            old(self)@.preloaded is Some,
        ensures
            final(self)@.wf(),
            final(self)@ == ({
                let q = if old(self)@.queue.next_result() is None && old(self)@.wraps() {
                    old(self)@.queue.after_next().after_restart()
                } else {
                    old(self)@.queue.after_next()
                };
                let length = loaded_length(decoded_ms, listed_ms);
                CoreView {
                    queue: q,
                    preloaded: None,
                    fade: Some(Fade { duration_ms: fade_ms, elapsed_ms: 0, last_tick_ms: now }),
                    track_ms: length,
                    accumulated_ms: 0,
                    started_ms: Some(now),
                    state: PlayerState::Playing,
                    current_track: old(self)@.preloaded,
                    position_ms: 0,
                    duration_ms: length,
                    queue_length: q.order.len() as usize,
                    queue_position: q.position,
                    ..old(self)@
                }
            }),
    {
        let incoming = self.preloaded;
        self.preloaded = None;
        let stepped = self.queue.next().is_some();
        if !stepped && self.repeat == RepeatMode::All {
            self.queue.restart();
        }
        self.fade = Some(Fade { duration_ms: fade_ms, elapsed_ms: 0, last_tick_ms: now });
        let length = track_length(decoded_ms, listed_ms);
        self.track_ms = length;
        self.accumulated_ms = 0;
        self.started_ms = Some(now);
        self.state = PlayerState::Playing;
        self.current_track = incoming;
        self.position_ms = 0;
        self.duration_ms = length;
        self.queue_length = self.queue.len();
        self.queue_position = self.queue.position();
    }

    /// The playing track ran out. Repeat-one plays it again; otherwise the
    /// queue moves on (starting over at the end under repeat-all). The next
    /// track plays from the preload when that is the track now current;
    /// without a next track the clock stops and the loaded length is reset.
    pub fn on_track_end(&mut self) -> (r: TrackEnd)
        requires
            old(self)@.wf(),
        ensures
            final(self)@.wf(),
            ({
                let v = old(self)@;
                let (q, found) = v.next_queue();
                let gapless = v.repeat != RepeatMode::One && v.queue.next_result() is Some
                    && v.preloaded is Some && q.current() == v.preloaded;
                if !found {
                    r is Finished && final(self)@ == (CoreView {
                        queue: q,
                        started_ms: None,
                        accumulated_ms: 0,
                        track_ms: 0,
                        is_playing: false,
                        preloaded: None,
                        ..v
                    })
                } else if gapless {
                    r == TrackEnd::Gapless(v.preloaded.unwrap()) && final(self)@ == (CoreView {
                        queue: q,
                        preloaded: None,
                        ..v
                    })
                } else {
                    r is Reload && final(self)@ == (CoreView { queue: q, preloaded: None, ..v })
                }
            }),
    {
        let (found, gapless) = if self.repeat == RepeatMode::One {
            (self.queue.current().is_some(), false)
        } else {
            let stepped = self.queue.next().is_some();
            if !stepped && self.repeat == RepeatMode::All {
                (self.queue.restart().is_some(), false)
            } else if stepped {
                let now_current = self.current_id();
                (true, self.preloaded.is_some() && now_current == self.preloaded)
            } else {
                (false, false)
            }
        };
        if !found {
            self.started_ms = None;
            self.accumulated_ms = 0;
            self.track_ms = 0;
            self.is_playing = false;
            self.preloaded = None;
            TrackEnd::Finished
        } else if gapless {
            let id = match self.preloaded {
                Some(id) => id,
                None => 0,
            };
            self.preloaded = None;
            TrackEnd::Gapless(id)
        } else {
            self.preloaded = None;
            TrackEnd::Reload
        }
    }

    /// The player stopped at the end of the queue.
    pub fn mark_stopped(&mut self)
        ensures
            final(self)@ == (CoreView {
                state: PlayerState::Stopped,
                position_ms: 0,
                ..old(self)@
            }),
    {
        self.state = PlayerState::Stopped;
        self.position_ms = 0;
    }

    /// Reports the position `pos_ms` (the periodic progress update).
    pub fn record_position(&mut self, pos_ms: u64)
        ensures
            final(self)@ == (CoreView { position_ms: pos_ms, ..old(self)@ }),
    {
        self.position_ms = pos_ms;
    }
}


/// Pausing freezes the position: after a pause at `t`, the clock reads
/// what it read at `t`, however late it is asked.
pub proof fn law_pause_freezes_clock(v: CoreView, t: u64, later: u64)
    requires
        v.clock_fits(t),
    ensures
        v.paused(t).clock(later) == v.clock(t),
        v.paused(t).position_ms == v.clock(t),
{
}

/// Pause and resume lose no time: after a pause at `t` and a resume at
/// `r`, the clock at any `later >= r` reads the position at `t` plus the
/// time since `r`.
pub proof fn law_resume_continues(v: CoreView, t: u64, r: u64, later: u64)
    requires
        v.clock_fits(t),
        r <= later,
    ensures
        v.paused(t).resumed(r).clock(later) == v.clock(t) + (later - r),
{
}

/// A seek sets the position: right after it the clock reads the target,
/// and while paused it stays there.
pub proof fn law_seek_sets_position(v: CoreView, pos: u64, now: u64, later: u64)
    requires
        v.is_playing || v.started_ms is None,
    ensures
        v.seeked(pos, now).clock(now) == pos,
        !v.is_playing ==> v.seeked(pos, now).clock(later) == pos,
        v.is_playing && now <= later ==> v.seeked(pos, now).clock(later) == pos + (later - now),
{
}

/// Under repeat-one, "next" plays the current track again: the queue does
/// not move.
pub proof fn law_repeat_one_replays(v: CoreView)
    requires
        v.repeat == RepeatMode::One,
    ensures
        v.next_queue().0 == v.queue,
        v.next_queue().1 == (v.queue.current() is Some),
{
}

/// Under repeat-all, "next" never runs out while the queue has entries and
/// a track is current: it starts over after the last one.
pub proof fn law_repeat_all_never_runs_out(v: CoreView)
    requires
        v.wf(),
        v.repeat == RepeatMode::All,
        v.queue.position matches Some(p) && p < v.queue.order.len(),
    ensures
        v.next_queue().1,
        v.next_queue().0.current() is Some,
{
    assert(v.queue.tracks.len() > 0) by {
        let p = v.queue.position.unwrap();
        assert((v.queue.order[p as int] as int) < v.queue.tracks.len());
    }
}

/// "Next" moves one entry forward whenever there is a following entry,
/// under repeat-all as without repeat: the queue's position goes from `p`
/// to `p + 1`, that entry's track becomes current, and nothing else of the
/// queue changes. Starting over is only for the end of the queue.
pub proof fn law_next_moves_to_following_entry(v: CoreView, p: usize)
    requires
        v.wf(),
        v.repeat != RepeatMode::One,
        !v.queue.stay_on_next,
        v.queue.position == Some(p),
        p + 1 < v.queue.order.len(),
        v.queue.order.len() <= usize::MAX,
    ensures
        v.next_queue().1,
        v.next_queue().0.position matches Some(x) && x == p + 1,
        v.next_queue().0.current() == Some(v.queue.entry(p + 1)),
        v.next_queue().0.tracks == v.queue.tracks,
        v.next_queue().0.order == v.queue.order,
        v.next_queue().0.shuffle == v.queue.shuffle,
{
    assert(v.queue.tracks.len() > 0) by {
        assert((v.queue.order[p as int] as int) < v.queue.tracks.len());
    }
    let q = v.next_queue().0;
    let np = q.position.unwrap();
    assert(np == p + 1);
    assert(q.order == v.queue.order && q.tracks == v.queue.tracks);
    assert(q.current() == Some(q.entry(np as int)));
}

/// Under repeat-all, "next" on the last entry starts over at the first
/// entry of the play order, which becomes current.
pub proof fn law_repeat_all_starts_over_after_last(v: CoreView, p: usize)
    requires
        v.wf(),
        v.repeat == RepeatMode::All,
        !v.queue.stay_on_next,
        v.queue.position == Some(p),
        p + 1 == v.queue.order.len(),
    ensures
        v.next_queue().1,
        v.next_queue().0.position == Some(0usize),
        v.next_queue().0.current() == Some(v.queue.entry(0)),
        v.next_queue().0.tracks == v.queue.tracks,
        v.next_queue().0.order == v.queue.order,
{
    assert(v.queue.tracks.len() > 0) by {
        assert((v.queue.order[p as int] as int) < v.queue.tracks.len());
    }
}

/// Without repeat, "next" on the last entry finds nothing to play.
pub proof fn law_no_repeat_ends_after_last(v: CoreView)
    requires
        v.wf(),
        v.repeat == RepeatMode::Off,
        !v.queue.stay_on_next,
        v.queue.position matches Some(p) && p + 1 == v.queue.order.len(),
    ensures
        !v.next_queue().1,
{
}

/// After "stop" nothing is loaded or playing, the queue is empty and the
/// position is 0.
pub proof fn law_stop_leaves_nothing(v: CoreView, later: u64)
    ensures
        v.stopped().queue.order.len() == 0,
        v.stopped().queue.tracks.len() == 0,
        v.stopped().current_track is None,
        !v.stopped().is_playing,
        v.stopped().state == PlayerState::Stopped,
        v.stopped().clock(later) == 0,
        v.stopped().preloaded is None,
        v.stopped().fade is None,
{
}

/// A crossfade only starts inside the track's last `crossfade_ms`, with
/// more than 250 ms left, and lasts at least 1 ms, at most the crossfade
/// length and at most the time left.
pub proof fn law_fade_window_bounds(v: CoreView, now: u64)
    ensures
        v.fade_window(now) matches Some(len) ==> {
            let left = remaining(v.track_ms, v.clock(now));
            &&& 250 < left <= v.crossfade_ms
            &&& 1 <= len
            &&& len <= v.crossfade_ms
            &&& len <= left
            &&& v.repeat != RepeatMode::One
        },
{
}


/// A repeat mode by name: "all", "one", anything else off.
pub fn repeat_mode_of(mode: &str) -> (r: RepeatMode)
    ensures
        r == (if mode@ == "all"@ {
            RepeatMode::All
        } else if mode@ == "one"@ {
            RepeatMode::One
        } else {
            RepeatMode::Off
        }),
{
    if crate::text::str_is(mode, "all") {
        RepeatMode::All
    } else if crate::text::str_is(mode, "one") {
        RepeatMode::One
    } else {
        RepeatMode::Off
    }
}

/// What a request to play a list of tracks queues: the requested ids that
/// exist, in the requested order and with repeats kept, starting at the
/// requested position clamped to the last of them. Nothing is played for
/// an empty request (`None`); a request none of whose tracks exists is an
/// error.
pub open spec fn play_plan(requested: Seq<i64>, found: Seq<i64>, start: usize) -> Option<Result<(Seq<i64>, usize), Seq<char>>> {
    let ids = requested.filter(|id: i64| found.contains(id));
    if requested.len() == 0 {
        None
    } else if ids.len() == 0 {
        Some(Err("No valid tracks found"@))
    } else {
        Some(
            Ok(
                (
                    ids,
                    if (start as int) < ids.len() {
                        start
                    } else {
                        (ids.len() - 1) as usize
                    },
                ),
            ),
        )
    }
}

fn contains_id(v: &Vec<i64>, id: i64) -> (r: bool)
    ensures
        r == v@.contains(id),
{
    let mut i: usize = 0;
    while i < v.len()
        invariant
            i <= v@.len(),
            forall|k: int| 0 <= k < i ==> v@[k] != id,
        decreases v@.len() - i,
    {
        if v[i] == id {
            return true;
        }
        i = i + 1;
    }
    false
}

/// The queue a play request gives (see [`play_plan`]); `found` are the ids
/// of the requested tracks that exist.
pub fn plan_play(requested: &Vec<i64>, found: &Vec<i64>, start: usize) -> (r: Option<Result<(Vec<i64>, usize), String>>)
    ensures
        match (r, play_plan(requested@, found@, start)) {
            (None, None) => true,
            (Some(Ok((ids, k))), Some(Ok((sids, sk)))) => ids@ == sids && k == sk,
            (Some(Err(e)), Some(Err(se))) => e@ == se,
            _ => false,
        },
{
    if requested.len() == 0 {
        return None;
    }
    let ghost pred = |id: i64| found@.contains(id);
    let mut ids: Vec<i64> = Vec::new();
    let mut i: usize = 0;
    while i < requested.len()
        invariant
            i <= requested@.len(),
            pred == (|id: i64| found@.contains(id)),
            ids@ == requested@.take(i as int).filter(pred),
        decreases requested@.len() - i,
    {
        proof {
            requested@.take(i as int).lemma_filter_push(requested@[i as int], pred);
            assert(requested@.take(i + 1) =~= requested@.take(i as int).push(requested@[i as int]));
        }
        if contains_id(found, requested[i]) {
            ids.push(requested[i]);
        }
        i = i + 1;
    }
    assert(requested@.take(i as int) =~= requested@);
    if ids.len() == 0 {
        return Some(Err("No valid tracks found".to_string()));
    }
    let k = if start < ids.len() {
        start
    } else {
        ids.len() - 1
    };
    Some(Ok((ids, k)))
}

/// Whether a track's loudness gain is measured when it starts playing: only
/// while normalization is on and the track has none yet.
pub fn wants_gain_measure(has_gain: bool, normalize_setting: &Option<String>) -> (r: bool)
    ensures
        r == (!has_gain && match normalize_setting {
            Some(v) => v@ == "true"@,
            None => false,
        }),
{
    if has_gain {
        return false;
    }
    match normalize_setting {
        Some(v) => crate::text::str_is(v.as_str(), "true"),
        None => false,
    }
}


/// Playing a list keeps repeats: every existing track is queued exactly as
/// often as it was requested.
pub proof fn law_play_keeps_repeats(requested: Seq<i64>, found: Seq<i64>, x: i64)
    requires
        found.contains(x),
    ensures
        requested.filter(|id: i64| found.contains(id)).to_multiset().count(x)
            == requested.to_multiset().count(x),
    decreases requested.len(),
{
    broadcast use vstd::seq_lib::group_to_multiset_ensures;

    let pred = |id: i64| found.contains(id);
    if requested.len() == 0 {
        assert(requested.filter(pred) =~= Seq::<i64>::empty());
    } else {
        let init = requested.drop_last();
        let last = requested.last();
        law_play_keeps_repeats(init, found, x);
        init.lemma_filter_push(last, pred);
        assert(requested =~= init.push(last));
    }
}

} // verus!
