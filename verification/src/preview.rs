//! Timing decisions of the image preview: the debounce of re-renders after
//! edits, and the playback of animated GIFs (which frame shows, when the
//! next one is due). Time comes in as elapsed nanoseconds, measured by the
//! caller.

use vstd::prelude::*;

verus! {

/// Debounce delay for preview updates, in milliseconds.
pub const PREVIEW_DEBOUNCE_MS: u64 = 150;

/// Minimum frame delay, in milliseconds (browsers clamp to 10 ms).
pub const MIN_FRAME_DELAY_MS: u64 = 10;

/// Nanoseconds per millisecond.
pub const NANOS_PER_MS: u128 = 1_000_000;

/// The delay of a frame given as the fraction `numer / denom` of
/// milliseconds, at least [`MIN_FRAME_DELAY_MS`].
pub open spec fn frame_delay(numer: u32, denom: u32) -> u64 {
    if denom == 0 || numer / denom < MIN_FRAME_DELAY_MS {
        MIN_FRAME_DELAY_MS
    } else {
        (numer / denom) as u64
    }
}

/// The delay of a frame, in milliseconds, from its `numer / denom`
/// millisecond fraction, clamped to at least [`MIN_FRAME_DELAY_MS`].
pub fn frame_delay_ms(numer: u32, denom: u32) -> (r: u64)
    ensures
        r == frame_delay(numer, denom),
        r >= MIN_FRAME_DELAY_MS,
{
    if denom == 0 {
        return MIN_FRAME_DELAY_MS;
    }
    let ms = (numer / denom) as u64;
    if ms < MIN_FRAME_DELAY_MS {
        MIN_FRAME_DELAY_MS
    } else {
        ms
    }
}

/// How long the preview must still wait after the last edit before it is
/// re-rendered: `None` when the debounce delay has passed.
pub fn debounce_remaining(elapsed_nanos: u128) -> (r: Option<u128>)
    ensures
        elapsed_nanos >= PREVIEW_DEBOUNCE_MS * NANOS_PER_MS ==> r is None,
        elapsed_nanos < PREVIEW_DEBOUNCE_MS * NANOS_PER_MS ==> r == Some(
            (PREVIEW_DEBOUNCE_MS * NANOS_PER_MS - elapsed_nanos) as u128,
        ),
{
    let debounce = (PREVIEW_DEBOUNCE_MS as u128) * NANOS_PER_MS;
    if elapsed_nanos < debounce {
        Some(debounce - elapsed_nanos)
    } else {
        None
    }
}

/// Playback state of an animated GIF with more than one frame.
pub struct Playback {
    /// Per-frame delays, in milliseconds.
    delays_ms: Vec<u64>,
    /// The frame being displayed.
    current_frame: usize,
    /// Whether the animation plays by itself.
    playing: bool,
}

/// The content of a [`Playback`].
pub ghost struct PlaybackView {
    pub delays_ms: Seq<u64>,
    pub current_frame: int,
    pub playing: bool,
}

impl View for Playback {
    type V = PlaybackView;

    closed spec fn view(&self) -> PlaybackView {
        PlaybackView {
            delays_ms: self.delays_ms@,
            current_frame: self.current_frame as int,
            playing: self.playing,
        }
    }
}

impl Playback {
    /// The displayed frame is one of the frames, and there are at least two.
    pub open spec fn wf(&self) -> bool {
        &&& self@.delays_ms.len() > 1
        &&& 0 <= self@.current_frame < self@.delays_ms.len()
    }

    /// Playback of frames with the given delays after a (re-)decode: the frame
    /// and play state of `previous` are kept (the frame clamped to the new
    /// frame count), or playback starts at the first frame.
    pub fn new(delays_ms: Vec<u64>, previous: Option<(usize, bool)>) -> (r: Self)
        requires
            delays_ms@.len() > 1,
        ensures
            r.wf(),
            r@.delays_ms == delays_ms@,
            match previous {
                Some((frame, playing)) => {
                    &&& r@.current_frame == if frame < delays_ms@.len() {
                        frame as int
                    } else {
                        delays_ms@.len() - 1
                    }
                    &&& r@.playing == playing
                },
                None => r@.current_frame == 0 && r@.playing,
            },
    {
        let n = delays_ms.len();
        let (current_frame, playing) = match previous {
            Some((frame, playing)) => (
                if frame < n {
                    frame
                } else {
                    n - 1
                },
                playing,
            ),
            None => (0, true),
        };
        Playback { delays_ms, current_frame, playing }
    }

    /// The displayed frame.
    pub fn current_frame(&self) -> (r: usize)
        ensures
            r == self@.current_frame,
    {
        self.current_frame
    }

    /// Whether the animation plays by itself.
    pub fn is_playing(&self) -> (r: bool)
        ensures
            r == self@.playing,
    {
        self.playing
    }

    /// Advance when playing and the current frame's delay has elapsed (the
    /// frames loop). Returns whether the frame changed, in which case the
    /// frame timer restarts.
    pub fn tick(&mut self, elapsed_nanos: u128) -> (advanced: bool)
        requires
            old(self).wf(),
        ensures
            final(self).wf(),
            final(self)@.delays_ms == old(self)@.delays_ms,
            final(self)@.playing == old(self)@.playing,
            advanced == (old(self)@.playing && elapsed_nanos >= old(self)@.delays_ms[old(
                self,
            )@.current_frame] * NANOS_PER_MS),
            advanced ==> final(self)@.current_frame == (old(self)@.current_frame + 1) % (old(
                self,
            )@.delays_ms.len() as int),
            !advanced ==> final(self)@.current_frame == old(self)@.current_frame,
    {
        if !self.playing {
            return false;
        }
        let delay = (self.delays_ms[self.current_frame] as u128) * NANOS_PER_MS;
        if elapsed_nanos >= delay {
            let n = self.delays_ms.len();
            self.current_frame = (self.current_frame + 1) % n;
            true
        } else {
            false
        }
    }

    /// Time left before the current frame's delay has elapsed (0 when it has).
    pub fn remaining_nanos(&self, elapsed_nanos: u128) -> (r: u128)
        requires
            self.wf(),
        ensures
            r == if elapsed_nanos >= self@.delays_ms[self@.current_frame] * NANOS_PER_MS {
                0
            } else {
                self@.delays_ms[self@.current_frame] * NANOS_PER_MS - elapsed_nanos
            },
    {
        let delay = (self.delays_ms[self.current_frame] as u128) * NANOS_PER_MS;
        if elapsed_nanos >= delay {
            0
        } else {
            delay - elapsed_nanos
        }
    }

    /// Show frame `frame_index`, clamped to the last frame.
    pub fn set_frame(&mut self, frame_index: usize)
        requires
            old(self).wf(),
        ensures
            final(self).wf(),
            final(self)@ == (PlaybackView {
                current_frame: if frame_index < old(self)@.delays_ms.len() {
                    frame_index as int
                } else {
                    old(self)@.delays_ms.len() - 1
                },
                ..old(self)@
            }),
    {
        let last = self.delays_ms.len() - 1;
        self.current_frame = if frame_index < last {
            frame_index
        } else {
            last
        };
    }

    /// Toggle play/pause. Returns whether it now plays (the frame timer then
    /// restarts).
    pub fn toggle(&mut self) -> (playing: bool)
        requires
            old(self).wf(),
        ensures
            final(self).wf(),
            final(self)@ == (PlaybackView { playing: !old(self)@.playing, ..old(self)@ }),
            playing == !old(self)@.playing,
    {
        self.playing = !self.playing;
        self.playing
    }

    /// Pause (used when stepping frame by frame).
    pub fn pause(&mut self)
        requires
            old(self).wf(),
        ensures
            final(self).wf(),
            final(self)@ == (PlaybackView { playing: false, ..old(self)@ }),
    {
        self.playing = false;
    }
}

} // verus!
