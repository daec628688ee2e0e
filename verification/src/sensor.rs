//! Frame times from a sensor that reads the interval between vsyncs rather
//! than the time a frame took to render.
//!
//! Such a sensor is off by one refresh of the display whenever the game's
//! frame rate differs from the display's refresh rate. The refresh rate is
//! cached and polled again every five seconds. Times are in nanoseconds.

use vstd::prelude::*;

verus! {

/// A frame time in nanoseconds.
pub type FrameTime = u128;

/// Frames per second.
pub type Fps = u32;

/// One second.
pub const SECOND: u128 = 1_000_000_000;

/// How long a polled refresh rate is trusted.
pub const REFRESH_INTERVAL: u128 = 5_000_000_000;

/// Time of one frame at `fps` frames per second.
pub open spec fn frame_interval(fps: Fps) -> int {
    SECOND as int / fps as int
}

/// The frame time behind a measured `frametime`, for a game that aims at
/// `target_fps` on a display that refreshes at `refresh_rate`. Where the two
/// rates differ, a measurement longer than a frame and a refresh together
/// has one refresh too many, and one shorter than a frame has one too few.
pub open spec fn corrected(refresh_rate: Option<Fps>, frametime: FrameTime, target_fps: Fps) -> int {
    match refresh_rate {
        Some(rate) => if rate != target_fps {
            if frametime > frame_interval(target_fps) + frame_interval(rate) {
                frametime - frame_interval(rate)
            } else if frametime < frame_interval(target_fps) {
                frametime + frame_interval(rate)
            } else {
                frametime as int
            }
        } else {
            frametime as int
        },
        None => frametime as int,
    }
}

/// The corrector's state as mathematics.
pub struct RefreshCache {
    /// The display's refresh rate as polled last, if the poll told it.
    pub refresh_rate: Option<Fps>,
    /// When it was polled.
    pub timer: u128,
}

impl RefreshCache {
    /// The cached rate is older than five seconds at `now`.
    pub open spec fn stale(self, now: u128) -> bool {
        now >= self.timer && now - self.timer >= REFRESH_INTERVAL
    }
}

/// Corrects frame times with the display's refresh rate.
pub struct IgnoreFrameTime {
    refresh_rate: Option<Fps>,
    timer: u128,
}

impl View for IgnoreFrameTime {
    type V = RefreshCache;

    closed spec fn view(&self) -> RefreshCache {
        RefreshCache { refresh_rate: self.refresh_rate, timer: self.timer }
    }
}

impl IgnoreFrameTime {
    /// A corrector that polled `refresh_rate` at the time `now`.
    pub fn new(now: u128, refresh_rate: Option<Fps>) -> (s: IgnoreFrameTime)
        ensures
            s@ == (RefreshCache { refresh_rate, timer: now }),
    {
        IgnoreFrameTime { refresh_rate, timer: now }
    }

    /// Whether the refresh rate has to be polled again at the time `now`.
    pub fn refresh_due(&self, now: u128) -> (due: bool)
        ensures
            due == self@.stale(now),
    {
        now >= self.timer && now - self.timer >= REFRESH_INTERVAL
    }

    /// Records the refresh rate that was polled at the time `now`.
    pub fn refresh(&mut self, now: u128, refresh_rate: Option<Fps>)
        ensures
            final(self)@ == (RefreshCache { refresh_rate, timer: now }),
    {
        self.timer = now;
        self.refresh_rate = refresh_rate;
    }

    /// The cached refresh rate.
    pub fn refresh_rate(&self) -> (rate: Option<Fps>)
        ensures
            rate == self@.refresh_rate,
    {
        self.refresh_rate
    }

    /// Corrects a measured frame time with the cached refresh rate. Where
    /// the cached rate differs from `target_fps`, neither may be zero.
    pub fn ign(&self, frametime: FrameTime, target_fps: Fps) -> (actual: FrameTime)
        requires
            self@.refresh_rate matches Some(rate) ==> rate == target_fps || (rate > 0 && target_fps
                > 0),
        ensures
            actual == corrected(self@.refresh_rate, frametime, target_fps),
    {
        if let Some(rate) = self.refresh_rate {
            if rate != target_fps {
                let target_frametime: u128 = SECOND / (target_fps as u128);
                let refresh_time: u128 = SECOND / (rate as u128);
                let total_ign_time: u128 = target_frametime + refresh_time;
                if frametime > total_ign_time {
                    return frametime - refresh_time;
                } else if frametime < target_frametime {
                    return frametime + refresh_time;
                }
            }
        }
        frametime
    }
}

} // verus!
