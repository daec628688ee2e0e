//! The jank dispatch loop, one decision at a time.
//!
//! The loop polls the game context, and on a change loads the new context
//! before anything else. Otherwise it buffers one jank sample; a full window
//! is reduced to its worst sample, clamped to the ceiling if one is set, and
//! reported. The caller owns the connection and the controller: it asks here
//! what to do and does it.

use crate::error::DispatchError;
use vstd::prelude::*;

verus! {

/// Window size before the first game is loaded.
pub const WINDOW_DEFAULT: usize = 15;

/// Smallest window, before scaling by the display's refresh rate.
pub const WINDOW_FLOOR: u32 = 5;

/// The foreground game and the frame rate it aims for.
pub struct GameContext {
    pub game: String,
    pub target_fps: u32,
}

/// A game context as mathematics.
pub struct Context {
    pub game: Seq<char>,
    pub target_fps: u32,
}

impl View for GameContext {
    type V = Context;

    open spec fn view(&self) -> Context {
        Context { game: self.game@, target_fps: self.target_fps }
    }
}

/// The context that `c` stands for; `None` is the idle profile.
pub open spec fn context_of(c: Option<GameContext>) -> Option<Context> {
    match c {
        Some(g) => Some(g@),
        None => None,
    }
}

/// Frames per window before scaling: a quarter of a second, at least five.
pub open spec fn base_window(target_fps: u32) -> int {
    if target_fps / 4 >= WINDOW_FLOOR {
        target_fps as int / 4
    } else {
        WINDOW_FLOOR as int
    }
}

/// The window size fits the 32 bits it is computed in.
pub open spec fn window_fits(target_fps: u32, display_fps: u32) -> bool {
    base_window(target_fps) * display_fps <= u32::MAX
}

/// Samples per window for a game at `target_fps` on a display at
/// `display_fps`.
pub open spec fn spec_window_size(target_fps: u32, display_fps: u32) -> int {
    base_window(target_fps) * display_fps / (target_fps as int)
}

/// On a display that refreshes at least as fast as the game aims to draw, a
/// window holds five samples or more, however low the game's frame rate.
pub proof fn lemma_window_floor(target_fps: u32, display_fps: u32)
    requires
        0 < target_fps <= display_fps,
    ensures
        spec_window_size(target_fps, display_fps) >= WINDOW_FLOOR,
{
    let base = base_window(target_fps);
    let t = target_fps as int;
    let d = display_fps as int;
    assert(base * d >= WINDOW_FLOOR * t) by (nonlinear_arith)
        requires
            base >= WINDOW_FLOOR,
            d >= t,
            t > 0,
    ;
    assert((base * d) / t >= WINDOW_FLOOR) by (nonlinear_arith)
        requires
            base * d >= WINDOW_FLOOR * t,
            t > 0,
    ;
}

/// The worst sample of a window; zero for an empty one.
pub open spec fn peak(s: Seq<u32>) -> u32
    decreases s.len(),
{
    if s.len() == 0 {
        0
    } else if peak(s.drop_last()) >= s.last() {
        peak(s.drop_last())
    } else {
        s.last()
    }
}

/// What a full window reports: its worst sample, held to the ceiling.
pub open spec fn reported(s: Seq<u32>, ceiling: Option<u32>) -> u32 {
    match ceiling {
        Some(c) => if peak(s) <= c {
            peak(s)
        } else {
            c
        },
        None => peak(s),
    }
}

/// The worst sample of a window is one of its samples, and none is worse.
pub proof fn lemma_peak_is_greatest(s: Seq<u32>)
    ensures
        s.len() == 0 ==> peak(s) == 0,
        s.len() > 0 ==> s.contains(peak(s)),
        forall|i: int| 0 <= i < s.len() ==> #[trigger] s[i] <= peak(s),
    decreases s.len(),
{
    if s.len() > 0 {
        let front = s.drop_last();
        lemma_peak_is_greatest(front);
        if front.len() > 0 && peak(front) >= s.last() {
            let k = choose|k: int| 0 <= k < front.len() && front[k] == peak(front);
            assert(s[k] == peak(s));
        } else {
            assert(s[s.len() - 1] == peak(s));
        }
        assert forall|i: int| 0 <= i < s.len() implies #[trigger] s[i] <= peak(s) by {
            if i < front.len() {
                assert(front[i] == s[i]);
            }
        }
    }
}

/// A report never exceeds the ceiling, and without one it is the worst
/// sample.
pub proof fn lemma_report_bounded(s: Seq<u32>, ceiling: Option<u32>)
    ensures
        ceiling matches Some(c) ==> reported(s, ceiling) <= c,
        reported(s, ceiling) <= peak(s),
        ceiling is None ==> reported(s, ceiling) == peak(s),
{
}

/// The loop's state as mathematics.
pub struct DispatchState {
    /// The context that was loaded last.
    pub status: Option<Context>,
    /// Samples per window.
    pub window: nat,
    /// Samples of the window that is being filled.
    pub buffer: Seq<u32>,
    /// Hard ceiling on what is reported.
    pub ceiling: Option<u32>,
}

impl DispatchState {
    /// The state a loop starts in: idle, windows of fifteen samples.
    pub open spec fn initial(ceiling: Option<u32>) -> DispatchState {
        DispatchState {
            status: None,
            window: WINDOW_DEFAULT as nat,
            buffer: Seq::empty(),
            ceiling,
        }
    }

    /// The polled context differs from the one that is loaded.
    pub open spec fn changed(self, update: Option<Context>) -> bool {
        self.status != update
    }

    /// The state after `update` was loaded: a game sets the window size, the
    /// idle profile keeps it; samples of the old context are dropped.
    pub open spec fn switched(self, update: Option<Context>, display_fps: u32) -> DispatchState {
        DispatchState {
            status: update,
            window: match update {
                Some(c) => spec_window_size(c.target_fps, display_fps) as nat,
                None => self.window,
            },
            buffer: Seq::empty(),
            ceiling: self.ceiling,
        }
    }

    /// One more sample completes the window.
    pub open spec fn completes(self) -> bool {
        self.buffer.len() + 1 >= self.window
    }

    /// The state after `level` arrived.
    pub open spec fn sampled(self, level: u32) -> DispatchState {
        DispatchState {
            status: self.status,
            window: self.window,
            buffer: if self.completes() {
                Seq::empty()
            } else {
                self.buffer.push(level)
            },
            ceiling: self.ceiling,
        }
    }

    /// What is reported when `level` arrives.
    pub open spec fn report(self, level: u32) -> Option<u32> {
        if self.completes() {
            Some(reported(self.buffer.push(level), self.ceiling))
        } else {
            None
        }
    }
}

/// What the caller does after a context was loaded.
#[derive(Clone, Copy, PartialEq, Eq, Structural, Debug)]
pub enum Directive {
    /// Send the target frame rate to the connection, then initialise the
    /// controller for a game.
    InitGame(u32),
    /// Clear the target frame rate on the connection, then initialise the
    /// controller for the idle profile.
    InitDefault,
}

/// Loading a context leaves it loaded and the window empty: polled again, the
/// same context calls for no second initialisation, and no sample from before
/// the switch is in the next report.
pub proof fn lemma_switch_once(s: DispatchState, update: Option<Context>, display_fps: u32)
    ensures
        !s.switched(update, display_fps).changed(update),
        s.switched(update, display_fps).buffer.len() == 0,
        forall|level: u32|
            s.switched(update, display_fps).completes() ==> #[trigger] s.switched(
                update,
                display_fps,
            ).report(level) == Some(reported(seq![level], s.ceiling)),
{
    assert forall|level: u32|
        s.switched(update, display_fps).completes() implies #[trigger] s.switched(
        update,
        display_fps,
    ).report(level) == Some(reported(seq![level], s.ceiling)) by {
        assert(Seq::<u32>::empty().push(level) =~= seq![level]);
    }
}

/// Samples per window for a game at `target_fps` on a display at
/// `display_fps`: `max(5, target_fps / 4) * display_fps / target_fps`.
pub fn window_size(target_fps: u32, display_fps: u32) -> (size: Result<usize, DispatchError>)
    requires
        target_fps > 0,
    ensures
        window_fits(target_fps, display_fps) ==> size == Ok::<usize, DispatchError>(
            spec_window_size(target_fps, display_fps) as usize,
        ),
        window_fits(target_fps, display_fps) ==> spec_window_size(target_fps, display_fps)
            <= u32::MAX,
        !window_fits(target_fps, display_fps) ==> size == Err::<usize, DispatchError>(
            DispatchError::NumericOverflow,
        ),
{
    let quarter: u32 = target_fps / 4;
    let base: u32 = if quarter >= WINDOW_FLOOR {
        quarter
    } else {
        WINDOW_FLOOR
    };
    assert(base as int * display_fps as int <= 0x4000_0000 * 0x1_0000_0000) by (nonlinear_arith)
        requires
            0 <= base <= 0x4000_0000,
            0 <= display_fps <= 0xffff_ffff,
    ;
    let product: u64 = base as u64 * display_fps as u64;
    if product > u32::MAX as u64 {
        return Err(DispatchError::NumericOverflow);
    }
    let size: u64 = product / target_fps as u64;
    Ok(size as usize)
}

/// The worst sample of `buffer`, held to `ceiling`.
pub fn reduce(buffer: &Vec<u32>, ceiling: Option<u32>) -> (jank: u32)
    ensures
        jank == reported(buffer@, ceiling),
{
    let mut worst: u32 = 0;
    let mut i: usize = 0;
    while i < buffer.len()
        invariant
            i <= buffer.len(),
            worst == peak(buffer@.take(i as int)),
        decreases buffer.len() - i,
    {
        proof {
            assert(buffer@.take(i as int + 1).drop_last() =~= buffer@.take(i as int));
        }
        if buffer[i] > worst {
            worst = buffer[i];
        }
        i = i + 1;
    }
    proof {
        assert(buffer@.take(buffer.len() as int) =~= buffer@);
    }
    match ceiling {
        Some(c) => if worst <= c {
            worst
        } else {
            c
        },
        None => worst,
    }
}

/// The dispatch loop's state.
pub struct JankDispatch {
    status: Option<GameContext>,
    window: usize,
    buffer: Vec<u32>,
    ceiling: Option<u32>,
}

impl View for JankDispatch {
    type V = DispatchState;

    closed spec fn view(&self) -> DispatchState {
        DispatchState {
            status: context_of(self.status),
            window: self.window as nat,
            buffer: self.buffer@,
            ceiling: self.ceiling,
        }
    }
}

impl JankDispatch {
    /// A loop that has loaded nothing yet. `jank_level_max` is the hard
    /// ceiling on what is reported, if there is one.
    pub fn new(jank_level_max: Option<u32>) -> (d: JankDispatch)
        ensures
            d@ == DispatchState::initial(jank_level_max),
    {
        JankDispatch {
            status: None,
            window: WINDOW_DEFAULT,
            buffer: Vec::new(),
            ceiling: jank_level_max,
        }
    }

    /// Whether the polled context differs from the one that is loaded.
    pub fn context_changed(&self, update: &Option<GameContext>) -> (changed: bool)
        ensures
            changed == self@.changed(context_of(*update)),
    {
        match (&self.status, update) {
            (None, None) => false,
            (Some(a), Some(b)) => !(a.target_fps == b.target_fps && a.game == b.game),
            _ => true,
        }
    }

    /// Loads `update`. A game sets the window size from its frame rate and
    /// the display's; the idle profile keeps the window size. Samples that
    /// were buffered are dropped. Fails, and changes nothing, where the
    /// window size does not fit 32 bits.
    pub fn switch_context(&mut self, update: Option<GameContext>, display_fps: u32) -> (directive:
        Result<Directive, DispatchError>)
        requires
            update matches Some(c) ==> c.target_fps > 0,
        ensures
            match update {
                None => {
                    &&& directive == Ok::<Directive, DispatchError>(Directive::InitDefault)
                    &&& final(self)@ == old(self)@.switched(None, display_fps)
                },
                Some(c) => if window_fits(c.target_fps, display_fps) {
                    &&& directive == Ok::<Directive, DispatchError>(
                        Directive::InitGame(c.target_fps),
                    )
                    &&& final(self)@ == old(self)@.switched(Some(c@), display_fps)
                } else {
                    &&& directive == Err::<Directive, DispatchError>(
                        DispatchError::NumericOverflow,
                    )
                    &&& final(self)@ == old(self)@
                },
            },
    {
        let directive = match &update {
            None => Directive::InitDefault,
            Some(c) => {
                match window_size(c.target_fps, display_fps) {
                    Ok(size) => {
                        self.window = size;
                    },
                    Err(e) => {
                        return Err(e);
                    },
                }
                Directive::InitGame(c.target_fps)
            },
        };
        self.status = update;
        self.buffer.clear();
        Ok(directive)
    }

    /// Takes one jank sample. The sample that fills the window is reported
    /// with it: the worst sample of the window, held to the ceiling; the
    /// window then starts over.
    pub fn sample(&mut self, level: u32) -> (jank: Option<u32>)
        ensures
            final(self)@ == old(self)@.sampled(level),
            jank == old(self)@.report(level),
    {
        self.buffer.push(level);
        if self.buffer.len() < self.window {
            None
        } else {
            let jank: u32 = reduce(&self.buffer, self.ceiling);
            self.buffer.clear();
            Some(jank)
        }
    }

    /// Samples per window.
    pub fn window(&self) -> (window: usize)
        ensures
            window == self@.window,
    {
        self.window
    }

    /// Number of samples in the window that is being filled.
    pub fn buffered(&self) -> (len: usize)
        ensures
            len == self@.buffer.len(),
    {
        self.buffer.len()
    }
}

} // verus!
