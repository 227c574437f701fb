use vstd::prelude::*;
use crate::net::elapsed;

verus! {

/// The frames per second the runtime aims for.
pub const FPS: u8 = 60;

/// Keeps a steady frame rate: decides how long to sleep after each update
/// and how often the app renders.
pub struct FramePacer {
    /// The time (in microseconds) the last frame ended.
    pub prev_time: u64,
    /// The time (in microseconds) one frame should take.
    pub per_frame: u64,
    /// How much (in microseconds) the last frame was late.
    pub prev_lag: u64,
    /// The frame number, counting up to `4 * FPS` and then from zero again.
    pub n_frames: u8,
    /// For how many frames in a row the app was late.
    pub lagging_frames: u8,
    /// For how many frames in a row the app had time to spare.
    pub fast_frames: u8,
    /// Render every that many frames.
    pub render_every: u8,
}

/// What to do at the end of a frame: sleep for `sleep`, and account for the lag
/// that the sleep made up for (`shaved`) and the new lag (`lagged`).
#[derive(Debug, Clone, Copy, PartialEq, Eq, Structural)]
pub struct FrameDelay {
    pub sleep: u64,
    pub shaved: u64,
    pub lagged: u64,
}

/// True if the frame number is a multiple of `every` (only zero is a multiple of zero).
pub open spec fn is_multiple(n: u8, every: u8) -> bool {
    if every == 0 { n == 0 } else { n % every == 0 }
}

impl FramePacer {
    pub fn new(now: u64, per_frame: u64) -> (res: Self)
        ensures
            res.prev_time == now,
            res.per_frame == per_frame,
            res.prev_lag == 0,
            res.n_frames == 0,
            res.lagging_frames == 0,
            res.fast_frames == 0,
            res.render_every == 2,
    {
        FramePacer {
            prev_time: now,
            per_frame,
            prev_lag: 0,
            n_frames: 0,
            lagging_frames: 0,
            fast_frames: 0,
            render_every: 2,
        }
    }

    pub fn set_render_every(&mut self, render_every: u8)
        ensures
            *final(self) == (FramePacer { render_every, ..*old(self) }),
    {
        self.render_every = render_every;
    }

    /// Render less often after a second of lagging frames, more often after a
    /// second of frames with time to spare; every frame at most, every 8th at least.
    pub fn adjust(&mut self)
        requires
            old(self).fast_frames >= FPS ==> old(self).render_every >= 1,
        ensures
            old(self).fast_frames >= FPS ==> final(self).render_every == (if old(self).render_every - 1 >= 1 {
                old(self).render_every - 1
            } else {
                1
            }) && final(self).fast_frames == 0 && final(self).lagging_frames == old(self).lagging_frames,
            old(self).fast_frames < FPS && old(self).lagging_frames >= FPS ==> final(self).render_every == (
            if old(self).render_every + 1 <= 8 {
                old(self).render_every + 1
            } else {
                8
            }) && final(self).lagging_frames == 0 && final(self).fast_frames == old(self).fast_frames,
            old(self).fast_frames < FPS && old(self).lagging_frames < FPS ==> *final(self) == *old(self),
            final(self).prev_time == old(self).prev_time,
            final(self).per_frame == old(self).per_frame,
            final(self).prev_lag == old(self).prev_lag,
            final(self).n_frames == old(self).n_frames,
            1 <= old(self).render_every <= 8 ==> 1 <= final(self).render_every <= 8,
    {
        if self.fast_frames >= FPS {
            let r = self.render_every - 1;
            self.render_every = if r >= 1 { r } else { 1 };
            self.fast_frames = 0;
        } else if self.lagging_frames >= FPS {
            let r = (self.render_every as u16) + 1;
            self.render_every = if r <= 8 { r as u8 } else { 8 };
            self.lagging_frames = 0;
        }
    }

    /// Decide how long to sleep at the end of the frame, given the time now.
    ///
    /// A frame that took less than [`Self::per_frame`] sleeps for the rest, minus the
    /// lag of the previous frame; a longer frame becomes the new lag.
    /// The caller sleeps and then tells the time with [`Self::finish_delay`].
    pub fn delay(&mut self, now: u64) -> (res: FrameDelay)
        ensures
            ({
                let e = elapsed(now, old(self).prev_time);
                if e < old(self).per_frame {
                    let d = old(self).per_frame - e;
                    &&& res.sleep == (if d > old(self).prev_lag { d - old(self).prev_lag } else { 0 })
                    &&& res.shaved == (if d > old(self).prev_lag { old(self).prev_lag as int } else { 0 })
                    &&& res.lagged == 0
                    &&& final(self).fast_frames == (old(self).fast_frames + 1) % 240
                    &&& final(self).prev_lag == 0
                    &&& final(self).lagging_frames == 0
                } else {
                    &&& res.sleep == 0
                    &&& res.shaved == 0
                    &&& res.lagged == e - old(self).per_frame
                    &&& final(self).prev_lag == e - old(self).per_frame
                    &&& final(self).lagging_frames == (old(self).lagging_frames + 1) % 240
                    &&& final(self).fast_frames == 0
                }
            }),
            final(self).prev_time == old(self).prev_time,
            final(self).per_frame == old(self).per_frame,
            final(self).n_frames == old(self).n_frames,
            final(self).render_every == old(self).render_every,
    {
        let elapsed = now.saturating_sub(self.prev_time);
        if elapsed < self.per_frame {
            let delay = self.per_frame - elapsed;
            let mut res = FrameDelay { sleep: 0, shaved: 0, lagged: 0 };
            if delay > self.prev_lag {
                res = FrameDelay { sleep: delay - self.prev_lag, shaved: self.prev_lag, lagged: 0 };
            }
            self.fast_frames = ((self.fast_frames as u16 + 1) % 240) as u8;
            self.prev_lag = 0;
            self.lagging_frames = 0;
            res
        } else {
            let lag = elapsed - self.per_frame;
            self.prev_lag = lag;
            self.lagging_frames = ((self.lagging_frames as u16 + 1) % 240) as u8;
            self.fast_frames = 0;
            FrameDelay { sleep: 0, shaved: 0, lagged: lag }
        }
    }

    /// Note the time the frame ended (after the sleep).
    pub fn finish_delay(&mut self, now: u64)
        ensures
            *final(self) == (FramePacer { prev_time: now, ..*old(self) }),
    {
        self.prev_time = now;
    }

    /// Decide if the app renders this frame and go to the next frame.
    ///
    /// The app renders when it exits and on every `render_every`-th frame,
    /// the first frame among them.
    pub fn should_render(&mut self, exit: bool) -> (res: bool)
        ensures
            res == (exit || is_multiple(old(self).n_frames, old(self).render_every)),
            final(self).n_frames == (old(self).n_frames + 1) % 240,
            final(self).prev_time == old(self).prev_time,
            final(self).per_frame == old(self).per_frame,
            final(self).prev_lag == old(self).prev_lag,
            final(self).lagging_frames == old(self).lagging_frames,
            final(self).fast_frames == old(self).fast_frames,
            final(self).render_every == old(self).render_every,
    {
        let multiple = if self.render_every == 0 {
            self.n_frames == 0
        } else {
            self.n_frames % self.render_every == 0
        };
        let res = exit || multiple;
        self.n_frames = ((self.n_frames as u16 + 1) % 240) as u8;
        res
    }
}

/// While `render_every` is between 1 and 8, the app renders at least once in every
/// `render_every` frames in a row: the frame counter runs through multiples of every such
/// number before it wraps around.
pub proof fn law_renders_regularly(n_frames: u8, render_every: u8)
    requires
        1 <= render_every <= 8,
        n_frames < 240,
    ensures
        exists|k: int| 0 <= k < render_every && #[trigger] is_multiple(((n_frames + k) % 240) as u8, render_every),
{
    let n: int = n_frames as int;
    let r: int = render_every as int;
    let up: int = if n % r == 0 { 0 } else { r - n % r };
    let k: int = if n + up < 240 { up } else { 240 - n };
    assert(0 <= up < r && (n + up) % r == 0) by (nonlinear_arith)
        requires
            1 <= r <= 8,
            0 <= n < 240,
            up == (if n % r == 0 { 0 } else { r - n % r }),
    ;
    if n + up < 240 {
        assert((n + k) % 240 == n + k);
        assert(((n + k) % 240) % r == 0);
    } else {
        assert((n + k) % 240 == 0);
    }
    assert(is_multiple(((n_frames + k) % 240) as u8, render_every));
}

} // verus!
