use vstd::prelude::*;
use crate::net::elapsed;

verus! {

/// How often (in update cycles) the stats are emitted.
pub const FREQ: u32 = 60;

/// The fuel (instructions) that the runs of a callback consumed.
pub struct CallbackFuel {
    pub min: Option<u32>,
    pub max: u32,
    pub sum: u32,
    pub count: u32,
}

/// The fuel summary of a callback: the least, the most, and the average fuel per run,
/// and the number of runs.
#[derive(Debug, Clone, Copy, PartialEq, Eq, Structural)]
pub struct FuelSummary {
    pub min: u32,
    pub max: u32,
    pub mean: u32,
    pub calls: u32,
}

impl CallbackFuel {
    /// The record of no runs.
    pub open spec fn empty() -> Self {
        CallbackFuel { min: None, max: 0, sum: 0, count: 0 }
    }

    /// No runs yet.
    pub fn new() -> (res: Self)
        ensures
            res == Self::empty(),
    {
        CallbackFuel { min: None, max: 0, sum: 0, count: 0 }
    }

    /// Forget all runs.
    pub fn reset(&mut self)
        ensures
            *final(self) == Self::empty(),
    {
        *self = CallbackFuel::new();
    }

    /// Account for one run that consumed `v` fuel.
    pub fn add(&mut self, v: u32)
        requires
            old(self).sum + v <= u32::MAX,
            old(self).count < u32::MAX,
        ensures
            final(self).min == Some(match old(self).min {
                Some(m) => if v < m { v } else { m },
                None => v,
            }),
            final(self).max == (if v > old(self).max { v } else { old(self).max }),
            final(self).sum == old(self).sum + v,
            final(self).count == old(self).count + 1,
    {
        self.min = match self.min {
            Some(min) => Some(if v < min { v } else { min }),
            None => Some(v),
        };
        self.max = if v > self.max { v } else { self.max };
        self.sum = self.sum + v;
        self.count = self.count + 1;
    }

    /// The summary of the runs so far; all zeros if there were none.
    pub fn as_fuel(&self) -> (res: FuelSummary)
        ensures
            self.count == 0 ==> res == (FuelSummary { min: 0, max: 0, mean: 0, calls: 0 }),
            self.count > 0 ==> res == (FuelSummary {
                min: match self.min {
                    Some(m) => m,
                    None => 0,
                },
                max: self.max,
                mean: (self.sum / self.count) as u32,
                calls: self.count,
            }),
    {
        if self.count == 0 {
            return FuelSummary { min: 0, max: 0, mean: 0, calls: 0 };
        }
        FuelSummary {
            min: match self.min {
                Some(m) => m,
                None => 0,
            },
            max: self.max,
            mean: self.sum / self.count,
            calls: self.count,
        }
    }
}

/// Which callback a fuel summary is for.
#[derive(Debug, Clone, Copy, PartialEq, Eq, Structural)]
pub enum StatsCallback {
    Update,
    Render,
}

/// A stats message for the developer tools.
#[derive(Debug, Clone, Copy, PartialEq, Eq, Structural)]
pub enum StatsMessage {
    /// The time (in nanoseconds) the app was busy, lagging, and the whole time.
    Cpu { busy_ns: u32, lag_ns: u32, total_ns: u32 },
    Fuel(StatsCallback, FuelSummary),
    /// The allocated memory pages and the address after the last non-zero byte.
    Memory { pages: u16, last_one: u32 },
}

/// Runtime stats, emitted over the serial port for the developer tools.
pub struct StatsTracker {
    pub frame: u32,
    /// Fuel spendings for the `update` callback.
    pub update_fuel: CallbackFuel,
    /// Fuel spendings for the `render` callback.
    pub render_fuel: CallbackFuel,
    /// Time (in nanoseconds) when the CPU values were synced for the last time.
    pub synced: u64,
    /// Time (in nanoseconds) spent sleeping.
    pub delays: u32,
    /// Time (in nanoseconds) lagging behind desired FPS because of updates.
    pub lags: u32,
    pub pages: u16,
    pub last_one: u32,
}

/// The index after the last non-zero byte, or zero if all are zero.
pub open spec fn last_nonzero_end(data: Seq<u8>) -> int
    decreases data.len(),
{
    if data.len() == 0 {
        0
    } else if data.last() != 0 {
        data.len() as int
    } else {
        last_nonzero_end(data.drop_last())
    }
}

impl StatsTracker {
    pub fn new(now: u64) -> (res: Self)
        ensures
            res.frame == 0,
            res.synced == now,
            res.delays == 0,
            res.lags == 0,
            res.pages == 0,
            res.last_one == 0,
            res.update_fuel == CallbackFuel::empty(),
            res.render_fuel == CallbackFuel::empty(),
    {
        StatsTracker {
            frame: 0,
            update_fuel: CallbackFuel::new(),
            render_fuel: CallbackFuel::new(),
            synced: now,
            delays: 0,
            lags: 0,
            pages: 0,
            last_one: 0,
        }
    }

    /// Look at the app memory: note the number of 64 KB pages and, once in
    /// [`FREQ`] frames, where the used part ends (the last non-zero byte).
    pub fn analyze_memory(&mut self, data: &[u8])
        requires
            data@.len() <= u32::MAX,
        ensures
            final(self).pages == ((data@.len() / 65536) as u16),
            final(self).last_one == (if old(self).frame % FREQ == 10 && last_nonzero_end(data@) > 0 {
                last_nonzero_end(data@) as u32
            } else {
                old(self).last_one
            }),
            final(self).frame == old(self).frame,
            final(self).synced == old(self).synced,
            final(self).delays == old(self).delays,
            final(self).lags == old(self).lags,
            final(self).update_fuel == old(self).update_fuel,
            final(self).render_fuel == old(self).render_fuel,
    {
        let pages = data.len() / 65536;
        self.pages = pages as u16;
        if self.frame % FREQ != 10 {
            return;
        }
        let mut i: usize = data.len();
        assert(data@.subrange(0, i as int) =~= data@);
        while i > 0
            invariant
                i <= data@.len(),
                data@.len() <= u32::MAX,
                last_nonzero_end(data@) == last_nonzero_end(data@.subrange(0, i as int)),
                self.pages == ((data@.len() / 65536) as u16),
                self.frame == old(self).frame,
                self.frame % FREQ == 10,
                self.last_one == old(self).last_one,
                self.synced == old(self).synced,
                self.delays == old(self).delays,
                self.lags == old(self).lags,
                self.update_fuel == old(self).update_fuel,
                self.render_fuel == old(self).render_fuel,
            decreases i,
        {
            assert(data@.subrange(0, i as int).drop_last() =~= data@.subrange(0, i - 1));
            assert(data@.subrange(0, i as int).last() == data@[i - 1]);
            if data[i - 1] != 0 {
                self.last_one = i as u32;
                return;
            }
            i = i - 1;
        }
    }

    /// The CPU stats since the last sync.
    /// The CPU load since the last sync: the time passed (capped at `u32::MAX`),
    /// the time lagging, and the busy time (the time not sleeping plus the lag, capped).
    pub open spec fn cpu_spec(&self, now: u64) -> StatsMessage {
        let total = if elapsed(now, self.synced) > u32::MAX { u32::MAX as int } else { elapsed(now, self.synced) };
        let busy = if total > self.delays { total - self.delays } else { 0 };
        StatsMessage::Cpu {
            busy_ns: (if self.lags + busy > u32::MAX { u32::MAX as int } else { self.lags + busy }) as u32,
            lag_ns: self.lags,
            total_ns: total as u32,
        }
    }

    fn as_cpu(&self, now: u64) -> (res: StatsMessage)
        ensures
            res == self.cpu_spec(now),
    {
        let e = now.saturating_sub(self.synced);
        let total: u32 = if e > u32::MAX as u64 { u32::MAX } else { e as u32 };
        let busy = total.saturating_sub(self.delays);
        StatsMessage::Cpu { busy_ns: self.lags.saturating_add(busy), lag_ns: self.lags, total_ns: total }
    }

    /// Go to the next frame and emit the stats due on it, if any: the CPU stats on
    /// the 3rd frame of each [`FREQ`] frames, the update fuel on the 5th, the render
    /// fuel on the 7th, and the memory on the 12th. Nothing is emitted during the first
    /// [`FREQ`] frames. Emitted stats start counting anew.
    pub fn as_message(&mut self, now: u64) -> (res: Option<StatsMessage>)
        ensures
            final(self).frame == (if old(self).frame == u32::MAX { 0 } else { old(self).frame + 1 }),
            kind_of(res) == stats_due(final(self).frame),
            ({
                let f = final(self).frame;
                if f < FREQ {
                    res is None
                } else if f % FREQ == 3 {
                    &&& res == Some(old(self).cpu_spec(now))
                    &&& final(self).delays == 0
                    &&& final(self).lags == 0
                    &&& final(self).synced == now
                } else if f % FREQ == 5 {
                    res == Some(StatsMessage::Fuel(StatsCallback::Update, old(self).update_fuel.as_fuel_spec()))
                } else if f % FREQ == 7 {
                    res == Some(StatsMessage::Fuel(StatsCallback::Render, old(self).render_fuel.as_fuel_spec()))
                } else if f % FREQ == 12 {
                    res == Some(StatsMessage::Memory { pages: old(self).pages, last_one: old(self).last_one })
                } else {
                    res is None
                }
            }),
            final(self).pages == old(self).pages,
            final(self).last_one == old(self).last_one,
            !(final(self).frame >= FREQ && final(self).frame % FREQ == 3) ==> {
                &&& final(self).delays == old(self).delays
                &&& final(self).lags == old(self).lags
                &&& final(self).synced == old(self).synced
            },
            if final(self).frame >= FREQ && final(self).frame % FREQ == 5 {
                final(self).update_fuel == CallbackFuel::empty()
            } else {
                final(self).update_fuel == old(self).update_fuel
            },
            if final(self).frame >= FREQ && final(self).frame % FREQ == 7 {
                final(self).render_fuel == CallbackFuel::empty()
            } else {
                final(self).render_fuel == old(self).render_fuel
            },
    {
        self.frame = self.frame.wrapping_add(1);
        // Skip the first period, we don't have enough stats yet.
        if self.frame < FREQ {
            return None;
        }
        let m = self.frame % FREQ;
        if m == 3 {
            let cpu = self.as_cpu(now);
            self.delays = 0;
            self.lags = 0;
            self.synced = now;
            Some(cpu)
        } else if m == 5 {
            let fuel = self.update_fuel.as_fuel();
            self.update_fuel.reset();
            Some(StatsMessage::Fuel(StatsCallback::Update, fuel))
        } else if m == 7 {
            let fuel = self.render_fuel.as_fuel();
            self.render_fuel.reset();
            Some(StatsMessage::Fuel(StatsCallback::Render, fuel))
        } else if m == 12 {
            Some(StatsMessage::Memory { pages: self.pages, last_one: self.last_one })
        } else {
            None
        }
    }
}

impl CallbackFuel {
    /// The summary that [`CallbackFuel::as_fuel`] gives.
    pub open spec fn as_fuel_spec(&self) -> FuelSummary {
        if self.count == 0 {
            FuelSummary { min: 0, max: 0, mean: 0, calls: 0 }
        } else {
            FuelSummary {
                min: match self.min {
                    Some(m) => m,
                    None => 0,
                },
                max: self.max,
                mean: (self.sum / self.count) as u32,
                calls: self.count,
            }
        }
    }
}

/// The kinds of stats messages.
#[derive(Debug, Clone, Copy, PartialEq, Eq, Structural)]
pub enum StatsKind {
    Cpu,
    UpdateFuel,
    RenderFuel,
    Memory,
}

/// The kind of a stats message, if there is one.
pub open spec fn kind_of(m: Option<StatsMessage>) -> Option<StatsKind> {
    match m {
        None => None,
        Some(StatsMessage::Cpu { .. }) => Some(StatsKind::Cpu),
        Some(StatsMessage::Fuel(StatsCallback::Update, _)) => Some(StatsKind::UpdateFuel),
        Some(StatsMessage::Fuel(StatsCallback::Render, _)) => Some(StatsKind::RenderFuel),
        Some(StatsMessage::Memory { .. }) => Some(StatsKind::Memory),
    }
}

/// The stats due when the frame counter reaches `f`: none in the first [`FREQ`]
/// frames, then the CPU on the 3rd frame of every [`FREQ`], the update fuel on
/// the 5th, the render fuel on the 7th, and the memory on the 12th.
pub open spec fn stats_due(f: u32) -> Option<StatsKind> {
    if f < FREQ {
        None
    } else if f % FREQ == 3 {
        Some(StatsKind::Cpu)
    } else if f % FREQ == 5 {
        Some(StatsKind::UpdateFuel)
    } else if f % FREQ == 7 {
        Some(StatsKind::RenderFuel)
    } else if f % FREQ == 12 {
        Some(StatsKind::Memory)
    } else {
        None
    }
}

/// The frame counter after `k` calls of `as_message`, each adding one (wrapping).
pub open spec fn frame_after_calls(start: u32, k: nat) -> u32
    decreases k,
{
    if k == 0 {
        start
    } else {
        let f = frame_after_calls(start, (k - 1) as nat);
        if f == u32::MAX { 0 } else { (f + 1) as u32 }
    }
}

/// The stats on the `k`-th call: starting from a new tracker (frame 0), the `k`-th
/// call of `as_message` emits what is due on frame `k` (for `k` up to `u32::MAX`):
/// nothing during the first [`FREQ`] calls, then the four kinds once every [`FREQ`]
/// calls, on the same calls of each period.
pub proof fn law_stats_on_kth_call(k: nat)
    requires
        1 <= k <= u32::MAX,
    ensures
        frame_after_calls(0, k) == k,
        stats_due(frame_after_calls(0, k)) == stats_due(k as u32),
        k >= FREQ && k + FREQ <= u32::MAX ==> stats_due(k as u32) == stats_due((k + FREQ) as u32),
    decreases k,
{
    if k > 1 {
        law_stats_on_kth_call((k - 1) as nat);
    } else {
        assert(frame_after_calls(0, 0) == 0);
    }
    assert(frame_after_calls(0, k) == k);
    if k >= FREQ && k + FREQ <= u32::MAX {
        assert(((k + FREQ) as u32) % FREQ == (k as u32) % FREQ);
    }
}

} // verus!
