//! The divider and the programmable timer.

use crate::bits::lemma_low_bits;
use vstd::prelude::*;

verus! {

/// `a + b` within thirty-two bits.
pub open spec fn wrap_add32(a: u32, b: u32) -> u32 {
    if a + b > u32::MAX {
        (a + b - 0x1_0000_0000) as u32
    } else {
        (a + b) as u32
    }
}

/// How many cycles one tick of the timer takes, by the two rate bits of the
/// control register.
pub open spec fn timer_period(tac: u8) -> u32 {
    if tac % 4 == 0 {
        1024
    } else if tac % 4 == 1 {
        16
    } else if tac % 4 == 2 {
        64
    } else {
        256
    }
}

/// Whether the control register has the timer running.
pub open spec fn timer_enabled(tac: u8) -> bool {
    tac & 0x04 != 0
}

/// The register block after one tick of the timer: the counter goes up by
/// one, or, from 0xFF, is reloaded from the modulo register with the timer
/// interrupt requested.
pub open spec fn io_after_tick(io: Seq<u8>) -> Seq<u8> {
    if io[0x05] == 0xff {
        io.update(0x05, io[0x06]).update(0x0f, io[0x0f] | 0x04)
    } else {
        io.update(0x05, (io[0x05] + 1) as u8)
    }
}

/// The register block after `n` ticks of the timer.
pub open spec fn ticked(io: Seq<u8>, n: nat) -> Seq<u8>
    decreases n,
{
    if n == 0 {
        io
    } else {
        io_after_tick(ticked(io, (n - 1) as nat))
    }
}

/// The two cycle accumulators of the timer: the cycles seen since the
/// divider last went up, and those seen since the counter last ticked.
pub struct TimerView {
    pub div_counter: u32,
    pub tima_counter: u32,
}

impl TimerView {
    /// How many times the divider goes up in `cycles` more cycles: once for
    /// each whole period of 256 that the accumulated cycles complete.
    pub open spec fn div_periods(self, cycles: u32) -> int {
        (self.div_counter + cycles) / 256
    }

    /// The divider accumulator after `cycles` more cycles: what is left of
    /// them after the whole periods.
    pub open spec fn div_after(self, cycles: u32) -> u32 {
        ((self.div_counter + cycles) % 256) as u32
    }

    /// The register block after the divider has seen `cycles` more cycles:
    /// the divider register has gone up by the periods completed, wrapping.
    pub open spec fn io_after_div(self, io: Seq<u8>, cycles: u32) -> Seq<u8> {
        io.update(0x04, ((io[0x04] + self.div_periods(cycles)) % 256) as u8)
    }

    /// How many times the running timer ticks in `cycles` more cycles: once
    /// for each whole period, at the rate that `tac` selects, that the
    /// accumulated cycles complete.
    pub open spec fn tima_ticks(self, tac: u8, cycles: u32) -> int {
        if timer_enabled(tac) {
            (self.tima_counter + cycles) / (timer_period(tac) as int)
        } else {
            0
        }
    }

    /// The timer accumulator after `cycles` more cycles; it stands still
    /// while the timer is stopped.
    pub open spec fn tima_after(self, tac: u8, cycles: u32) -> u32 {
        if timer_enabled(tac) {
            ((self.tima_counter + cycles) % (timer_period(tac) as int)) as u32
        } else {
            self.tima_counter
        }
    }

    pub open spec fn step(self, io: Seq<u8>, cycles: u32) -> (TimerView, Seq<u8>) {
        let io1 = self.io_after_div(io, cycles);
        (
            TimerView {
                div_counter: self.div_after(cycles),
                tima_counter: self.tima_after(io[0x07], cycles),
            },
            ticked(io1, self.tima_ticks(io[0x07], cycles) as nat),
        )
    }
}

/// The divider, which counts up every 256 cycles, and the timer, which
/// counts at one of four rates while it is enabled.
pub struct Timer {
    div_counter: u32,
    tima_counter: u32,
}

impl View for Timer {
    type V = TimerView;

    closed spec fn view(&self) -> TimerView {
        TimerView { div_counter: self.div_counter, tima_counter: self.tima_counter }
    }
}

impl Timer {
    pub fn new() -> (r: Self)
        ensures
            r@ == (TimerView { div_counter: 0, tima_counter: 0 }),
    {
        Timer { div_counter: 0, tima_counter: 0 }
    }

    pub fn reset(&mut self)
        ensures
            final(self)@ == (TimerView { div_counter: 0, tima_counter: 0 }),
    {
        self.div_counter = 0;
        self.tima_counter = 0;
    }

    /// Advances both counters by `cycles` on the register block `io`.
    pub fn step(&mut self, cycles: u32, io: &mut [u8])
        requires
            old(io)@.len() >= 0x10,
        ensures
            final(self)@ == old(self)@.step(old(io)@, cycles).0,
            final(io)@ == old(self)@.step(old(io)@, cycles).1,
            final(io)@.len() == old(io)@.len(),
    {
        let total: u64 = self.div_counter as u64 + cycles as u64;
        self.div_counter = (total % 256) as u32;
        io[0x04] = ((io[0x04] as u64 + total / 256) % 256) as u8;
        let tac = io[0x07];
        if tac & 0x04 != 0 {
            proof {
                lemma_low_bits(tac);
            }
            let rate = tac & 0x03;
            let frequency: u64 = if rate == 0 {
                1024
            } else if rate == 1 {
                16
            } else if rate == 2 {
                64
            } else {
                256
            };
            let total: u64 = self.tima_counter as u64 + cycles as u64;
            self.tima_counter = (total % frequency) as u32;
            let ticks = total / frequency;
            let ghost start = io@;
            let mut done: u64 = 0;
            while done < ticks
                invariant
                    done <= ticks,
                    start.len() >= 0x10,
                    io@.len() == start.len(),
                    io@ == ticked(start, done as nat),
                decreases ticks - done,
            {
                let tima = io[0x05];
                if tima == 0xff {
                    let tma = io[0x06];
                    io[0x05] = tma;
                    let pending = io[0x0f];
                    io[0x0f] = pending | 0x04;
                } else {
                    io[0x05] = tima + 1;
                }
                done += 1;
            }
        }
    }
}

/// Ticks of the timer write nothing but the counter and the interrupt
/// request register.
pub proof fn lemma_ticks_touch(io: Seq<u8>, n: nat, k: int)
    requires
        io.len() >= 0x10,
        0 <= k < io.len(),
        k != 0x05,
        k != 0x0f,
    ensures
        ticked(io, n).len() == io.len(),
        ticked(io, n)[k] == io[k],
    decreases n,
{
    if n > 0 {
        lemma_ticks_touch(io, (n - 1) as nat, k);
    }
}

/// A step of the timer writes nothing but the divider, the counter and the
/// interrupt request register.
pub proof fn lemma_timer_touches(t: TimerView, io: Seq<u8>, cycles: u32, k: int)
    requires
        io.len() >= 0x10,
        0 <= k < io.len(),
        k != 0x04,
        k != 0x05,
        k != 0x0f,
    ensures
        t.step(io, cycles).1.len() == io.len(),
        t.step(io, cycles).1[k] == io[k],
{
    lemma_ticks_touch(t.io_after_div(io, cycles), t.tima_ticks(io[0x07], cycles) as nat, k);
}

/// Whole periods of 256 add up: counting them in two parts, with the
/// remainder of the first carried into the second, gives those of the sum.
proof fn lemma_periods_add(a: int, c: int, x: int)
    requires
        0 <= a,
        0 <= c,
        0 <= x,
    ensures
        (a % 256 + c) / 256 + a / 256 == (a + c) / 256,
        (a % 256 + c) % 256 == (a + c) % 256,
        ((x + a / 256) % 256 + (a % 256 + c) / 256) % 256 == (x + (a + c) / 256) % 256,
{
}

/// The divider goes up once for every 256 cycles, however the cycles are
/// handed in: two steps leave the divider register and the accumulator
/// where one step of the cycles of both leaves them.
pub proof fn lemma_divider_accumulates(t: TimerView, io: Seq<u8>, first: u32, second: u32)
    requires
        io.len() >= 0x10,
        first + second <= u32::MAX,
    ensures
        t.step(io, first).0.step(t.step(io, first).1, second).0.div_counter == t.step(
            io,
            (first + second) as u32,
        ).0.div_counter,
        t.step(io, first).0.step(t.step(io, first).1, second).1[0x04] == t.step(
            io,
            (first + second) as u32,
        ).1[0x04],
        t.step(io, first).0.div_counter < 256,
        t.div_counter == 0 ==> t.step(io, first).1[0x04] == (io[0x04] + first / 256) % 256,
{
    let one = t.step(io, first);
    let two = one.0.step(one.1, second);
    let both = t.step(io, (first + second) as u32);
    lemma_ticks_touch(t.io_after_div(io, first), t.tima_ticks(io[0x07], first) as nat, 0x04);
    lemma_ticks_touch(
        one.0.io_after_div(one.1, second),
        one.0.tima_ticks(one.1[0x07], second) as nat,
        0x04,
    );
    lemma_ticks_touch(
        t.io_after_div(io, (first + second) as u32),
        t.tima_ticks(io[0x07], (first + second) as u32) as nat,
        0x04,
    );
    let a = t.div_counter + first;
    lemma_periods_add(a, second as int, io[0x04] as int);
    assert(one.0.div_counter == a % 256);
    assert(one.1[0x04] == (io[0x04] + a / 256) % 256);
    assert(two.0.div_counter == (a % 256 + second) % 256);
    assert(two.1[0x04] == (one.1[0x04] + (a % 256 + second) / 256) % 256);
    assert(both.0.div_counter == (a + second) % 256);
    assert(both.1[0x04] == (io[0x04] + (a + second) / 256) % 256);
}

} // verus!
