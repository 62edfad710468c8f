//! Baud emulation: a token bucket that holds inbound bytes back to a legacy line speed.

use vstd::prelude::*;

verus! {

/// A line speed that can be emulated, in bits per second; 0 is off.
pub open spec fn valid_rate(r: u32) -> bool {
    r == 0 || r == 300 || r == 600 || r == 1200 || r == 2400 || r == 4800 || r == 9600 || r
        == 19200 || r == 38400
}

pub open spec fn min(a: int, b: int) -> int {
    if a < b {
        a
    } else {
        b
    }
}

/// Credit is counted in thousandths of a byte; a line of `rate` bits per second earns
/// `rate / 8` of them each millisecond, and holds at most one second's worth.
pub open spec fn pace(rate: u32, credit: u64, elapsed_ms: u64, pending: nat) -> (u64, nat) {
    let cap = rate as int * 125;
    let c = min(credit + min(elapsed_ms as int, 1000) * rate / 8, cap);
    let n = min(pending as int, c / 1000);
    ((c - n * 1000) as u64, n as nat)
}

/// Delivers inbound bytes no faster than a legacy line would. It never drops a byte: what
/// may not go now stays pending with the caller.
pub struct BaudPacer {
    rate: u32,
    credit: u64,
}

impl BaudPacer {
    pub closed spec fn rate(&self) -> u32 {
        self.rate
    }

    pub closed spec fn credit(&self) -> u64 {
        self.credit
    }

    pub closed spec fn wf(&self) -> bool {
        valid_rate(self.rate) && self.credit <= self.rate as int * 125
    }

    /// A pacer that is off.
    pub fn new() -> (r: Self)
        ensures
            r.wf(),
            r.rate() == 0,
    {
        BaudPacer { rate: 0, credit: 0 }
    }

    /// Sets the line speed; a speed that is not offered is refused and nothing changes.
    pub fn set_baud_rate(&mut self, rate: u32) -> (r: bool)
        requires
            old(self).wf(),
        ensures
            final(self).wf(),
            r == valid_rate(rate),
            r ==> final(self).rate() == rate && final(self).credit() == 0,
            !r ==> *final(self) == *old(self),
    {
        if rate == 0 || rate == 300 || rate == 600 || rate == 1200 || rate == 2400 || rate == 4800
            || rate == 9600 || rate == 19200 || rate == 38400 {
            self.rate = rate;
            self.credit = 0;
            true
        } else {
            false
        }
    }

    /// How many of `pending` bytes may go to the display now, `elapsed_ms` milliseconds
    /// after the last call. With the pacer off, all of them.
    pub fn release(&mut self, elapsed_ms: u64, pending: usize) -> (r: usize)
        requires
            old(self).wf(),
        ensures
            final(self).wf(),
            final(self).rate() == old(self).rate(),
            r <= pending,
            old(self).rate() == 0 ==> r == pending && final(self).credit() == old(self).credit(),
            old(self).rate() != 0 ==> (final(self).credit(), r as nat) == pace(
                old(self).rate(),
                old(self).credit(),
                elapsed_ms,
                pending as nat,
            ),
    {
        if self.rate == 0 {
            return pending;
        }
        let e: u64 = if elapsed_ms < 1000 { elapsed_ms } else { 1000 };
        proof {
            assert(e * (self.rate as int) <= 1000 * 38400) by (nonlinear_arith)
                requires e <= 1000, self.rate <= 38400;
        }
        let gain: u64 = e * (self.rate as u64) / 8;
        let cap: u64 = self.rate as u64 * 125;
        let mut c: u64 = self.credit + gain;
        if c > cap {
            c = cap;
        }
        let whole: u64 = c / 1000;
        let n: u64 = if (pending as u64) < whole { pending as u64 } else { whole };
        proof {
            assert(n * 1000 <= c) by (nonlinear_arith)
                requires n <= c / 1000;
        }
        self.credit = c - n * 1000;
        n as usize
    }
}

} // verus!
