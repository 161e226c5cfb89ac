//! A counter of ticks per second over a sliding window of samples.

use crate::clock::{elapsed, now, Span};
use crate::phys::{Fixed, LIMIT};
use std::time::Instant;
use vstd::prelude::*;

verus! {

/// Measures how often something happens, and how long it takes each time,
/// over the last `N` times.
///
/// Sums of spans that would not fit saturate.
#[derive(Debug)]
pub struct Counter<const N: usize> {
    last: Instant,
    accumulated: u128,
    samples: Vec<u128>,
    inner_accumulated: u128,
    inner_samples: Vec<u128>,
    index: usize,
}

/// `total` with the sample `leaving` taken out and the sample `entering` put
/// in, neither below zero nor above what fits.
pub open spec fn replaced(total: nat, leaving: nat, entering: nat) -> nat {
    let rest = if total >= leaving {
        total - leaving
    } else {
        0
    };
    if rest + entering > u128::MAX {
        u128::MAX as nat
    } else {
        (rest + entering) as nat
    }
}

/// Replaces one sample in a running total.
fn replace(total: u128, leaving: u128, entering: u128) -> (r: u128)
    ensures
        r == replaced(total as nat, leaving as nat, entering as nat),
{
    let rest: u128 = if total >= leaving {
        total - leaving
    } else {
        0
    };
    if rest > u128::MAX - entering {
        u128::MAX
    } else {
        rest + entering
    }
}

/// A vector that holds `value` `n` times.
fn filled(value: u128, n: usize) -> (r: Vec<u128>)
    ensures
        r@ == Seq::new(n as nat, |i: int| value),
{
    let mut v: Vec<u128> = Vec::new();
    let mut i: usize = 0;
    while i < n
        invariant
            i <= n,
            v@ == Seq::new(i as nat, |k: int| value),
        decreases n - i,
    {
        v.push(value);
        i += 1;
        assert(v@ =~= Seq::new(i as nat, |k: int| value));
    }
    v
}

impl<const N: usize> Counter<N> {
    /// The sum of the time between ticks over the window, in nanoseconds.
    pub closed spec fn total(&self) -> nat {
        self.accumulated as nat
    }

    /// The time between ticks for each place of the window, in nanoseconds.
    pub closed spec fn window(&self) -> Seq<nat> {
        self.samples@.map_values(|s: u128| s as nat)
    }

    /// The sum of the measured durations over the window, in nanoseconds.
    pub closed spec fn inner_total(&self) -> nat {
        self.inner_accumulated as nat
    }

    /// The measured duration for each place of the window, in nanoseconds.
    pub closed spec fn inner_window(&self) -> Seq<nat> {
        self.inner_samples@.map_values(|s: u128| s as nat)
    }

    /// The place of the window that the next tick overwrites.
    pub closed spec fn cursor(&self) -> nat {
        self.index as nat
    }

    /// The moment from which the next tick counts.
    pub closed spec fn started(&self) -> Instant {
        self.last
    }

    /// The invariant of the counter: both windows have `N` places, and the
    /// cursor points at one of them.
    pub open spec fn wf(&self) -> bool {
        &&& self.window().len() == N
        &&& self.inner_window().len() == N
        &&& self.cursor() < N
    }

    /// Whether `post` is this counter one tick later, where the tick came
    /// `sample` after the one before it and what was measured took
    /// `inner_sample`.
    pub open spec fn ticked(&self, inner_sample: Span, sample: Span, post: Self) -> bool {
        let at = self.cursor() as int;
        &&& post.inner_window() == self.inner_window().update(at, inner_sample.0 as nat)
        &&& post.inner_total() == replaced(
            self.inner_total(),
            self.inner_window()[at],
            inner_sample.0 as nat,
        )
        &&& post.window() == self.window().update(at, sample.0 as nat)
        &&& post.total() == replaced(self.total(), self.window()[at], sample.0 as nat)
        &&& post.cursor() == (self.cursor() + 1) % (N as nat)
    }

    /// Whether `post` is this counter with the same samples, but with the next
    /// tick counting from `moment`.
    pub open spec fn restarted(&self, moment: Instant, post: Self) -> bool {
        &&& post.started() == moment
        &&& post.total() == self.total()
        &&& post.window() == self.window()
        &&& post.inner_total() == self.inner_total()
        &&& post.inner_window() == self.inner_window()
        &&& post.cursor() == self.cursor()
    }

    /// A counter that starts out as if it had run at `baseline` ticks per
    /// second all along.
    pub fn new(baseline: u32) -> (r: Self)
        requires
            N > 0,
            baseline > 0,
        ensures
            r.wf(),
            r.total() == N * 1_000_000_000 / (baseline as int),
            r.inner_total() == r.total(),
            r.window() == Seq::new(N as nat, |i: int| r.total() / (N as nat)),
            r.inner_window() == r.window(),
            r.cursor() == 0,
    {
        let accumulated: u128 = (N as u128) * 1_000_000_000 / (baseline as u128);
        let sample: u128 = accumulated / (N as u128);
        let r = Counter {
            last: now(),
            accumulated,
            samples: filled(sample, N),
            inner_accumulated: accumulated,
            inner_samples: filled(sample, N),
            index: 0,
        };
        assert(r.window() =~= Seq::new(N as nat, |i: int| r.total() / (N as nat)));
        assert(r.inner_window() =~= r.window());
        r
    }

    /// Forgets when the last tick was: the next tick counts from now.
    pub fn reset_start(&mut self)
        ensures
            final(self).total() == old(self).total(),
            final(self).window() == old(self).window(),
            final(self).inner_total() == old(self).inner_total(),
            final(self).inner_window() == old(self).inner_window(),
            final(self).cursor() == old(self).cursor(),
    {
        self.restart_at(now());
    }

    /// Lets the next tick count from `moment` and keeps the samples.
    pub fn restart_at(&mut self, moment: Instant)
        ensures
            old(self).restarted(moment, *final(self)),
    {
        self.last = moment;
    }

    /// Enters one tick that came `sample` after the one before it. The moment
    /// from which the next tick counts stays.
    pub fn advance(&mut self, inner_sample: Span, sample: Span)
        requires
            old(self).wf(),
        ensures
            final(self).wf(),
            old(self).ticked(inner_sample, sample, *final(self)),
            final(self).started() == old(self).started(),
    {
        let inner: u128 = inner_sample.as_nanos();
        let outer: u128 = sample.as_nanos();
        let at = self.index;
        assert(self.samples@.len() == self.window().len());
        assert(self.inner_samples@.len() == self.inner_window().len());
        self.inner_accumulated = replace(self.inner_accumulated, self.inner_samples[at], inner);
        self.inner_samples[at] = inner;
        self.accumulated = replace(self.accumulated, self.samples[at], outer);
        self.samples[at] = outer;
        self.index = (at + 1) % N;
        proof {
            assert(self.inner_window() =~= old(self).inner_window().update(
                at as int,
                inner_sample.0 as nat,
            ));
            assert(self.window() =~= old(self).window().update(at as int, sample.0 as nat));
        }
    }

    /// Enters one tick that comes now. What was measured took `inner_sample`.
    pub fn tick(&mut self, inner_sample: Span)
        requires
            old(self).wf(),
        ensures
            final(self).wf(),
            exists|sample: Span| #[trigger]
                old(self).ticked(inner_sample, sample, *final(self)),
    {
        let fresh = now();
        let sample = elapsed(&self.last);
        self.last = fresh;
        let ghost before = *self;
        self.advance(inner_sample, sample);
        proof {
            assert(before.total() == old(self).total());
            assert(before.window() == old(self).window());
            assert(old(self).ticked(inner_sample, sample, *self));
        }
    }

    /// Runs `f`, measures how long it takes, and enters one tick.
    pub fn record<R, F: FnOnce() -> R>(&mut self, f: F) -> (result: R)
        requires
            old(self).wf(),
            f.requires(()),
        ensures
            final(self).wf(),
            f.ensures((), result),
            exists|inner_sample: Span, sample: Span| #[trigger]
                old(self).ticked(inner_sample, sample, *final(self)),
    {
        let start = now();
        let result = f();
        self.tick(elapsed(&start));
        result
    }

    /// The rate of ticks over the window, in thousandths of a tick per second.
    pub open spec fn rate(&self) -> Fixed {
        if self.total() == 0 || (N as nat) * 1_000_000_000_000 / self.total() > LIMIT {
            LIMIT
        } else {
            ((N as nat) * 1_000_000_000_000 / self.total()) as i64
        }
    }

    /// The rate of ticks over the window, as a fixed-point number of ticks per
    /// second.
    pub fn per_second(&self) -> (r: Fixed)
        ensures
            r == self.rate(),
    {
        if self.accumulated == 0 {
            return LIMIT;
        }
        let scaled: u128 = (N as u128) * 1_000_000_000_000;
        let q: u128 = scaled / self.accumulated;
        if q > LIMIT as u128 {
            LIMIT
        } else {
            q as i64
        }
    }

    /// The mean of the measured durations over the window.
    pub fn inner_duration(&self) -> (r: Span)
        requires
            self.wf(),
        ensures
            r.0 == self.inner_total() / (N as nat),
    {
        Span::from_nanos(self.inner_accumulated / (N as u128))
    }
}

} // verus!
