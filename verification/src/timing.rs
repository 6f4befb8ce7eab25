//! Wall-clock benchmarking: named timers accumulating elapsed time over
//! repeated start/stop pairs.
use crate::parsers::push_char;
use vstd::prelude::*;

verus! {

#[verifier::external_type_specification]
#[verifier::external_body]
pub struct ExInstant(std::time::Instant);

/// Relies on `Instant::now`: an opaque reading of the monotonic clock.
/// Nothing is assumed of the value.
#[verifier::external_body]
fn instant_now() -> std::time::Instant {
    std::time::Instant::now()
}

/// Relies on `Instant::saturating_duration_since`: the span between two
/// readings, zero when they are out of order, so it cannot panic.
#[verifier::external_body]
fn since(later: &std::time::Instant, earlier: &std::time::Instant) -> std::time::Duration {
    later.saturating_duration_since(*earlier)
}

/// Relies on `Duration::as_micros`: the span in whole microseconds,
/// saturated into 64 bits.
#[verifier::external_body]
fn duration_micros(d: &std::time::Duration) -> u64 {
    let m = d.as_micros();
    if m > u64::MAX as u128 {
        u64::MAX
    } else {
        m as u64
    }
}

/// One named timer: when it last started, how long it has run in total,
/// and how many samples that covers.
pub struct Timing {
    pub start: std::time::Instant,
    pub total_micros: u64,
    pub samples: u64,
}

impl Timing {
    pub fn new(start: std::time::Instant) -> (t: Timing)
        ensures
            t.total_micros == 0,
            t.samples == 0,
    {
        Timing { start, total_micros: 0, samples: 0 }
    }
}

/// A set of named timers.
pub struct BenchMark {
    pub timings: Vec<(String, Timing)>,
}

/// The totals of one timer, ready for reporting.
pub struct TimingResult {
    pub name: String,
    pub total_micros: u64,
    pub mean_micros: u64,
    pub samples: u64,
}

impl BenchMark {
    pub fn new() -> (b: BenchMark)
        ensures
            b.timings.len() == 0,
    {
        BenchMark { timings: Vec::new() }
    }

    /// Start (or restart) the timer under `name`.
    pub fn start(&mut self, name: &str)
        ensures
            final(self).timings.len() >= old(self).timings.len(),
            exists|i: int|
                0 <= i < final(self).timings.len() && (#[trigger] final(self).timings[i]).0@
                    == name@,
    {
        let now = instant_now();
        let n = self.timings.len();
        let mut k: usize = 0;
        while k < n
            invariant
                n == self.timings.len(),
                self.timings.len() >= old(self).timings.len(),
                k <= n,
            decreases n - k,
        {
            if crate::parsers::str_eq(self.timings[k].0.as_str(), name) {
                let total = self.timings[k].1.total_micros;
                let samples = self.timings[k].1.samples;
                let label = crate::parsers::str_to_owned(name);
                self.timings.set(k, (label, Timing { start: now, total_micros: total, samples }));
                proof {
                    assert(self.timings[k as int].0@ == name@);
                }
                return ;
            }
            k = k + 1;
        }
        let label = crate::parsers::str_to_owned(name);
        self.timings.push((label, Timing::new(now)));
        proof {
            assert(self.timings[n as int].0@ == name@);
        }
    }

    /// Stop the timer under `name`, adding the elapsed span to its total.
    /// A name that was never started is left alone.
    pub fn stop(&mut self, name: &str)
        ensures
            final(self).timings.len() == old(self).timings.len(),
    {
        let n = self.timings.len();
        let mut k: usize = 0;
        while k < n
            invariant
                n == self.timings.len(),
                self.timings.len() == old(self).timings.len(),
                k <= n,
            decreases n - k,
        {
            if crate::parsers::str_eq(self.timings[k].0.as_str(), name) {
                let now = instant_now();
                let d = duration_micros(&since(&now, &self.timings[k].1.start));
                let t = &self.timings[k].1;
                let total = if t.total_micros <= u64::MAX - d {
                    t.total_micros + d
                } else {
                    u64::MAX
                };
                let samples = if t.samples < u64::MAX {
                    t.samples + 1
                } else {
                    t.samples
                };
                let start = t.start;
                let label = crate::parsers::str_to_owned(name);
                self.timings.set(k, (label, Timing { start, total_micros: total, samples }));
                return ;
            }
            k = k + 1;
        }
    }

    /// The totals of every timer, reordered so larger totals come first.
    pub fn collect_timing_results(&self) -> (r: Vec<TimingResult>)
        ensures
            r.len() == self.timings.len(),
    {
        let mut r: Vec<TimingResult> = Vec::new();
        let n = self.timings.len();
        let mut k: usize = 0;
        while k < n
            invariant
                n == self.timings.len(),
                k == r.len() <= n,
            decreases n - k,
        {
            let t = &self.timings[k].1;
            let mean = if t.samples == 0 {
                0
            } else {
                t.total_micros / t.samples
            };
            let name = crate::parsers::str_to_owned(self.timings[k].0.as_str());
            r.push(
                TimingResult {
                    name,
                    total_micros: t.total_micros,
                    mean_micros: mean,
                    samples: t.samples,
                },
            );
            k = k + 1;
        }
        // order by total, largest first
        let mut i: usize = 1;
        while i < r.len()
            invariant
                1 <= i,
                i <= r.len() || r.len() <= 1,
                r.len() == self.timings.len(),
            decreases r.len() - i,
        {
            let mut j: usize = i;
            while j > 0
                invariant
                    j <= i < r.len(),
                    r.len() == self.timings.len(),
                decreases j,
            {
                if r[j - 1].total_micros < r[j].total_micros {
                    let a = r.remove(j - 1);
                    r.insert(j, a);
                } else {
                    break ;
                }
                j = j - 1;
            }
            i = i + 1;
        }
        r
    }

    /// The report as text, one line per timer.
    pub fn report(&self) -> (s: String)
    {
        let results = self.collect_timing_results();
        let mut s = String::new();
        let n = results.len();
        let mut k: usize = 0;
        while k < n
            invariant
                n == results.len(),
                k <= n,
            decreases n - k,
        {
            let line = &results[k];
            append_str(&mut s, line.name.as_str());
            append_str(&mut s, " total us: ");
            append_u64(&mut s, line.total_micros);
            append_str(&mut s, " mean us: ");
            append_u64(&mut s, line.mean_micros);
            append_str(&mut s, " samples: ");
            append_u64(&mut s, line.samples);
            push_char(&mut s, '\n');
            k = k + 1;
        }
        s
    }
}

/// Append one string to another.
fn append_str(s: &mut String, t: &str)
    ensures
        final(s)@ == old(s)@ + t@,
{
    s.append(t);
}

/// Append the decimal form of a number.
fn append_u64(s: &mut String, n: u64)
    decreases n,
{
    if n >= 10 {
        append_u64(s, n / 10);
    }
    push_char(s, digit_char((n % 10) as u8));
}

/// The character for one decimal digit.
fn digit_char(d: u8) -> (c: char)
    requires
        d < 10,
{
    if d == 0 {
        '0'
    } else if d == 1 {
        '1'
    } else if d == 2 {
        '2'
    } else if d == 3 {
        '3'
    } else if d == 4 {
        '4'
    } else if d == 5 {
        '5'
    } else if d == 6 {
        '6'
    } else if d == 7 {
        '7'
    } else if d == 8 {
        '8'
    } else {
        '9'
    }
}

} // verus!
