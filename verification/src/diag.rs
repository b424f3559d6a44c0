//! Input diagnostics: the counts of one stroke, the rolling numbers of the
//! overlay, and what the pen device says about itself. Pressures and times are
//! carried as the bit patterns of the shell's floats.

use vstd::prelude::*;
use crate::floats;
use crate::modes::Tool;

verus! {

/// Half a second, as the bit pattern of a 32-bit float.
pub const HALF_SECOND: u32 = 0x3f00_0000;

/// Two seconds in milliseconds, as the bit pattern of a 64-bit float.
pub const TWO_SECONDS: u64 = 0x409f_4000_0000_0000;

/// The lesser of two numbers; what is no number does not count.
pub open spec fn lesser(a: u32, p: u32) -> u32 {
    if floats::nan(a) || floats::below(p, a) {
        p
    } else {
        a
    }
}

/// The greater of two numbers; what is no number does not count.
pub open spec fn greater(a: u32, p: u32) -> u32 {
    if floats::nan(a) || floats::below(a, p) {
        p
    } else {
        a
    }
}

/// The counts of one stroke.
#[derive(Debug)]
pub struct StrokeStats {
    /// What drew it.
    pub kind: &'static str,
    pub samples: u32,
    /// The least pressure; above all numbers before the first sample.
    pub min_pressure: u32,
    /// The greatest pressure; below all numbers before the first sample.
    pub max_pressure: u32,
    pub batches: u32,
    pub batch_total: u32,
    pub batch_max: u32,
    /// The client pixel where the stroke started.
    pub at: (i32, i32),
    /// The session's dropped reports when it started: with no sample at all, it
    /// tells input that never came from input that was filtered out.
    pub dropped_at_start: u64,
}

impl StrokeStats {
    /// A stroke that starts.
    pub fn new(kind: &'static str, at: (i32, i32), dropped_at_start: u64) -> (r: StrokeStats)
        ensures
            r == (StrokeStats {
                kind,
                samples: 0,
                min_pressure: floats::INFINITE,
                max_pressure: floats::BELOW_ALL,
                batches: 0,
                batch_total: 0,
                batch_max: 0,
                at,
                dropped_at_start,
            }),
    {
        StrokeStats {
            kind,
            samples: 0,
            min_pressure: floats::INFINITE,
            max_pressure: floats::BELOW_ALL,
            batches: 0,
            batch_total: 0,
            batch_max: 0,
            at,
            dropped_at_start,
        }
    }

    /// What a batch of samples makes of the counts.
    pub open spec fn batched(self, after: StrokeStats, n: u32) -> bool {
        &&& after == (StrokeStats {
            batches: (self.batches + 1) as u32,
            batch_total: (self.batch_total + n) as u32,
            batch_max: if self.batch_max < n {
                n
            } else {
                self.batch_max
            },
            ..self
        })
    }

    /// Counts a batch of `n` samples.
    pub fn note_batch(&mut self, n: u32)
        requires
            old(self).batches < u32::MAX,
            old(self).batch_total + n <= u32::MAX,
        ensures
            old(self).batched(*final(self), n),
    {
        self.batches = self.batches + 1;
        self.batch_total = self.batch_total + n;
        if self.batch_max < n {
            self.batch_max = n;
        }
    }

    /// What a sample makes of the counts.
    pub open spec fn sampled(self, after: StrokeStats, p: u32) -> bool {
        &&& after == (StrokeStats {
            samples: (self.samples + 1) as u32,
            min_pressure: lesser(self.min_pressure, p),
            max_pressure: greater(self.max_pressure, p),
            ..self
        })
    }

    /// Counts a sample of this pressure.
    pub fn note_sample(&mut self, p: u32)
        requires
            old(self).samples < u32::MAX,
        ensures
            old(self).sampled(*final(self), p),
    {
        self.samples = self.samples + 1;
        if floats::is_nan(self.min_pressure) || floats::is_below(p, self.min_pressure) {
            self.min_pressure = p;
        }
        if floats::is_nan(self.max_pressure) || floats::is_below(self.max_pressure, p) {
            self.max_pressure = p;
        }
    }

    /// The least and the greatest pressure for the stroke's report line, zero
    /// where that is no finite number, as before the first sample.
    pub fn pressures(&self) -> (r: (u32, u32))
        ensures
            r.0 == (if floats::finite(self.min_pressure) { self.min_pressure } else { 0 }),
            r.1 == (if floats::finite(self.max_pressure) { self.max_pressure } else { 0 }),
    {
        (
            if floats::is_finite(self.min_pressure) { self.min_pressure } else { 0 },
            if floats::is_finite(self.max_pressure) { self.max_pressure } else { 0 },
        )
    }
}

/// The newest sample of a batch.
#[derive(Clone, Copy, PartialEq, Eq, Structural, Debug)]
pub struct Newest {
    pub pressure: u32,
    /// Its time in milliseconds, as the bit pattern of a 64-bit float.
    pub t_ms: u64,
}

/// The rolling numbers of the diagnostics overlay.
#[derive(Debug)]
pub struct Diag {
    /// The events and the seconds of the last full window: their quotient is the
    /// rate that is shown.
    pub rate: Option<(u32, u32)>,
    /// The events of the window that runs.
    pub events: u32,
    pub last_pressure: u32,
    pub pointer: &'static str,
    pub last_batch: usize,
    pub max_batch: usize,
    pub batches: u32,
    pub batch_total: u64,
    pub frame_ms: u32,
    pub frames: u64,
    /// How old the newest sample was when it was shown, as the bit pattern of a
    /// 64-bit float; none where the clocks do not agree.
    pub latency_ms: Option<u64>,
    pub latency_max_ms: u64,
    /// The time of the newest sample since the last frame, zero before the
    /// first.
    pub last_sample_t_ms: u64,
}

impl Default for Diag {
    /// Nothing seen yet.
    fn default() -> (r: Diag)
        ensures
            r == (Diag {
                rate: None,
                events: 0,
                last_pressure: 0,
                pointer: "-",
                last_batch: 0,
                max_batch: 0,
                batches: 0,
                batch_total: 0,
                frame_ms: 0,
                frames: 0,
                latency_ms: None,
                latency_max_ms: 0,
                last_sample_t_ms: 0,
            }),
    {
        Diag {
            rate: None,
            events: 0,
            last_pressure: 0,
            pointer: "-",
            last_batch: 0,
            max_batch: 0,
            batches: 0,
            batch_total: 0,
            frame_ms: 0,
            frames: 0,
            latency_ms: None,
            latency_max_ms: 0,
            last_sample_t_ms: 0,
        }
    }
}

impl Diag {
    /// What a batch makes of the readings.
    pub open spec fn batch_noted(self, after: Diag, full: bool, pointer: &'static str, n: u32, newest: Option<Newest>, elapsed: u32) -> bool {
        &&& full == (elapsed >= HALF_SECOND)
        &&& after == (Diag {
            pointer,
            last_batch: n as usize,
            max_batch: if self.max_batch < n as usize {
                n as usize
            } else {
                self.max_batch
            },
            batches: (self.batches + 1) as u32,
            batch_total: (self.batch_total + n) as u64,
            last_pressure: match newest {
                Some(s) => s.pressure,
                None => self.last_pressure,
            },
            last_sample_t_ms: match newest {
                Some(s) => s.t_ms,
                None => self.last_sample_t_ms,
            },
            events: if full {
                0
            } else {
                (self.events + n) as u32
            },
            rate: if full {
                Some(((self.events + n) as u32, elapsed))
            } else {
                self.rate
            },
            ..self
        })
    }

    /// Counts a batch of `n` samples; `elapsed` is the age of the running window
    /// in seconds. Says whether the window is full, so that the next one begins.
    pub fn note_batch(&mut self, pointer: &'static str, n: u32, newest: Option<Newest>, elapsed: u32) -> (full: bool)
        requires
            old(self).batches < u32::MAX,
            old(self).batch_total + n <= u64::MAX,
            old(self).events + n <= u32::MAX,
        ensures
            old(self).batch_noted(*final(self), full, pointer, n, newest, elapsed),
    {
        self.pointer = pointer;
        self.last_batch = n as usize;
        if self.max_batch < n as usize {
            self.max_batch = n as usize;
        }
        self.batches = self.batches + 1;
        self.batch_total = self.batch_total + n as u64;
        self.events = self.events + n;
        if let Some(s) = newest {
            self.last_pressure = s.pressure;
            self.last_sample_t_ms = s.t_ms;
        }
        if elapsed >= HALF_SECOND {
            self.rate = Some((self.events, elapsed));
            self.events = 0;
            return true;
        }
        false
    }

    /// What a frame makes of the readings.
    pub open spec fn frame_noted(self, after: Diag, frame_ms: u32, age: u64) -> bool {
        &&& after == (Diag {
            frame_ms,
            frames: (self.frames + 1) as u64,
            latency_ms: if floats::below_64(0, self.last_sample_t_ms) {
                believed(age)
            } else {
                self.latency_ms
            },
            latency_max_ms: if floats::below_64(0, self.last_sample_t_ms) && believed(age) is Some
                && floats::below_64(self.latency_max_ms, age) {
                age
            } else {
                self.latency_max_ms
            },
            ..self
        })
    }

    /// Counts a frame; `age` is how old the newest sample is by the system's
    /// clock, where there is one. Only an age from zero to under two seconds is
    /// believed.
    pub fn note_frame(&mut self, frame_ms: u32, age: u64)
        requires
            old(self).frames < u64::MAX,
        ensures
            old(self).frame_noted(*final(self), frame_ms, age),
    {
        self.frame_ms = frame_ms;
        self.frames = self.frames + 1;
        if floats::is_below_64(0, self.last_sample_t_ms) {
            if floats::is_below_64(age, TWO_SECONDS) && !floats::is_below_64(age, 0) {
                self.latency_ms = Some(age);
                if floats::is_below_64(self.latency_max_ms, age) {
                    self.latency_max_ms = age;
                }
            } else {
                self.latency_ms = None;
            }
        }
    }
}

/// An age that a clock can be believed on.
pub open spec fn believed(age: u64) -> Option<u64> {
    if floats::below_64(age, TWO_SECONDS) && !floats::below_64(age, 0) {
        Some(age)
    } else {
        None
    }
}

/// What the pen device says about itself.
#[derive(Debug)]
pub struct PenHealth {
    /// A pen batch with real content has been seen.
    pub seen: bool,
    /// The newest report carried a pressure; without it every pressure of the
    /// stream is a stand-in.
    pub pressure_reported: bool,
    pub tilt_reported: bool,
    /// The stylus is tail-end down.
    pub inverted: bool,
    /// The reports that the in-contact filter dropped this session.
    pub dropped: u64,
    /// The same count before the newest report.
    pub dropped_at_last_report: u64,
    /// The tool to go back to when the stylus is tip-down again.
    pub tool_before_tail: Option<Tool>,
}

impl Default for PenHealth {
    /// No pen seen yet.
    fn default() -> (r: PenHealth)
        ensures
            r == (PenHealth {
                seen: false,
                pressure_reported: false,
                tilt_reported: false,
                inverted: false,
                dropped: 0,
                dropped_at_last_report: 0,
                tool_before_tail: None,
            }),
    {
        PenHealth {
            seen: false,
            pressure_reported: false,
            tilt_reported: false,
            inverted: false,
            dropped: 0,
            dropped_at_last_report: 0,
            tool_before_tail: None,
        }
    }
}

/// A sample's pressure lies between the least and the greatest of its stroke,
/// these never move towards each other, and what is no number changes nothing.
pub proof fn law_pressures_stay_in_order(lo: u32, hi: u32, p: u32)
    requires
        !floats::nan(lo) && !floats::nan(hi),
    ensures
        !floats::nan(p) ==> !floats::below(p, lesser(lo, p)) && !floats::below(greater(hi, p), p),
        floats::nan(p) ==> lesser(lo, p) == lo && greater(hi, p) == hi,
        !floats::below(lo, lesser(lo, p)) && !floats::below(greater(hi, p), hi),
        !floats::nan(lesser(lo, p)) && !floats::nan(greater(hi, p)),
{
}

/// An age is believed from zero up to two seconds, and not beyond.
pub proof fn law_an_age_is_believed_for_two_seconds(age: u64)
    ensures
        age < 0x409f_4000_0000_0000 ==> believed(age) == Some(age),
        age >= 0x409f_4000_0000_0000 && age != 0x8000_0000_0000_0000 ==> believed(age) is None,
{
}

/// The lesser and the greater of two pressures are the one and the other of
/// them.
pub proof fn law_a_pressure_takes_one_side(a: u32, p: u32)
    requires
        !floats::nan(a),
    ensures
        floats::below(p, a) ==> lesser(a, p) == p && greater(a, p) == a,
        floats::below(a, p) ==> lesser(a, p) == a && greater(a, p) == p,
        lesser(a, p) == a || lesser(a, p) == p,
        greater(a, p) == a || greater(a, p) == p,
{
}

/// A batch counts itself, its samples, and whether it is the greatest so far.
pub proof fn law_a_batch_is_counted(was: StrokeStats, now: StrokeStats, n: u32)
    requires
        was.batched(now, n),
        was.batches < u32::MAX,
        was.batch_total + n <= u32::MAX,
    ensures
        now.batches == was.batches + 1,
        now.batch_total == was.batch_total + n,
        now.batch_max >= n && now.batch_max >= was.batch_max,
        now.batch_max == n || now.batch_max == was.batch_max,
        now.samples == was.samples,
        now.kind == was.kind && now.at == was.at,
{
}

/// A sample counts once and widens the pressures where it lies outside them.
pub proof fn law_a_sample_is_counted(was: StrokeStats, now: StrokeStats, p: u32)
    requires
        was.sampled(now, p),
        was.samples < u32::MAX,
        !floats::nan(was.min_pressure) && !floats::nan(was.max_pressure),
    ensures
        now.samples == was.samples + 1,
        floats::below(p, was.min_pressure) ==> now.min_pressure == p,
        floats::at_most(was.min_pressure, p) ==> now.min_pressure == was.min_pressure,
        floats::below(was.max_pressure, p) ==> now.max_pressure == p,
        floats::at_most(p, was.max_pressure) ==> now.max_pressure == was.max_pressure,
        now.batches == was.batches && now.batch_total == was.batch_total,
{
}

/// A batch shows itself, and half a second closes the window: the rate is then
/// that of the events since, and the count starts over.
pub proof fn law_half_a_second_closes_the_window(
    was: Diag,
    now: Diag,
    full: bool,
    pointer: &'static str,
    n: u32,
    newest: Option<Newest>,
    elapsed: u32,
)
    requires
        was.batch_noted(now, full, pointer, n, newest, elapsed),
        was.batches < u32::MAX,
        was.batch_total + n <= u64::MAX,
        was.events + n <= u32::MAX,
    ensures
        full == (elapsed >= 0x3f00_0000),
        now.pointer == pointer && now.last_batch == n,
        now.max_batch >= n && now.max_batch >= was.max_batch,
        now.max_batch == n || now.max_batch == was.max_batch,
        now.batches == was.batches + 1 && now.batch_total == was.batch_total + n,
        full ==> now.events == 0 && now.rate == Some(((was.events + n) as u32, elapsed)),
        !full ==> now.events == was.events + n && now.rate == was.rate,
        newest matches Some(s) ==> now.last_pressure == s.pressure && now.last_sample_t_ms == s.t_ms,
        newest is None ==> now.last_pressure == was.last_pressure && now.last_sample_t_ms == was.last_sample_t_ms,
        now.frames == was.frames && now.latency_ms == was.latency_ms,
{
}

/// A frame counts once. It shows the age of the newest sample where there was
/// one, and keeps the greatest age that could be believed.
pub proof fn law_a_frame_shows_the_age(was: Diag, now: Diag, frame_ms: u32, age: u64)
    requires
        was.frame_noted(now, frame_ms, age),
        was.frames < u64::MAX,
    ensures
        now.frame_ms == frame_ms && now.frames == was.frames + 1,
        ({
            let seen = floats::below_64(0, was.last_sample_t_ms);
            &&& !seen ==> now.latency_ms == was.latency_ms && now.latency_max_ms == was.latency_max_ms
            &&& seen && age < 0x409f_4000_0000_0000 ==> now.latency_ms == Some(age)
            &&& seen && 0x409f_4000_0000_0000 <= age < 0x8000_0000_0000_0000 ==> now.latency_ms is None && now.latency_max_ms
                == was.latency_max_ms
            &&& seen && age < 0x409f_4000_0000_0000 && floats::below_64(was.latency_max_ms, age) ==> now.latency_max_ms == age
            &&& !floats::below_64(was.latency_max_ms, age) ==> now.latency_max_ms == was.latency_max_ms
        }),
        now.events == was.events && now.batches == was.batches,
{
}

} // verus!
