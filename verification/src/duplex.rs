//! What a full-duplex run counts. The samples themselves go from the input callback through a queue
//! to the output callback.
use vstd::prelude::*;
use vstd::string::*;
use crate::fifo::RING_BUFFERS;
use crate::single::Single;
use crate::text::{decimal, push_decimal};

verus! {

#[derive(Clone, Copy, Debug, PartialEq, Eq, Structural)]
pub struct DuplexStats {
    /// Underruns reported by the driver.
    pub xruns: u64,
    /// Any other error delivered by a stream.
    pub other_errors: u64,
    /// Output callbacks that found the queue empty, counted once per callback.
    pub underruns: u64,
    /// Input callbacks that found the queue full, counted once per callback.
    pub overruns: u64,
    pub in_callbacks: u64,
    pub out_callbacks: u64,
    pub cb_nanos_total: u64,
    pub cb_nanos_max: u64,
    /// Loudest input since it was last asked for.
    pub input_peak: Single,
}

impl Default for DuplexStats {
    fn default() -> (r: Self)
        ensures
            r == (DuplexStats {
                xruns: 0,
                other_errors: 0,
                underruns: 0,
                overruns: 0,
                in_callbacks: 0,
                out_callbacks: 0,
                cb_nanos_total: 0,
                cb_nanos_max: 0,
                input_peak: Single { bits: 0 },
            }),
    {
        DuplexStats {
            xruns: 0,
            other_errors: 0,
            underruns: 0,
            overruns: 0,
            in_callbacks: 0,
            out_callbacks: 0,
            cb_nanos_total: 0,
            cb_nanos_max: 0,
            input_peak: Single { bits: 0 },
        }
    }
}

pub open spec fn max_of(a: u64, b: u64) -> u64 {
    if a > b {
        a
    } else {
        b
    }
}

impl DuplexStats {
    /// The counters after an input callback.
    pub open spec fn heard(self, nanos: u64, peak: Single, overrun: bool) -> DuplexStats {
        DuplexStats {
            overruns: if overrun {
                (self.overruns + 1) as u64
            } else {
                self.overruns
            },
            in_callbacks: (self.in_callbacks + 1) as u64,
            cb_nanos_total: (self.cb_nanos_total + nanos) as u64,
            cb_nanos_max: max_of(self.cb_nanos_max, nanos),
            input_peak: self.input_peak.larger(peak),
            ..self
        }
    }

    /// The counters after an output callback.
    pub open spec fn played(self, nanos: u64, underrun: bool) -> DuplexStats {
        DuplexStats {
            underruns: if underrun {
                (self.underruns + 1) as u64
            } else {
                self.underruns
            },
            out_callbacks: (self.out_callbacks + 1) as u64,
            cb_nanos_total: (self.cb_nanos_total + nanos) as u64,
            cb_nanos_max: max_of(self.cb_nanos_max, nanos),
            ..self
        }
    }

    /// One input callback of `nanos` nanoseconds.
    pub fn record_input(&mut self, nanos: u64, peak: Single, overrun: bool)
        requires
            old(self).overruns < u64::MAX,
            old(self).in_callbacks < u64::MAX,
            old(self).cb_nanos_total + nanos <= u64::MAX,
        ensures
            *final(self) == old(self).heard(nanos, peak, overrun),
    {
        if overrun {
            self.overruns = self.overruns + 1;
        }
        self.in_callbacks = self.in_callbacks + 1;
        self.cb_nanos_total = self.cb_nanos_total + nanos;
        if nanos > self.cb_nanos_max {
            self.cb_nanos_max = nanos;
        }
        self.input_peak = self.input_peak.max(peak);
    }

    /// One output callback of `nanos` nanoseconds.
    pub fn record_output(&mut self, nanos: u64, underrun: bool)
        requires
            old(self).underruns < u64::MAX,
            old(self).out_callbacks < u64::MAX,
            old(self).cb_nanos_total + nanos <= u64::MAX,
        ensures
            *final(self) == old(self).played(nanos, underrun),
    {
        if underrun {
            self.underruns = self.underruns + 1;
        }
        self.out_callbacks = self.out_callbacks + 1;
        self.cb_nanos_total = self.cb_nanos_total + nanos;
        if nanos > self.cb_nanos_max {
            self.cb_nanos_max = nanos;
        }
    }

    /// The counters after one more stream error.
    pub open spec fn failed(self, xrun: bool) -> DuplexStats {
        if xrun {
            DuplexStats { xruns: (self.xruns + 1) as u64, ..self }
        } else {
            DuplexStats { other_errors: (self.other_errors + 1) as u64, ..self }
        }
    }

    /// One error of a stream.
    pub fn count_error(&mut self, xrun: bool)
        requires
            old(self).xruns < u64::MAX,
            old(self).other_errors < u64::MAX,
        ensures
            *final(self) == old(self).failed(xrun),
            *final(self) == (if xrun {
                DuplexStats { xruns: (old(self).xruns + 1) as u64, ..*old(self) }
            } else {
                DuplexStats { other_errors: (old(self).other_errors + 1) as u64, ..*old(self) }
            }),
    {
        if xrun {
            self.xruns = self.xruns + 1;
        } else {
            self.other_errors = self.other_errors + 1;
        }
    }

    /// The loudest input since the last call.
    pub fn take_peak(&mut self) -> (r: Single)
        ensures
            r == old(self).input_peak,
            *final(self) == (DuplexStats { input_peak: Single { bits: 0 }, ..*old(self) }),
    {
        let peak: Single = self.input_peak;
        self.input_peak = Single { bits: 0 };
        peak
    }

    pub fn callbacks(&self) -> (r: u64)
        requires
            self.in_callbacks + self.out_callbacks <= u64::MAX,
        ensures
            r == self.in_callbacks + self.out_callbacks,
    {
        self.in_callbacks + self.out_callbacks
    }

    /// Everything that interrupted the audio.
    pub fn interruptions(&self) -> (r: u64)
        requires
            self.xruns + self.underruns + self.overruns <= u64::MAX,
        ensures
            r == self.xruns + self.underruns + self.overruns,
    {
        self.xruns + self.underruns + self.overruns
    }

    pub open spec fn summary_text(self, longest: Seq<char>, mean: Seq<char>) -> Seq<char> {
        "Xruns (cpal):        "@ + decimal(self.xruns as nat) + "\nRing-Underruns:      "@ + decimal(
            self.underruns as nat,
        ) + "\nRing-Overruns:       "@ + decimal(self.overruns as nat)
            + "\nSonstige Fehler:     "@ + decimal(self.other_errors as nat)
            + "\nCallback-Aufrufe:    "@ + decimal((self.in_callbacks + self.out_callbacks) as nat)
            + " (Eingang "@ + decimal(self.in_callbacks as nat) + ", Ausgang "@ + decimal(
            self.out_callbacks as nat,
        ) + ")\nCallback-Dauer:      max "@ + longest + " ms, Mittel "@ + mean + " ms"@
    }

    /// What is said at the end of a run. `longest` and `mean` are the callback times in milliseconds,
    /// as they are written.
    pub fn summary(&self, longest: &str, mean: &str) -> (r: String)
        requires
            self.in_callbacks + self.out_callbacks <= u64::MAX,
        ensures
            r@ == self.summary_text(longest@, mean@),
    {
        let mut r = String::new();
        r.append("Xruns (cpal):        ");
        push_decimal(&mut r, self.xruns);
        r.append("\nRing-Underruns:      ");
        push_decimal(&mut r, self.underruns);
        r.append("\nRing-Overruns:       ");
        push_decimal(&mut r, self.overruns);
        r.append("\nSonstige Fehler:     ");
        push_decimal(&mut r, self.other_errors);
        r.append("\nCallback-Aufrufe:    ");
        push_decimal(&mut r, self.callbacks());
        r.append(" (Eingang ");
        push_decimal(&mut r, self.in_callbacks);
        r.append(", Ausgang ");
        push_decimal(&mut r, self.out_callbacks);
        r.append(")\nCallback-Dauer:      max ");
        r.append(longest);
        r.append(" ms, Mittel ");
        r.append(mean);
        r.append(" ms");
        assert(r@ =~= self.summary_text(longest@, mean@));
        r
    }
}

/// The length of a ring for blocks of a size: room for several of them, and never none.
pub open spec fn ring_for(buffer_frames: u32) -> int {
    (if buffer_frames == 0 {
        1
    } else {
        buffer_frames
    }) * RING_BUFFERS
}

/// Length of the monitoring queue in samples.
pub fn ring_capacity(buffer_frames: u32) -> (r: u32)
    requires
        buffer_frames * RING_BUFFERS <= u32::MAX,
    ensures
        r == ring_for(buffer_frames),
        r == (if buffer_frames == 0 {
            1
        } else {
            buffer_frames
        }) * RING_BUFFERS,
{
    let frames: u32 = if buffer_frames == 0 {
        1
    } else {
        buffer_frames
    };
    frames * RING_BUFFERS
}

/// Counting keeps what was counted: no counter ever goes back, and the longest callback stays the
/// longest.
pub proof fn counters_only_grow(
    stats: DuplexStats,
    nanos: u64,
    peak: Single,
    overrun: bool,
)
    requires
        stats.overruns < u64::MAX,
        stats.in_callbacks < u64::MAX,
        stats.cb_nanos_total + nanos <= u64::MAX,
    ensures
        stats.heard(nanos, peak, overrun).in_callbacks == stats.in_callbacks + 1,
        stats.heard(nanos, peak, overrun).overruns >= stats.overruns,
        stats.heard(nanos, peak, overrun).cb_nanos_max >= stats.cb_nanos_max,
        stats.heard(nanos, peak, overrun).cb_nanos_max >= nanos,
        stats.heard(nanos, peak, overrun).cb_nanos_total == stats.cb_nanos_total + nanos,
{
}

/// An input callback counts itself, its time and its overrun if it had one; an output callback
/// itself, its time and its underrun. Neither touches the counters of the other.
pub proof fn a_callback_is_counted_once(
    stats: DuplexStats,
    nanos: u64,
    peak: Single,
    short: bool,
)
    requires
        stats.overruns < u64::MAX,
        stats.underruns < u64::MAX,
        stats.in_callbacks < u64::MAX,
        stats.out_callbacks < u64::MAX,
        stats.cb_nanos_total + nanos <= u64::MAX,
    ensures
        ({
            let heard = stats.heard(nanos, peak, short);
            let played = stats.played(nanos, short);
            let one = if short {
                1int
            } else {
                0int
            };
            &&& heard.overruns == stats.overruns + one
            &&& heard.underruns == stats.underruns
            &&& heard.in_callbacks == stats.in_callbacks + 1
            &&& heard.out_callbacks == stats.out_callbacks
            &&& played.underruns == stats.underruns + one
            &&& played.overruns == stats.overruns
            &&& played.out_callbacks == stats.out_callbacks + 1
            &&& played.in_callbacks == stats.in_callbacks
            &&& played.cb_nanos_total == stats.cb_nanos_total + nanos
            &&& played.cb_nanos_max >= nanos && played.cb_nanos_max >= stats.cb_nanos_max
            &&& played.cb_nanos_max == nanos || played.cb_nanos_max == stats.cb_nanos_max
            &&& heard.cb_nanos_max == nanos || heard.cb_nanos_max == stats.cb_nanos_max
            &&& heard.xruns == stats.xruns && played.xruns == stats.xruns
            &&& heard.other_errors == stats.other_errors && played.other_errors
                == stats.other_errors
            &&& played.input_peak == stats.input_peak
            &&& !peak.nan() && !stats.input_peak.nan() ==> peak.le(heard.input_peak)
                && stats.input_peak.le(heard.input_peak)
        }),
{
}

/// A stream error is counted once, a lost block under its own counter and every other failure under
/// the other one.
pub proof fn an_error_is_counted_once(stats: DuplexStats, xrun: bool)
    requires
        stats.xruns < u64::MAX,
        stats.other_errors < u64::MAX,
    ensures
        stats.failed(xrun).xruns + stats.failed(xrun).other_errors == stats.xruns
            + stats.other_errors + 1,
        stats.failed(xrun).xruns > stats.xruns <==> xrun,
        stats.failed(xrun).overruns == stats.overruns,
        stats.failed(xrun).underruns == stats.underruns,
        stats.failed(xrun).in_callbacks == stats.in_callbacks,
        stats.failed(xrun).out_callbacks == stats.out_callbacks,
{
}

/// A ring always has room for more than one block.
pub proof fn a_ring_holds_more_than_a_block(buffer_frames: u32)
    ensures
        ring_for(buffer_frames) > buffer_frames,
        buffer_frames > 0 ==> ring_for(buffer_frames) == buffer_frames * RING_BUFFERS,
        ring_for(0) == ring_for(1),
{
}

} // verus!
