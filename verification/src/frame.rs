//! The small types the stereo engine is built from: a stereo sample pair, the channel count of a
//! loop buffer, and which device inputs a track listens on.
//!
//! A frame is one instant of audio - one number for a mono buffer, two for a stereo one; a sample
//! is one number in one channel. Every musical position counts frames.
//!
//! A loop buffer is mono or stereo, whichever the source is. Everything after the buffer is stereo
//! without exception: a mono track is fanned out to two channels on its way into the effect chain.
use vstd::prelude::*;
use vstd::string::*;
use crate::single::Single;
use crate::text::{decimal, push_decimal};

verus! {

/// One instant of stereo audio. The bus, every effect and every panner speak this.
#[derive(Clone, Copy, Debug, PartialEq, Eq, Structural)]
pub struct Frame {
    pub l: Single,
    pub r: Single,
}

impl Frame {
    pub fn new(l: Single, r: Single) -> (f: Self)
        ensures
            f == (Frame { l, r }),
    {
        Frame { l, r }
    }

    /// Digital silence on both channels.
    pub fn silent() -> (f: Self)
        ensures
            f == (Frame { l: Single { bits: 0 }, r: Single { bits: 0 } }),
    {
        Frame { l: Single { bits: 0 }, r: Single { bits: 0 } }
    }

    /// Fan a mono sample out to both channels at full level. This is the one place a mono source
    /// becomes stereo.
    pub fn mono(x: Single) -> (f: Self)
        ensures
            f == (Frame { l: x, r: x }),
    {
        Frame { l: x, r: x }
    }

    pub fn is_silent(self) -> (r: bool)
        ensures
            r == (self.l.zero() && self.r.zero()),
    {
        self.l.is_zero() && self.r.is_zero()
    }

    /// Louder of the two channels, as an absolute value. What a single-bar meter shows.
    pub fn max_abs(self) -> (r: Single)
        ensures
            r == self.l.unsigned().larger(self.r.unsigned()),
    {
        self.l.abs().max(self.r.abs())
    }

    /// Channel `i` (0 = left, 1 = right); anything else is the left one, so an index mistake cannot
    /// panic inside the audio callback.
    pub fn channel(self, i: usize) -> (r: Single)
        ensures
            r == (if i == 1 {
                self.r
            } else {
                self.l
            }),
    {
        if i == 1 {
            self.r
        } else {
            self.l
        }
    }

    pub fn set_channel(&mut self, i: usize, value: Single)
        ensures
            *final(self) == (if i == 1 {
                Frame { l: old(self).l, r: value }
            } else {
                Frame { l: value, r: old(self).r }
            }),
    {
        if i == 1 {
            self.r = value;
        } else {
            self.l = value;
        }
    }
}

/// How many channels one loop buffer of a track holds.
#[derive(Clone, Copy, Debug, PartialEq, Eq, Structural)]
pub enum Channels {
    /// One microphone, one pickup. Half the memory of a stereo buffer and not one sound less.
    Mono,
    /// A piano, a pad, anything that arrives on a pair of inputs.
    Stereo,
}

impl Default for Channels {
    fn default() -> (r: Self)
        ensures
            r == Channels::Mono,
    {
        Channels::Mono
    }
}

/// The channels a count stands for: two is stereo, anything else is mono.
pub open spec fn channels_of(count: usize) -> Channels {
    if count == 2 {
        Channels::Stereo
    } else {
        Channels::Mono
    }
}

impl Channels {
    pub open spec fn spec_count(self) -> int {
        match self {
            Channels::Mono => 1,
            Channels::Stereo => 2,
        }
    }

    /// Samples per frame: 1 or 2.
    pub fn count(self) -> (r: usize)
        ensures
            r == self.spec_count(),
    {
        match self {
            Channels::Mono => 1,
            Channels::Stereo => 2,
        }
    }

    /// Index into the two-kind buffer pool: mono is 0, stereo is 1.
    pub fn index(self) -> (r: usize)
        ensures
            r == self.spec_count() - 1,
    {
        self.count() - 1
    }

    /// From a channel count. Anything but 2 is mono, so a bad number cannot invent a channel.
    pub fn from_count(count: usize) -> (r: Self)
        ensures
            r == channels_of(count),
    {
        if count == 2 {
            Channels::Stereo
        } else {
            Channels::Mono
        }
    }

    /// German word for the display.
    pub fn label(self) -> (r: &'static str)
        ensures
            r@ == (match self {
                Channels::Mono => "mono"@,
                Channels::Stereo => "stereo"@,
            }),
    {
        match self {
            Channels::Mono => "mono",
            Channels::Stereo => "stereo",
        }
    }
}

/// Which device input channels a track records, zero-based inside an interleaved input frame.
#[derive(Clone, Copy, Debug, PartialEq, Eq, Structural)]
pub enum TrackInput {
    /// One channel; the loop buffer is mono.
    Mono(usize),
    /// A pair; the loop buffer is stereo. The two need not be adjacent.
    Stereo { left: usize, right: usize },
}

/// `1` or `3+4`, one-based.
pub open spec fn input_label(input: TrackInput) -> Seq<char> {
    match input {
        TrackInput::Mono(c) => decimal((c + 1) as nat),
        TrackInput::Stereo { left, right } => decimal((left + 1) as nat) + "+"@ + decimal(
            (right + 1) as nat,
        ),
    }
}

impl TrackInput {
    pub open spec fn spec_channels(self) -> Channels {
        match self {
            TrackInput::Mono(_) => Channels::Mono,
            TrackInput::Stereo { .. } => Channels::Stereo,
        }
    }

    /// The device channel that feeds a channel of the buffer.
    pub open spec fn source(self, i: int) -> usize {
        match self {
            TrackInput::Mono(c) => c,
            TrackInput::Stereo { left, right } => if i == 1 {
                right
            } else {
                left
            },
        }
    }

    pub fn channels(self) -> (r: Channels)
        ensures
            r == self.spec_channels(),
    {
        match self {
            TrackInput::Mono(_) => Channels::Mono,
            TrackInput::Stereo { .. } => Channels::Stereo,
        }
    }

    /// Device channel feeding buffer channel `i`. For a mono track every `i` is the one channel,
    /// which is what makes the recording loop free of special cases.
    pub fn device_channel(self, i: usize) -> (r: usize)
        ensures
            r == self.source(i as int),
    {
        match self {
            TrackInput::Mono(c) => c,
            TrackInput::Stereo { left, right } => {
                if i == 1 {
                    right
                } else {
                    left
                }
            },
        }
    }

    /// The first (or only) device channel.
    pub fn first(self) -> (r: usize)
        ensures
            r == self.source(0),
    {
        self.device_channel(0)
    }

    /// Highest device channel this track needs, for checking against what the device offers.
    pub fn highest(self) -> (r: usize)
        ensures
            r >= self.source(0),
            r >= self.source(1),
            r == self.source(0) || r == self.source(1),
    {
        match self {
            TrackInput::Mono(c) => c,
            TrackInput::Stereo { left, right } => {
                if left >= right {
                    left
                } else {
                    right
                }
            },
        }
    }

    /// Both channels as a fixed pair for the status snapshot; the second entry repeats the first on
    /// a mono track.
    pub fn pair(self) -> (r: [usize; 2])
        ensures
            r@ == seq![self.source(0), self.source(1)],
    {
        let r: [usize; 2] = [self.device_channel(0), self.device_channel(1)];
        assert(r@ =~= seq![self.source(0), self.source(1)]);
        r
    }

    /// `1` or `3+4`, one-based, as the channels are printed on the interface.
    pub fn label(self) -> (r: String)
        requires
            self.source(0) < usize::MAX,
            self.source(1) < usize::MAX,
        ensures
            r@ == input_label(self),
    {
        let mut out = String::new();
        match self {
            TrackInput::Mono(c) => {
                push_decimal(&mut out, (c + 1) as u64);
            },
            TrackInput::Stereo { left, right } => {
                assert(self.source(0) == left);
                assert(self.source(1) == right);
                push_decimal(&mut out, (left + 1) as u64);
                out.append("+");
                push_decimal(&mut out, (right + 1) as u64);
            },
        }
        out
    }
}

// ---------------------------------------------------------------------------------------------
// Laws
// ---------------------------------------------------------------------------------------------

/// Every channel of a track's buffer is fed by one of the two device channels of its pair, and a
/// mono track reads the same device channel whatever it is asked for.
pub proof fn a_mono_track_always_reads_its_one_channel(input: TrackInput, i: int)
    ensures
        input.source(i) == input.source(0) || input.source(i) == input.source(1),
        input.spec_channels() == Channels::Mono ==> input.source(i) == input.source(0),
{
}

/// A channel count survives the way through [`Channels`].
pub proof fn channel_counts_read_back(channels: Channels)
    ensures
        channels_of(channels.spec_count() as usize) == channels,
{
}

/// The left channel of a pair feeds the first channel of the buffer and the right one the second; a
/// single channel feeds whatever is asked for.
pub proof fn a_pair_keeps_its_sides(left: usize, right: usize, i: int)
    ensures
        (TrackInput::Stereo { left, right }).source(0) == left,
        (TrackInput::Stereo { left, right }).source(1) == right,
        TrackInput::Mono(left).source(i) == left,
        (TrackInput::Stereo { left, right }).spec_channels().spec_count() == 2,
        TrackInput::Mono(left).spec_channels().spec_count() == 1,
{
}

} // verus!
