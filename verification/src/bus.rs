//! The two output buses, what may be sent to them, and where they leave the machine.
//!
//! The musician needs the click and the room must not have it, so the sum is split into two stereo
//! buses. Every source decides for itself which of them it feeds. The one rule that is not a
//! setting: the click never reaches Main.
//!
//! Separate buses need at least four device output channels. With fewer, both buses land on the
//! same pair, are summed there, and [`routing_note`] says so in one sentence. A bus may also be
//! routed to a single channel, which puts the mix on the left and the click on the right of a
//! two-output interface.
use vstd::prelude::*;
use vstd::string::*;
use crate::text::{ascii_lower, decimal, holds, is_digit, lemma_decimal_digits, push_decimal, stands_at, same_text, split, split_at_the_last_separator, split_of_one_word, split_text, texts, to_ascii_lower, trim, trimmed};

verus! {

/// How many output buses there are. Two: the room and the musician.
pub const BUS_COUNT: usize = 2;

/// Channels in one bus. Every bus is stereo, whatever the tracks are.
pub const BUS_CHANNELS: usize = 2;

/// Samples in one engine output frame: both buses, interleaved as `[main_l, main_r, mon_l, mon_r]`.
pub const BUS_SAMPLES: usize = 4;

/// One of the two buses.
#[derive(Clone, Copy, Debug, PartialEq, Eq, Structural, Hash)]
pub enum Bus {
    /// To the PA. Never carries the click.
    Main,
    /// To the headphones. Carries the click.
    Monitor,
}

/// The word the wire format and the command line use for a bus.
pub open spec fn bus_name(bus: Bus) -> Seq<char> {
    match bus {
        Bus::Main => "main"@,
        Bus::Monitor => "monitor"@,
    }
}

/// What the screen calls a bus.
pub open spec fn bus_label(bus: Bus) -> Seq<char> {
    match bus {
        Bus::Main => "Main (Saal)"@,
        Bus::Monitor => "Monitor (Kopfhoerer)"@,
    }
}

/// The bus a lower-case word names.
pub open spec fn bus_of_word(word: Seq<char>) -> Option<Bus> {
    if word == "main"@ || word == "pa"@ || word == "saal"@ {
        Some(Bus::Main)
    } else if word == "monitor"@ || word == "mon"@ || word == "kopfhoerer"@ || word == "cue"@ {
        Some(Bus::Monitor)
    } else {
        None
    }
}

impl Bus {
    pub const ALL: [Bus; 2] = [Bus::Main, Bus::Monitor];

    pub open spec fn spec_index(self) -> int {
        match self {
            Bus::Main => 0,
            Bus::Monitor => 1,
        }
    }

    pub fn index(self) -> (r: usize)
        ensures
            r == self.spec_index(),
    {
        match self {
            Bus::Main => 0,
            Bus::Monitor => 1,
        }
    }

    /// From an index; anything out of range is Main, so a bad number cannot panic in a callback.
    pub fn from_index(index: usize) -> (r: Self)
        ensures
            r == (if index == 1 {
                Bus::Monitor
            } else {
                Bus::Main
            }),
    {
        if index == 1 {
            Bus::Monitor
        } else {
            Bus::Main
        }
    }

    /// The word the wire format and the command line use.
    pub fn name(self) -> (r: &'static str)
        ensures
            r@ == bus_name(self),
    {
        match self {
            Bus::Main => "main",
            Bus::Monitor => "monitor",
        }
    }

    /// German label for the display.
    pub fn label(self) -> (r: &'static str)
        ensures
            r@ == bus_label(self),
    {
        match self {
            Bus::Main => "Main (Saal)",
            Bus::Monitor => "Monitor (Kopfhoerer)",
        }
    }

    /// Read a bus, in any case and with any white space around it.
    pub fn parse(text: &str) -> (r: Option<Self>)
        ensures
            r == bus_of_word(ascii_lower(trimmed(text@))),
    {
        let word: String = to_ascii_lower(trim(text));
        let w: &str = word.as_str();
        if same_text(w, "main") || same_text(w, "pa") || same_text(w, "saal") {
            Some(Bus::Main)
        } else if same_text(w, "monitor") || same_text(w, "mon") || same_text(w, "kopfhoerer")
            || same_text(w, "cue") {
            Some(Bus::Monitor)
        } else {
            None
        }
    }
}

/// Which buses one source feeds.
#[derive(Clone, Copy, Debug, PartialEq, Eq, Structural)]
pub enum BusSend {
    /// Heard nowhere. Not a broken state: a guide track that is only wanted later sits here.
    Nowhere,
    Main,
    Monitor,
    Both,
}

pub open spec fn send_of(main: bool, monitor: bool) -> BusSend {
    if main && monitor {
        BusSend::Both
    } else if main {
        BusSend::Main
    } else if monitor {
        BusSend::Monitor
    } else {
        BusSend::Nowhere
    }
}

/// What a list of bus names adds up to, if every one of them names a bus.
pub open spec fn send_of_parts(parts: Seq<Seq<char>>) -> Option<BusSend>
    decreases parts.len(),
{
    if parts.len() == 0 {
        Some(BusSend::Nowhere)
    } else {
        match (send_of_parts(parts.drop_last()), bus_of_word(ascii_lower(trimmed(parts.last())))) {
            (Some(send), Some(bus)) => Some(send.spec_with(bus, true)),
            _ => None,
        }
    }
}

/// The set of buses a text names: a word for none or for both, or names joined by `+`, `,` or `/`.
pub open spec fn send_of_text(text: Seq<char>) -> Option<BusSend> {
    let word = ascii_lower(trimmed(text));
    if word == "none"@ || word == "aus"@ || word == "-"@ {
        Some(BusSend::Nowhere)
    } else if word == "both"@ || word == "beide"@ || word == "alle"@ {
        Some(BusSend::Both)
    } else {
        send_of_parts(split(word, "+,/"@))
    }
}

pub open spec fn send_name(send: BusSend) -> Seq<char> {
    match send {
        BusSend::Nowhere => "none"@,
        BusSend::Main => "main"@,
        BusSend::Monitor => "monitor"@,
        BusSend::Both => "main+monitor"@,
    }
}

impl BusSend {
    pub const NONE: BusSend = BusSend::Nowhere;

    pub const MAIN: BusSend = BusSend::Main;

    pub const MONITOR: BusSend = BusSend::Monitor;

    pub const BOTH: BusSend = BusSend::Both;

    /// Whether this set holds a bus.
    pub open spec fn feeds(self, bus: Bus) -> bool {
        match bus {
            Bus::Main => self == BusSend::Main || self == BusSend::Both,
            Bus::Monitor => self == BusSend::Monitor || self == BusSend::Both,
        }
    }

    /// The same set with one bus put in or taken out.
    pub open spec fn spec_with(self, bus: Bus, on: bool) -> BusSend {
        match bus {
            Bus::Main => send_of(on, self.feeds(Bus::Monitor)),
            Bus::Monitor => send_of(self.feeds(Bus::Main), on),
        }
    }

    /// From the raw bits, one per bus, ignoring anything above the two that exist.
    pub fn from_bits(bits: u8) -> (r: Self)
        ensures
            r == send_of(bits % 2 == 1, bits / 2 % 2 == 1),
    {
        match bits % 4 {
            0 => BusSend::Nowhere,
            1 => BusSend::Main,
            2 => BusSend::Monitor,
            _ => BusSend::Both,
        }
    }

    /// One bit per bus, the bit of Main being the lowest.
    pub fn bits(self) -> (r: u8)
        ensures
            r == (if self.feeds(Bus::Main) {
                1int
            } else {
                0int
            }) + (if self.feeds(Bus::Monitor) {
                2int
            } else {
                0int
            }),
    {
        match self {
            BusSend::Nowhere => 0,
            BusSend::Main => 1,
            BusSend::Monitor => 2,
            BusSend::Both => 3,
        }
    }

    pub fn on(self, bus: Bus) -> (r: bool)
        ensures
            r == self.feeds(bus),
    {
        match bus {
            Bus::Main => matches!(self, BusSend::Main | BusSend::Both),
            Bus::Monitor => matches!(self, BusSend::Monitor | BusSend::Both),
        }
    }

    #[must_use]
    pub fn with(self, bus: Bus, on: bool) -> (r: Self)
        ensures
            r == self.spec_with(bus, on),
    {
        let main: bool = match bus {
            Bus::Main => on,
            Bus::Monitor => self.on(Bus::Main),
        };
        let monitor: bool = match bus {
            Bus::Main => self.on(Bus::Monitor),
            Bus::Monitor => on,
        };
        match (main, monitor) {
            (false, false) => BusSend::Nowhere,
            (true, false) => BusSend::Main,
            (false, true) => BusSend::Monitor,
            (true, true) => BusSend::Both,
        }
    }

    pub fn is_silent(self) -> (r: bool)
        ensures
            r == !(self.feeds(Bus::Main) || self.feeds(Bus::Monitor)),
    {
        matches!(self, BusSend::Nowhere)
    }

    /// German label: what a track line and a tooltip say.
    pub fn label(self) -> (r: &'static str)
        ensures
            r@ == send_label(self),
    {
        match self {
            BusSend::Nowhere => "nirgends",
            BusSend::Main => "Main",
            BusSend::Monitor => "Monitor",
            BusSend::Both => "Main+Monitor",
        }
    }

    /// Short label for a crowded terminal column.
    pub fn short(self) -> (r: &'static str)
        ensures
            r@ == (match self {
                BusSend::Nowhere => "--"@,
                BusSend::Main => "M-"@,
                BusSend::Monitor => "-K"@,
                BusSend::Both => "MK"@,
            }),
    {
        match self {
            BusSend::Nowhere => "--",
            BusSend::Main => "M-",
            BusSend::Monitor => "-K",
            BusSend::Both => "MK",
        }
    }

    /// `main`, `monitor`, `main+monitor`, `none` - what the command line and the score write.
    pub fn name(self) -> (r: &'static str)
        ensures
            r@ == send_name(self),
    {
        match self {
            BusSend::Nowhere => "none",
            BusSend::Main => "main",
            BusSend::Monitor => "monitor",
            BusSend::Both => "main+monitor",
        }
    }

    /// Read `main`, `monitor`, `main+monitor` (also `both`), `none`.
    pub fn parse(text: &str) -> (r: Option<Self>)
        ensures
            r == send_of_text(text@),
    {
        let word: String = to_ascii_lower(trim(text));
        let w: &str = word.as_str();
        if same_text(w, "none") || same_text(w, "aus") || same_text(w, "-") {
            return Some(BusSend::Nowhere);
        }
        if same_text(w, "both") || same_text(w, "beide") || same_text(w, "alle") {
            return Some(BusSend::Both);
        }
        let parts: Vec<String> = split_text(w, "+,/");
        let ghost all = split(w@, "+,/"@);
        let mut send: BusSend = BusSend::Nowhere;
        let mut i: usize = 0;
        while i < parts.len()
            invariant
                i <= parts.len(),
                texts(parts@) == all,
                all == split(w@, "+,/"@),
                w@ == ascii_lower(trimmed(text@)),
                send_of_text(text@) == send_of_parts(all),
                send_of_parts(all.subrange(0, i as int)) == Some(send),
            decreases parts.len() - i,
        {
            proof {
                assert(all[i as int] == parts@[i as int]@);
                assert(all.subrange(0, i + 1).drop_last() =~= all.subrange(0, i as int));
            }
            match Bus::parse(parts[i].as_str()) {
                Some(bus) => {
                    send = send.with(bus, true);
                },
                None => {
                    proof {
                        lemma_bad_part(all, i + 1);
                    }
                    return None;
                },
            }
            i = i + 1;
        }
        assert(all.subrange(0, i as int) =~= all);
        Some(send)
    }
}

pub open spec fn send_label(send: BusSend) -> Seq<char> {
    match send {
        BusSend::Nowhere => "nirgends"@,
        BusSend::Main => "Main"@,
        BusSend::Monitor => "Monitor"@,
        BusSend::Both => "Main+Monitor"@,
    }
}

proof fn lemma_bad_part(parts: Seq<Seq<char>>, k: int)
    requires
        0 <= k <= parts.len(),
        send_of_parts(parts.subrange(0, k)) is None,
    ensures
        send_of_parts(parts) is None,
    decreases parts.len(),
{
    if k == parts.len() {
        assert(parts.subrange(0, k) =~= parts);
    } else {
        assert(parts.drop_last().subrange(0, k) =~= parts.subrange(0, k));
        lemma_bad_part(parts.drop_last(), k);
    }
}

impl Default for BusSend {
    fn default() -> (r: Self)
        ensures
            r == BusSend::Nowhere,
    {
        BusSend::Nowhere
    }
}

/// Which of a track's two sources a routing decision is about.
///
/// The loop asks where a recording belongs; monitoring asks where the musician needs to hear
/// himself. On a stage with a PA that already has the microphone, the two answers differ.
#[derive(Clone, Copy, Debug, PartialEq, Eq, Structural)]
pub enum TrackSource {
    /// The recorded layers of the track.
    Loop,
    /// The live input, while monitoring is switched on.
    Monitor,
}

pub open spec fn source_name(source: TrackSource) -> Seq<char> {
    match source {
        TrackSource::Loop => "loop"@,
        TrackSource::Monitor => "monitor"@,
    }
}

pub open spec fn source_label(source: TrackSource) -> Seq<char> {
    match source {
        TrackSource::Loop => "Loop"@,
        TrackSource::Monitor => "Mithoeren"@,
    }
}

/// The source a lower-case word names.
pub open spec fn source_of_word(word: Seq<char>) -> Option<TrackSource> {
    if word == "loop"@ || word == "wiedergabe"@ {
        Some(TrackSource::Loop)
    } else if word == "monitor"@ || word == "mithoeren"@ || word == "mithören"@ {
        Some(TrackSource::Monitor)
    } else {
        None
    }
}

impl TrackSource {
    pub const ALL: [TrackSource; 2] = [TrackSource::Loop, TrackSource::Monitor];

    pub fn name(self) -> (r: &'static str)
        ensures
            r@ == source_name(self),
    {
        match self {
            TrackSource::Loop => "loop",
            TrackSource::Monitor => "monitor",
        }
    }

    pub fn label(self) -> (r: &'static str)
        ensures
            r@ == source_label(self),
    {
        match self {
            TrackSource::Loop => "Loop",
            TrackSource::Monitor => "Mithoeren",
        }
    }

    pub fn parse(text: &str) -> (r: Option<Self>)
        ensures
            r == source_of_word(ascii_lower(trimmed(text@))),
    {
        let word: String = to_ascii_lower(trim(text));
        let w: &str = word.as_str();
        if same_text(w, "loop") || same_text(w, "wiedergabe") {
            Some(TrackSource::Loop)
        } else if same_text(w, "monitor") || same_text(w, "mithoeren") || same_text(w, "mithören") {
            Some(TrackSource::Monitor)
        } else {
            None
        }
    }
}

/// Where one bus leaves the machine: a stereo pair, or - on a device that has no second pair to
/// spare - a single channel the bus is folded down to.
#[derive(Clone, Copy, Debug, PartialEq, Eq, Structural)]
pub struct BusOutput {
    /// First device output channel, zero-based.
    pub first: usize,
    /// 1 or 2. One means the bus is summed to mono at half level onto `first`.
    pub width: usize,
}

/// The output reduced to what a device with `channels` outputs can carry: a pair whose right half
/// does not exist is folded onto its left half, and a bus whose channels do not exist at all moves
/// down to the last ones there are.
pub open spec fn clamped_output(out: BusOutput, channels: int) -> BusOutput {
    let width: int = if out.width >= 2 {
        2
    } else {
        1
    };
    if channels <= 0 {
        BusOutput { first: 0, width: 1 }
    } else if out.first + width <= channels {
        BusOutput { first: out.first, width: width as usize }
    } else if out.first < channels {
        BusOutput { first: out.first, width: 1 }
    } else if width == 2 && channels >= 2 {
        BusOutput { first: (channels - 2) as usize, width: 2 }
    } else {
        BusOutput { first: (channels - 1) as usize, width: 1 }
    }
}

/// `1-2` or `3`, one-based.
pub open spec fn output_label(out: BusOutput) -> Seq<char> {
    if out.width >= 2 {
        decimal((out.first + 1) as nat) + "-"@ + decimal((out.first + 2) as nat)
    } else {
        decimal((out.first + 1) as nat)
    }
}

/// What one device channel carries of one bus.
#[derive(Clone, Copy, Debug, PartialEq, Eq, Structural)]
pub enum Feed {
    /// Nothing: the bus does not leave here.
    Silent,
    /// The left sample of the bus, at full level.
    Left,
    /// The right sample of the bus, at full level.
    Right,
    /// Both samples of the bus, each at half level.
    Fold,
}

impl BusOutput {
    /// Whether the channel numbers of this output can be written one-based.
    pub open spec fn countable(self) -> bool {
        self.first + (if self.width >= 2 {
            2int
        } else {
            1int
        }) <= usize::MAX
    }

    /// Whether a device channel is one of those this bus leaves on.
    pub open spec fn covers(self, channel: int) -> bool {
        self.first <= channel < self.first + self.width
    }

    pub fn pair(first: usize) -> (r: Self)
        ensures
            r == (BusOutput { first, width: 2 }),
    {
        BusOutput { first, width: 2 }
    }

    pub fn mono(channel: usize) -> (r: Self)
        ensures
            r == (BusOutput { first: channel, width: 1 }),
    {
        BusOutput { first: channel, width: 1 }
    }

    /// Channels this bus occupies, as a zero-based half-open range.
    pub fn range(self) -> (r: std::ops::Range<usize>)
        requires
            self.first + self.width <= usize::MAX,
        ensures
            r.start == self.first,
            r.end == self.first + self.width,
    {
        self.first..self.first + self.width
    }

    /// The same output reduced to what a device with `channels` outputs can actually carry.
    ///
    /// A pair whose right half does not exist becomes a mono fold onto its left half rather than
    /// half a stereo signal - dropping the right channel would silence everything panned hard
    /// right, which is a far nastier surprise than a fold-down. A bus whose channels do not exist at
    /// all moves to the last ones there are, because a bus that is inaudible is not a routing, it is
    /// a mistake; a pair stays one there if the device has two channels.
    pub fn clamped(self, channels: usize) -> (r: Self)
        ensures
            r == clamped_output(self, channels as int),
    {
        if channels == 0 {
            return BusOutput::mono(0);
        }
        let width: usize = if self.width >= 2 {
            2
        } else {
            1
        };
        if self.first < channels {
            if width <= channels - self.first {
                BusOutput { first: self.first, width }
            } else {
                BusOutput::mono(self.first)
            }
        } else if width == 2 && channels >= 2 {
            BusOutput::pair(channels - 2)
        } else {
            BusOutput::mono(channels - 1)
        }
    }

    /// `1-2` or `3`, one-based, as the channels are printed on the interface.
    pub fn label(self) -> (r: String)
        requires
            self.countable(),
        ensures
            r@ == output_label(self),
    {
        let mut out = String::new();
        push_decimal(&mut out, (self.first + 1) as u64);
        if self.width >= 2 {
            out.append("-");
            push_decimal(&mut out, (self.first + 2) as u64);
        }
        out
    }

    /// What device channel `channel` carries of a bus that leaves here. A bus of width one is
    /// folded to mono, because dropping one side would silence anything panned hard to it.
    pub fn feed(self, channel: usize) -> (r: Feed)
        ensures
            r == (if self.width >= 2 {
                if channel == self.first {
                    Feed::Left
                } else if channel == self.first + 1 {
                    Feed::Right
                } else {
                    Feed::Silent
                }
            } else if channel == self.first {
                Feed::Fold
            } else {
                Feed::Silent
            }),
    {
        if self.width >= 2 {
            if channel == self.first {
                Feed::Left
            } else if channel > self.first && channel - self.first == 1 {
                Feed::Right
            } else {
                Feed::Silent
            }
        } else if channel == self.first {
            Feed::Fold
        } else {
            Feed::Silent
        }
    }
}

/// Where both buses leave the machine.
#[derive(Clone, Copy, Debug, PartialEq, Eq, Structural)]
pub struct BusRouting {
    main: BusOutput,
    monitor: BusOutput,
}

impl Default for BusRouting {
    fn default() -> (r: Self)
        ensures
            r@ == (BusOutput { first: 0, width: 2 }, BusOutput { first: 0, width: 2 }),
    {
        BusRouting { main: BusOutput::pair(0), monitor: BusOutput::pair(0) }
    }
}

impl View for BusRouting {
    /// The output of Main and the output of Monitor.
    type V = (BusOutput, BusOutput);

    closed spec fn view(&self) -> (BusOutput, BusOutput) {
        (self.main, self.monitor)
    }
}

/// Whether two outputs overlap, as half-open ranges of channels.
pub open spec fn ranges_overlap(a: BusOutput, b: BusOutput) -> bool {
    a.first < b.first + b.width && b.first < a.first + a.width
}

/// Whether two outputs have a device channel in common.
pub open spec fn share_a_channel(a: BusOutput, b: BusOutput) -> bool {
    exists|channel: int| #[trigger] a.covers(channel) && b.covers(channel)
}

impl BusRouting {
    pub open spec fn output(self, bus: Bus) -> BusOutput {
        match bus {
            Bus::Main => self@.0,
            Bus::Monitor => self@.1,
        }
    }

    /// Whether the end of every channel range is a channel number.
    pub open spec fn bounded(self) -> bool {
        &&& self@.0.first + self@.0.width <= usize::MAX
        &&& self@.1.first + self@.1.width <= usize::MAX
    }

    pub fn new(main: BusOutput, monitor: BusOutput) -> (r: Self)
        ensures
            r@ == (main, monitor),
    {
        BusRouting { main, monitor }
    }

    /// What a device with `channels` outputs gets without anybody choosing anything.
    ///
    /// Four or more channels: Main on 1/2, Monitor on 3/4. Fewer: both on 1/2, summed, because that
    /// is the only place there is.
    pub fn default_for(channels: usize) -> (r: Self)
        ensures
            r@.0 == clamped_output(BusOutput { first: 0, width: 2 }, channels as int),
            r@.1 == clamped_output(
                BusOutput {
                    first: if channels >= 4 {
                        2
                    } else {
                        0
                    },
                    width: 2,
                },
                channels as int,
            ),
    {
        let routing = if channels >= 4 {
            Self::new(BusOutput::pair(0), BusOutput::pair(2))
        } else {
            Self::new(BusOutput::pair(0), BusOutput::pair(0))
        };
        routing.clamped(channels)
    }

    pub fn get(&self, bus: Bus) -> (r: BusOutput)
        ensures
            r == self.output(bus),
    {
        match bus {
            Bus::Main => self.main,
            Bus::Monitor => self.monitor,
        }
    }

    pub fn set(&mut self, bus: Bus, out: BusOutput)
        ensures
            final(self)@ == (match bus {
                Bus::Main => (out, old(self)@.1),
                Bus::Monitor => (old(self)@.0, out),
            }),
    {
        match bus {
            Bus::Main => self.main = out,
            Bus::Monitor => self.monitor = out,
        }
    }

    #[must_use]
    pub fn with(self, bus: Bus, out: BusOutput) -> (r: Self)
        ensures
            r@ == (match bus {
                Bus::Main => (out, self@.1),
                Bus::Monitor => (self@.0, out),
            }),
    {
        let mut r = self;
        r.set(bus, out);
        r
    }

    /// Every output reduced to what the device can carry.
    #[must_use]
    pub fn clamped(self, channels: usize) -> (r: Self)
        ensures
            r@ == (clamped_output(self@.0, channels as int), clamped_output(self@.1, channels as int)),
    {
        BusRouting { main: self.main.clamped(channels), monitor: self.monitor.clamped(channels) }
    }

    /// Whether the two buses share at least one device channel, i.e. whether the click ends up in
    /// the room.
    pub fn overlaps(&self) -> (r: bool)
        requires
            self.bounded(),
        ensures
            r == ranges_overlap(self@.0, self@.1),
    {
        let a = self.main.range();
        let b = self.monitor.range();
        a.start < b.end && b.start < a.end
    }

    /// Whether both buses leave on exactly the same channels - the normal case on a two-output
    /// interface. One way out is one mix, so every source is then summed once, whichever buses it
    /// is assigned to.
    pub fn collapsed(&self) -> (r: bool)
        ensures
            r == (self@.0 == self@.1),
    {
        self.main == self.monitor
    }

    /// Highest device channel either bus uses, one-based - what a device has to be able to offer.
    pub fn highest_channel(&self) -> (r: usize)
        requires
            self.bounded(),
        ensures
            r >= self@.0.first + self@.0.width,
            r >= self@.1.first + self@.1.width,
            r == self@.0.first + self@.0.width || r == self@.1.first + self@.1.width,
    {
        let a: usize = self.main.first + self.main.width;
        let b: usize = self.monitor.first + self.monitor.width;
        if a >= b {
            a
        } else {
            b
        }
    }
}

/// The head of the sentence about a routing that sends both buses to the same channels.
pub open spec fn collapsed_head(out: BusOutput, channels: nat) -> Seq<char> {
    if channels < 4 {
        "Das Geraet hat "@ + decimal(channels)
            + " Ausgangskanaele. Getrennte Busse brauchen vier. Main und Monitor liegen deshalb beide auf Ausgang "@
            + output_label(out)
    } else {
        "Main und Monitor liegen beide auf Ausgang "@ + output_label(out)
            + " - das Geraet haette mit "@ + decimal(channels)
            + " Kanaelen Platz fuer getrennte Paare"@
    }
}

/// The sentence about a routing whose buses are not apart.
pub open spec fn overlap_note(routing: BusRouting, channels: nat) -> Seq<char> {
    if routing@.0 == routing@.1 {
        collapsed_head(routing@.0, channels)
            + ": es gibt einen Weg hinaus und damit eine Mischung. Jede Quelle klingt darin genau einmal, die Lautstaerken bleiben also, wie sie waeren - aber der Klick geht mit in den Saal, und die Monitor-Lautstaerke hat nichts, was sie getrennt regeln koennte. Mit vier Ausgaengen: --bus-out main:1-2 --bus-out monitor:3-4. Notbehelf mit zweien: --bus-out main:1 --bus-out monitor:2 legt den Mix nach links und den Klick nach rechts, mit einem Y-Kabel aufzutrennen."@
    } else {
        "Main liegt auf Ausgang "@ + output_label(routing@.0) + ", Monitor auf Ausgang "@
            + output_label(routing@.1)
            + " - die beiden ueberschneiden sich teilweise, auf dem gemeinsamen Kanal wird summiert und der Klick geht mit in den Saal. Sauber getrennt z.B. mit --bus-out main:1-2 --bus-out monitor:3-4."@
    }
}

/// The sentence to print about a routing, or `None` when the two buses are properly apart.
///
/// Deliberately one sentence and deliberately not a warning that repeats itself: it is printed once
/// at startup and shown once in the setup panel.
pub fn routing_note(routing: &BusRouting, channels: usize) -> (r: Option<String>)
    requires
        routing.bounded(),
        routing@.0.countable(),
        routing@.1.countable(),
    ensures
        r is Some <==> ranges_overlap(routing@.0, routing@.1),
        r matches Some(note) ==> note@ == overlap_note(*routing, channels as nat),
{
    if !routing.overlaps() {
        return None;
    }
    let main = routing.get(Bus::Main);
    let monitor = routing.get(Bus::Monitor);
    let mut out = String::new();
    if !routing.collapsed() {
        out.append("Main liegt auf Ausgang ");
        out.append(main.label().as_str());
        out.append(", Monitor auf Ausgang ");
        out.append(monitor.label().as_str());
        out.append(" - die beiden ueberschneiden sich teilweise, auf dem gemeinsamen Kanal wird summiert und der Klick geht mit in den Saal. Sauber getrennt z.B. mit --bus-out main:1-2 --bus-out monitor:3-4.");
        return Some(out);
    }
    if channels < 4 {
        out.append("Das Geraet hat ");
        push_decimal(&mut out, channels as u64);
        out.append(" Ausgangskanaele. Getrennte Busse brauchen vier. Main und Monitor liegen deshalb beide auf Ausgang ");
        out.append(main.label().as_str());
    } else {
        out.append("Main und Monitor liegen beide auf Ausgang ");
        out.append(main.label().as_str());
        out.append(" - das Geraet haette mit ");
        push_decimal(&mut out, channels as u64);
        out.append(" Kanaelen Platz fuer getrennte Paare");
    }
    out.append(": es gibt einen Weg hinaus und damit eine Mischung. Jede Quelle klingt darin genau einmal, die Lautstaerken bleiben also, wie sie waeren - aber der Klick geht mit in den Saal, und die Monitor-Lautstaerke hat nichts, was sie getrennt regeln koennte. Mit vier Ausgaengen: --bus-out main:1-2 --bus-out monitor:3-4. Notbehelf mit zweien: --bus-out main:1 --bus-out monitor:2 legt den Mix nach links und den Klick nach rechts, mit einem Y-Kabel aufzutrennen.");
    Some(out)
}

// ---------------------------------------------------------------------------------------------
// Laws
// ---------------------------------------------------------------------------------------------

/// Nothing in a text is a `w`.
spec fn without_w(text: Seq<char>) -> bool {
    forall|i: int| 0 <= i < text.len() ==> #[trigger] text[i] != 'w'
}

proof fn lemma_label_is_without_w(out: BusOutput)
    ensures
        without_w(output_label(out)),
{
    lemma_decimal_digits((out.first + 1) as nat);
    lemma_decimal_digits((out.first + 2) as nat);
    reveal_strlit("-");
    let first = decimal((out.first + 1) as nat);
    let second = decimal((out.first + 2) as nat);
    assert forall|i: int| 0 <= i < output_label(out).len() implies #[trigger] output_label(out)[i]
        != 'w' by {
        if i < first.len() {
            assert(is_digit(first[i]));
        } else if i > first.len() {
            assert(is_digit(second[i - first.len() - 1]));
        }
    }
}

proof fn lemma_head_is_without_w(out: BusOutput, channels: nat)
    ensures
        without_w(collapsed_head(out, channels)),
{
    lemma_label_is_without_w(out);
    lemma_decimal_digits(channels);
    let count = decimal(channels);
    assert(without_w(count)) by {
        assert forall|i: int| 0 <= i < count.len() implies #[trigger] count[i] != 'w' by {
            assert(is_digit(count[i]));
        }
    }
    if channels < 4 {
        reveal_strlit("Das Geraet hat ");
        assert(without_w("Das Geraet hat "@));
        reveal_strlit(
            " Ausgangskanaele. Getrennte Busse brauchen vier. Main und Monitor liegen deshalb beide auf Ausgang ",
        );
        assert(without_w(
            " Ausgangskanaele. Getrennte Busse brauchen vier. Main und Monitor liegen deshalb beide auf Ausgang "@,
        ));
    } else {
        reveal_strlit("Main und Monitor liegen beide auf Ausgang ");
        assert(without_w("Main und Monitor liegen beide auf Ausgang "@));
        reveal_strlit(" - das Geraet haette mit ");
        assert(without_w(" - das Geraet haette mit "@));
        reveal_strlit(" Kanaelen Platz fuer getrennte Paare");
        assert(without_w(" Kanaelen Platz fuer getrennte Paare"@));
    }
}

/// The note tells the two cases apart: it says `teilweise` exactly where the buses share some of
/// their channels and not all of them.
pub proof fn a_note_says_whether_the_buses_share_all(routing: BusRouting, channels: nat)
    ensures
        holds(overlap_note(routing, channels), "teilweise"@) <==> routing@.0 != routing@.1,
{
    let text = overlap_note(routing, channels);
    let word = "teilweise"@;
    reveal_strlit("teilweise");
    if routing@.0 == routing@.1 {
        let head = collapsed_head(routing@.0, channels);
        let tail = ": es gibt einen Weg hinaus und damit eine Mischung. Jede Quelle klingt darin genau einmal, die Lautstaerken bleiben also, wie sie waeren - aber der Klick geht mit in den Saal, und die Monitor-Lautstaerke hat nichts, was sie getrennt regeln koennte. Mit vier Ausgaengen: --bus-out main:1-2 --bus-out monitor:3-4. Notbehelf mit zweien: --bus-out main:1 --bus-out monitor:2 legt den Mix nach links und den Klick nach rechts, mit einem Y-Kabel aufzutrennen."@;
        lemma_head_is_without_w(routing@.0, channels);
        lemma_tail_has_no_lw();
        if holds(text, word) {
            let at = choose|at: int| stands_at(text, word, at);
            let found = text.subrange(at, at + 9);
            assert(found[3] == text[at + 3] && found[4] == text[at + 4]);
            let k = at + 4 - head.len();
            if k < 0 {
                assert(head[at + 4] == 'w');
            } else {
                assert(tail[k] == 'w');
                if k > 0 {
                    assert(tail[k - 1] == 'l');
                }
            }
        }
    } else {
        let head = "Main liegt auf Ausgang "@ + output_label(routing@.0) + ", Monitor auf Ausgang "@
            + output_label(routing@.1);
        let tail = " - die beiden ueberschneiden sich teilweise, auf dem gemeinsamen Kanal wird summiert und der Klick geht mit in den Saal. Sauber getrennt z.B. mit --bus-out main:1-2 --bus-out monitor:3-4."@;
        reveal_strlit(
            " - die beiden ueberschneiden sich teilweise, auf dem gemeinsamen Kanal wird summiert und der Klick geht mit in den Saal. Sauber getrennt z.B. mit --bus-out main:1-2 --bus-out monitor:3-4.",
        );
        let at: int = head.len() as int + 34;
        assert(text.subrange(at, at + 9) =~= word);
        assert(stands_at(text, word, at));
    }
}

proof fn lemma_tail_has_no_lw()
    ensures
        ({
            let tail = ": es gibt einen Weg hinaus und damit eine Mischung. Jede Quelle klingt darin genau einmal, die Lautstaerken bleiben also, wie sie waeren - aber der Klick geht mit in den Saal, und die Monitor-Lautstaerke hat nichts, was sie getrennt regeln koennte. Mit vier Ausgaengen: --bus-out main:1-2 --bus-out monitor:3-4. Notbehelf mit zweien: --bus-out main:1 --bus-out monitor:2 legt den Mix nach links und den Klick nach rechts, mit einem Y-Kabel aufzutrennen."@;
            &&& tail.len() > 0 && tail[0] == ':'
            &&& forall|k: int|
                0 < k < tail.len() && #[trigger] tail[k] == 'w' ==> tail[k - 1] != 'l'
        }),
{
    reveal_strlit(
        ": es gibt einen Weg hinaus und damit eine Mischung. Jede Quelle klingt darin genau einmal, die Lautstaerken bleiben also, wie sie waeren - aber der Klick geht mit in den Saal, und die Monitor-Lautstaerke hat nichts, was sie getrennt regeln koennte. Mit vier Ausgaengen: --bus-out main:1-2 --bus-out monitor:3-4. Notbehelf mit zweien: --bus-out main:1 --bus-out monitor:2 legt den Mix nach links und den Klick nach rechts, mit einem Y-Kabel aufzutrennen.",
    );
}

/// The two buses of a send are independent: setting one decides that one and leaves the other.
pub proof fn a_send_is_two_independent_switches(send: BusSend, bus: Bus, other: Bus, on: bool)
    ensures
        send.spec_with(bus, on).feeds(bus) == on,
        other != bus ==> send.spec_with(bus, on).feeds(other) == send.feeds(other),
{
}

/// A send is determined by the buses it feeds.
pub proof fn a_send_is_the_buses_it_feeds(a: BusSend, b: BusSend)
    requires
        forall|bus: Bus| a.feeds(bus) == b.feeds(bus),
    ensures
        a == b,
{
    assert(a.feeds(Bus::Main) == b.feeds(Bus::Main));
    assert(a.feeds(Bus::Monitor) == b.feeds(Bus::Monitor));
}

/// A clamped output lies on channels the device has, for every device with an output at all.
pub proof fn a_clamped_output_fits(out: BusOutput, channels: usize)
    requires
        channels > 0,
    ensures
        clamped_output(out, channels as int).first + clamped_output(out, channels as int).width
            <= channels,
        1 <= clamped_output(out, channels as int).width <= 2,
{
}

/// Clamping changes nothing about an output the device can already carry, so it changes nothing
/// the second time.
pub proof fn clamping_keeps_what_fits(out: BusOutput, channels: usize)
    requires
        1 <= out.width <= 2,
        out.first + out.width <= channels,
    ensures
        clamped_output(out, channels as int) == out,
{
}

/// Clamping twice is clamping once.
pub proof fn clamping_is_idempotent(out: BusOutput, channels: usize)
    ensures
        clamped_output(clamped_output(out, channels as int), channels as int) == clamped_output(
            out,
            channels as int,
        ),
{
}

/// Nothing panned to one side is lost: a pair whose right half does not exist is folded onto its left
/// half.
pub proof fn a_pair_without_its_right_half_is_folded(out: BusOutput, channels: usize)
    requires
        out.width == 2,
        out.first + 1 == channels,
    ensures
        clamped_output(out, channels as int) == (BusOutput { first: out.first, width: 1 }),
{
}

/// A pair that is out of reach altogether stays a pair on every device that has two channels.
pub proof fn a_pair_out_of_reach_stays_a_pair(out: BusOutput, channels: usize)
    requires
        out.width == 2,
        2 <= channels <= out.first,
    ensures
        clamped_output(out, channels as int) == (BusOutput {
            first: (channels - 2) as usize,
            width: 2,
        }),
{
}

/// Two buses that leave somewhere overlap exactly when they share a device channel.
pub proof fn overlapping_is_sharing_a_channel(a: BusOutput, b: BusOutput)
    requires
        a.width > 0,
        b.width > 0,
    ensures
        ranges_overlap(a, b) <==> share_a_channel(a, b),
{
    if ranges_overlap(a, b) {
        let channel: int = if a.first >= b.first {
            a.first as int
        } else {
            b.first as int
        };
        assert(a.covers(channel) && b.covers(channel));
    }
}

/// The default routing keeps the buses apart exactly where there are at least four channels.
pub proof fn the_default_routing_splits_from_four_channels_on(channels: usize)
    ensures
        ({
            let main = clamped_output(BusOutput { first: 0, width: 2 }, channels as int);
            let monitor = clamped_output(
                BusOutput {
                    first: if channels >= 4 {
                        2
                    } else {
                        0
                    },
                    width: 2,
                },
                channels as int,
            );
            share_a_channel(main, monitor) <==> channels < 4
        }),
{
    let main = clamped_output(BusOutput { first: 0, width: 2 }, channels as int);
    let monitor = clamped_output(
        BusOutput {
            first: if channels >= 4 {
                2
            } else {
                0
            },
            width: 2,
        },
        channels as int,
    );
    if channels < 4 {
        assert(main.covers(0) && monitor.covers(0));
    }
}

/// The words a bus is written with read back as that bus.
pub proof fn bus_names_read_back(bus: Bus)
    ensures
        bus_of_word(ascii_lower(trimmed(bus_name(bus)))) == Some(bus),
{
    reveal_strlit("main");
    reveal_strlit("monitor");
    reveal_strlit("pa");
    reveal_strlit("saal");
    assert(ascii_lower("main"@) =~= "main"@);
    assert(ascii_lower("monitor"@) =~= "monitor"@);
    assert("monitor"@.len() != "main"@.len());
    assert("monitor"@.len() != "pa"@.len());
    assert("monitor"@.len() != "saal"@.len());
}

/// The words a source is written with read back as that source.
pub proof fn source_names_read_back(source: TrackSource)
    ensures
        source_of_word(ascii_lower(trimmed(source_name(source)))) == Some(source),
{
    reveal_strlit("loop");
    reveal_strlit("monitor");
    reveal_strlit("wiedergabe");
    assert(ascii_lower("loop"@) =~= "loop"@);
    assert(ascii_lower("monitor"@) =~= "monitor"@);
    assert("monitor"@.len() != "loop"@.len());
    assert("monitor"@.len() != "wiedergabe"@.len());
}

/// The words a send is written with read back as that send.
pub proof fn send_names_read_back(send: BusSend)
    ensures
        send_of_text(send_name(send)) == Some(send),
{
    reveal_strlit("none");
    reveal_strlit("main");
    reveal_strlit("monitor");
    reveal_strlit("main+monitor");
    reveal_strlit("aus");
    reveal_strlit("-");
    reveal_strlit("both");
    reveal_strlit("beide");
    reveal_strlit("alle");
    reveal_strlit("+,/");
    bus_names_read_back(Bus::Main);
    bus_names_read_back(Bus::Monitor);
    let separators = "+,/"@;
    assert(separators =~= seq!['+', ',', '/']);
    assert(separators[0] == '+');
    let none = Seq::<Seq<char>>::empty();
    assert(send_of_parts(none) == Some(BusSend::Nowhere));
    let name = send_name(send);
    assert(trimmed(name) == name);
    assert(ascii_lower(name) =~= name);
    match send {
        BusSend::Nowhere => {
            assert(ascii_lower(trimmed("none"@)) == "none"@);
        },
        BusSend::Main => {
            assert("main"@[0] == 'm' && "none"@[0] == 'n' && "both"@[0] == 'b' && "alle"@[0]
                == 'a');
            split_of_one_word("main"@, separators);
            assert(seq!["main"@].drop_last() =~= none);
            assert(send_of_text("main"@) == Some(BusSend::Main));
        },
        BusSend::Monitor => {
            split_of_one_word("monitor"@, separators);
            assert(seq!["monitor"@].drop_last() =~= none);
            assert(send_of_text("monitor"@) == Some(BusSend::Monitor));
        },
        BusSend::Both => {
            split_of_one_word("main"@, separators);
            split_at_the_last_separator("main"@, '+', "monitor"@, separators);
            assert("main+monitor"@ =~= "main"@.push('+') + "monitor"@);
            let parts = split(name, separators);
            assert(parts.drop_last() =~= seq!["main"@]);
            assert(seq!["main"@].drop_last() =~= none);
            assert(send_of_parts(seq!["main"@]) == Some(BusSend::Main));
            assert(parts.last() == "monitor"@);
            assert(send_of_parts(parts) == Some(BusSend::Both));
            assert(send_of_text("main+monitor"@) == Some(BusSend::Both));
        },
    }
}

/// What a routing puts on a device channel, bus by bus: exactly the buses whose output covers that
/// channel, and nothing on a channel that neither bus leaves on.
pub proof fn a_bus_reaches_exactly_its_own_channels(out: BusOutput, channel: int)
    requires
        1 <= out.width <= 2,
    ensures
        out.covers(channel) <==> (channel == out.first || (out.width == 2 && channel == out.first
            + 1)),
{
}

/// Names of buses add up: a list of them feeds exactly the buses it names, and a list with anything
/// else in it is none.
pub proof fn named_buses_add_up(parts: Seq<Seq<char>>, bus: Bus, i: int)
    requires
        0 <= i < parts.len(),
    ensures
        bus_of_word(ascii_lower(trimmed(parts[i]))) is None ==> send_of_parts(parts) is None,
        bus_of_word(ascii_lower(trimmed(parts[i]))) == Some(bus) ==> (send_of_parts(parts)
            matches Some(send) ==> send.feeds(bus)),
        (forall|k: int|
            0 <= k < parts.len() ==> bus_of_word(ascii_lower(trimmed(#[trigger] parts[k])))
                is Some) ==> send_of_parts(parts) is Some,
        (forall|k: int|
            0 <= k < parts.len() ==> bus_of_word(ascii_lower(trimmed(#[trigger] parts[k])))
                != Some(bus)) ==> (send_of_parts(parts) matches Some(send) ==> !send.feeds(bus)),
    decreases parts.len(),
{
    let fewer = parts.drop_last();
    let last = parts.len() - 1;
    assert(parts[last as int] == parts.last());
    assert(forall|k: int| 0 <= k < fewer.len() ==> fewer[k] == parts[k]);
    if fewer.len() > 0 {
        let k = if i < fewer.len() {
            i
        } else {
            0
        };
        named_buses_add_up(fewer, bus, k);
        if let Some(send) = send_of_parts(fewer) {
            if let Some(named) = bus_of_word(ascii_lower(trimmed(parts.last()))) {
                a_send_is_two_independent_switches(send, named, bus, true);
            }
        }
    } else {
        assert(send_of_parts(fewer) == Some(BusSend::Nowhere));
    }
}

/// A routing names its outputs by bus, and the two buses have two places.
pub proof fn a_routing_has_an_output_for_each_bus(routing: BusRouting)
    ensures
        routing.output(Bus::Main) == routing@.0,
        routing.output(Bus::Monitor) == routing@.1,
        Bus::Main.spec_index() == 0,
        Bus::Monitor.spec_index() == 1,
{
}

/// A single channel out of reach moves to the last one there is, and a device without outputs gets
/// the first.
pub proof fn a_channel_out_of_reach_moves_to_the_last(out: BusOutput, channels: usize)
    requires
        out.width <= 1,
        out.first >= channels,
    ensures
        channels > 0 ==> clamped_output(out, channels as int) == (BusOutput {
            first: (channels - 1) as usize,
            width: 1,
        }),
        channels == 0 ==> clamped_output(out, 0) == (BusOutput { first: 0, width: 1 }),
{
}

/// Outputs are named as they are printed on the device, from one, and a pair by both of its
/// channels.
pub proof fn outputs_are_counted_from_one(out: BusOutput)
    ensures
        out.width < 2 ==> output_label(out) == decimal((out.first + 1) as nat),
        out.width >= 2 ==> output_label(out) == decimal((out.first + 1) as nat) + "-"@ + decimal(
            (out.first + 2) as nat,
        ),
{
}

} // verus!
