//! Device selection and stream configuration.
//!
//! Every tool takes the same set of device flags, so device matching and the check of sample rate,
//! channels, format and buffer live here exactly once. Nothing is ever silently replaced: what a
//! device cannot do is explained in German, with the list of what it can.
use vstd::prelude::*;
use vstd::string::*;
use crate::rounding::{divide_to_hundredths, quotient_hundredths};
use crate::schedule::{push_quoted, quoted};
use crate::single::{push_two_decimals, two_decimals};
use crate::text::{
    ascii_lower,
    contains,
    decimal,
    holds,
    join,
    joined,
    lower,
    push_decimal,
    same_text,
    texts,
    to_ascii_lower,
    to_lowercase,
};

verus! {

/// Flags shared by every tool that opens an audio device.
#[derive(Debug)]
pub struct DeviceOpts {
    /// Audio host: `wasapi` or `asio`.
    pub host: String,
    /// Part of the device name, in any case; None takes the default device.
    pub device: Option<String>,
    pub rate: u32,
    /// Buffer size in frames.
    pub buffer: u32,
    /// None takes what the device reports as its default.
    pub in_channels: Option<u16>,
    pub out_channels: Option<u16>,
    /// Request the buffer size even though the device reports another range.
    pub force_buffer: bool,
}

#[derive(Clone, Copy, Debug, PartialEq, Eq, Structural)]
pub enum Direction {
    Input,
    Output,
}

pub open spec fn direction_label(dir: Direction) -> Seq<char> {
    match dir {
        Direction::Input => "Eingang"@,
        Direction::Output => "Ausgang"@,
    }
}

impl Direction {
    pub fn label(self) -> (r: &'static str)
        ensures
            r@ == direction_label(self),
    {
        match self {
            Direction::Input => "Eingang",
            Direction::Output => "Ausgang",
        }
    }
}

/// How a device delivers its samples. All processing happens in single precision: that format needs
/// no conversion at all, and the two integer formats are converted.
#[derive(Debug)]
pub enum SampleFormat {
    F32,
    I32,
    I16,
    /// A format nothing here understands, by its name.
    Other(String),
}

/// A format, as mathematics.
pub enum FormatModel {
    F32,
    I32,
    I16,
    Other(Seq<char>),
}

impl View for SampleFormat {
    type V = FormatModel;

    open spec fn view(&self) -> FormatModel {
        match self {
            SampleFormat::F32 => FormatModel::F32,
            SampleFormat::I32 => FormatModel::I32,
            SampleFormat::I16 => FormatModel::I16,
            SampleFormat::Other(name) => FormatModel::Other(name@),
        }
    }
}

pub open spec fn format_name(format: FormatModel) -> Seq<char> {
    match format {
        FormatModel::F32 => "F32"@,
        FormatModel::I32 => "I32"@,
        FormatModel::I16 => "I16"@,
        FormatModel::Other(name) => name,
    }
}

impl SampleFormat {
    pub fn name(&self) -> (r: String)
        ensures
            r@ == format_name(self@),
    {
        match self {
            SampleFormat::F32 => "F32".to_owned(),
            SampleFormat::I32 => "I32".to_owned(),
            SampleFormat::I16 => "I16".to_owned(),
            SampleFormat::Other(name) => name.as_str().to_owned(),
        }
    }

    fn copied(&self) -> (r: SampleFormat)
        ensures
            r@ == self@,
    {
        match self {
            SampleFormat::F32 => SampleFormat::F32,
            SampleFormat::I32 => SampleFormat::I32,
            SampleFormat::I16 => SampleFormat::I16,
            SampleFormat::Other(name) => SampleFormat::Other(name.as_str().to_owned()),
        }
    }
}

/// The sentence about a format that cannot be converted.
pub fn unsupported_format(format: &SampleFormat) -> (r: String)
    ensures
        r@ == "Sample-Format "@ + format_name(format@)
            + " wird von diesem Werkzeug nicht unterstuetzt (nur F32, I32, I16)."@,
{
    let mut r = String::new();
    r.append("Sample-Format ");
    r.append(format.name().as_str());
    r.append(" wird von diesem Werkzeug nicht unterstuetzt (nur F32, I32, I16).");
    assert(r@ =~= "Sample-Format "@ + format_name(format@)
        + " wird von diesem Werkzeug nicht unterstuetzt (nur F32, I32, I16)."@);
    r
}

/// The buffer sizes a device reports, in frames.
#[derive(Clone, Copy, Debug, PartialEq, Eq, Structural)]
pub enum BufferRange {
    Range { min: u32, max: u32 },
    Unknown,
}

pub open spec fn buffer_text(range: BufferRange) -> Seq<char> {
    match range {
        BufferRange::Range { min, max } => decimal(min as nat) + ".."@ + decimal(max as nat)
            + " Frames"@,
        BufferRange::Unknown => "unbekannt"@,
    }
}

pub fn describe_buffer_size(range: &BufferRange) -> (r: String)
    ensures
        r@ == buffer_text(*range),
{
    match *range {
        BufferRange::Range { min, max } => {
            let mut r = String::new();
            push_decimal(&mut r, min as u64);
            r.append("..");
            push_decimal(&mut r, max as u64);
            r.append(" Frames");
            assert(r@ =~= buffer_text(*range));
            r
        },
        BufferRange::Unknown => "unbekannt".to_owned(),
    }
}

/// The smallest and the largest buffer, where the driver reports something usable.
pub fn buffer_range(range: &BufferRange) -> (r: (Option<u32>, Option<u32>))
    ensures
        r == (match *range {
            BufferRange::Range { min, max } => (Some(min), Some(max)),
            BufferRange::Unknown => (None, None),
        }),
{
    match *range {
        BufferRange::Range { min, max } => (Some(min), Some(max)),
        BufferRange::Unknown => (None, None),
    }
}

/// One configuration a device supports.
#[derive(Debug)]
pub struct ConfigRange {
    pub channels: u16,
    pub min_rate: u32,
    pub max_rate: u32,
    pub format: SampleFormat,
    pub buffer: BufferRange,
}

/// A configuration, as mathematics.
pub struct RangeModel {
    pub channels: u16,
    pub min_rate: u32,
    pub max_rate: u32,
    pub format: FormatModel,
    pub buffer: BufferRange,
}

impl View for ConfigRange {
    type V = RangeModel;

    open spec fn view(&self) -> RangeModel {
        RangeModel {
            channels: self.channels,
            min_rate: self.min_rate,
            max_rate: self.max_rate,
            format: self.format@,
            buffer: self.buffer,
        }
    }
}

pub open spec fn range_models(ranges: Seq<ConfigRange>) -> Seq<RangeModel> {
    ranges.map_values(|r: ConfigRange| r@)
}

pub open spec fn range_text(range: RangeModel) -> Seq<char> {
    decimal(range.channels as nat) + " Kanaele, "@ + decimal(range.min_rate as nat) + ".."@
        + decimal(range.max_rate as nat) + " Hz, "@ + format_name(range.format) + ", Puffer "@
        + buffer_text(range.buffer)
}

pub fn describe_range(range: &ConfigRange) -> (r: String)
    ensures
        r@ == range_text(range@),
{
    let mut r = String::new();
    push_decimal(&mut r, range.channels as u64);
    r.append(" Kanaele, ");
    push_decimal(&mut r, range.min_rate as u64);
    r.append("..");
    push_decimal(&mut r, range.max_rate as u64);
    r.append(" Hz, ");
    r.append(range.format.name().as_str());
    r.append(", Puffer ");
    r.append(describe_buffer_size(&range.buffer).as_str());
    assert(r@ =~= range_text(range@));
    r
}

// ---------------------------------------------------------------------------------------------
// Choosing a configuration
// ---------------------------------------------------------------------------------------------

/// Whether a configuration has the channels and the rate that are asked for, where they are.
pub open spec fn suits(range: RangeModel, channels: Option<u16>, rate: Option<u32>) -> bool {
    &&& channels matches Some(c) ==> range.channels == c
    &&& rate matches Some(hz) ==> range.min_rate <= hz <= range.max_rate
}

/// The configurations that suit, as they are listed.
pub open spec fn listed(
    ranges: Seq<RangeModel>,
    channels: Option<u16>,
    rate: Option<u32>,
) -> Seq<Seq<char>>
    decreases ranges.len(),
{
    if ranges.len() == 0 {
        Seq::empty()
    } else {
        let before = listed(ranges.drop_last(), channels, rate);
        if suits(ranges.last(), channels, rate) {
            before.push(range_text(ranges.last()))
        } else {
            before
        }
    }
}

/// The first configuration of a format that suits.
pub open spec fn first_of(
    ranges: Seq<RangeModel>,
    channels: u16,
    rate: u32,
    format: FormatModel,
) -> Option<int>
    decreases ranges.len(),
{
    if ranges.len() == 0 {
        None
    } else {
        match first_of(ranges.drop_last(), channels, rate, format) {
            Some(i) => Some(i),
            None => if suits(ranges.last(), Some(channels), Some(rate)) && ranges.last().format
                == format {
                Some(ranges.len() - 1)
            } else {
                None
            },
        }
    }
}

/// The configuration that is taken: the first in single precision, else the first in 32-bit, else the
/// first in 16-bit integers.
pub open spec fn chosen(ranges: Seq<RangeModel>, channels: u16, rate: u32) -> Option<int> {
    match first_of(ranges, channels, rate, FormatModel::F32) {
        Some(i) => Some(i),
        None => match first_of(ranges, channels, rate, FormatModel::I32) {
            Some(i) => Some(i),
            None => first_of(ranges, channels, rate, FormatModel::I16),
        },
    }
}

/// Everything needed to build one stream.
#[derive(Debug)]
pub struct StreamPlan {
    pub channels: u16,
    pub sample_rate: u32,
    /// Requested buffer size in frames; None leaves it to the driver.
    pub buffer_size: Option<u32>,
    pub format: SampleFormat,
    /// What the device claims it can do, for the record.
    pub reported_buffer: BufferRange,
    /// Set where a buffer size is requested that the device does not report.
    pub warning: Option<String>,
}

/// A plan, as mathematics.
pub struct PlanModel {
    pub channels: u16,
    pub sample_rate: u32,
    pub buffer_size: Option<u32>,
    pub format: FormatModel,
    pub reported_buffer: BufferRange,
    pub warning: Option<Seq<char>>,
}

impl View for StreamPlan {
    type V = PlanModel;

    open spec fn view(&self) -> PlanModel {
        PlanModel {
            channels: self.channels,
            sample_rate: self.sample_rate,
            buffer_size: self.buffer_size,
            format: self.format@,
            reported_buffer: self.reported_buffer,
            warning: match self.warning {
                Some(text) => Some(text@),
                None => None,
            },
        }
    }
}

impl StreamPlan {
    pub fn buffer_frames(&self) -> (r: u32)
        ensures
            r == (match self.buffer_size {
                Some(frames) => frames,
                None => 0,
            }),
    {
        match self.buffer_size {
            Some(frames) => frames,
            None => 0,
        }
    }
}

pub open spec fn channels_error(
    device: Seq<char>,
    dir: Direction,
    channels: u16,
    list: Seq<Seq<char>>,
) -> Seq<char> {
    "Geraet "@ + quoted(device) + " kann am "@ + direction_label(dir) + " keine "@ + decimal(
        channels as nat,
    ) + " Kanaele. Unterstuetzt:\n  "@ + joined(list, "\n  "@)
}

pub open spec fn rate_error(
    device: Seq<char>,
    dir: Direction,
    rate: u32,
    channels: u16,
    list: Seq<Seq<char>>,
) -> Seq<char> {
    "Geraet "@ + quoted(device) + " kann am "@ + direction_label(dir) + " keine "@ + decimal(
        rate as nat,
    ) + " Hz bei "@ + decimal(channels as nat) + " Kanaelen. Unterstuetzt:\n  "@ + joined(
        list,
        "\n  "@,
    )
}

pub open spec fn format_error(
    device: Seq<char>,
    dir: Direction,
    rate: u32,
    list: Seq<Seq<char>>,
) -> Seq<char> {
    "Geraet "@ + quoted(device) + " bietet am "@ + direction_label(dir) + " bei "@ + decimal(
        rate as nat,
    ) + " Hz keins der unterstuetzten Formate (F32, I32, I16). Vorhanden:\n  "@ + joined(
        list,
        "\n  "@,
    )
}

pub open spec fn buffer_error(
    device: Seq<char>,
    dir: Direction,
    rate: u32,
    buffer: u32,
    min: u32,
    max: u32,
) -> Seq<char> {
    "Puffergroesse "@ + decimal(buffer as nat) + " Frames wird am "@ + direction_label(dir)
        + " nicht unterstuetzt. Geraet "@ + quoted(device) + " meldet bei "@ + decimal(rate as nat)
        + " Hz nur "@ + decimal(min as nat) + ".."@ + decimal(max as nat)
        + " Frames.\nMoeglichkeiten:\n  - mit --buffer "@ + decimal(min as nat)
        + " messen (das ist die Geraeteperiode im WASAPI-Shared-Mode)\n  - ASIO nutzen: --host asio --buffer "@
        + decimal(buffer as nat)
        + " (Binary mit --features asio bauen)\n  - --force-buffer setzen, um "@ + decimal(
        buffer as nat,
    )
        + " Frames trotzdem anzufordern (dann steht im Ergebnis, was der Treiber daraus macht)"@
}

pub open spec fn forced_text(dir: Direction, buffer: u32, min: u32, max: u32) -> Seq<char> {
    "Warnung: --force-buffer aktiv. "@ + decimal(buffer as nat) + " Frames werden am "@
        + direction_label(dir) + " angefordert, obwohl das Geraet "@ + decimal(min as nat) + ".."@
        + decimal(max as nat) + " meldet."@
}

/// The plan for a stream on a device that offers `ranges`, or the sentence that says why there is
/// none.
pub open spec fn resolved(
    device: Seq<char>,
    dir: Direction,
    rate: u32,
    buffer: u32,
    force: bool,
    ranges: Seq<RangeModel>,
    channels: u16,
) -> Result<PlanModel, Seq<char>> {
    if listed(ranges, Some(channels), None).len() == 0 {
        Err(channels_error(device, dir, channels, listed(ranges, None, None)))
    } else if listed(ranges, Some(channels), Some(rate)).len() == 0 {
        Err(rate_error(device, dir, rate, channels, listed(ranges, Some(channels), None)))
    } else {
        match chosen(ranges, channels, rate) {
            None => Err(
                format_error(device, dir, rate, listed(ranges, Some(channels), Some(rate))),
            ),
            Some(i) => {
                let plan = PlanModel {
                    channels,
                    sample_rate: rate,
                    buffer_size: Some(buffer),
                    format: ranges[i].format,
                    reported_buffer: ranges[i].buffer,
                    warning: None,
                };
                match ranges[i].buffer {
                    BufferRange::Range { min, max } => if min <= buffer <= max {
                        Ok(plan)
                    } else if force {
                        Ok(
                            PlanModel {
                                warning: Some(forced_text(dir, buffer, min, max)),
                                ..plan
                            },
                        )
                    } else {
                        Err(buffer_error(device, dir, rate, buffer, min, max))
                    },
                    BufferRange::Unknown => Ok(plan),
                }
            },
        }
    }
}

fn is_suited(range: &ConfigRange, channels: Option<u16>, rate: Option<u32>) -> (r: bool)
    ensures
        r == suits(range@, channels, rate),
{
    let right_channels: bool = match channels {
        Some(c) => range.channels == c,
        None => true,
    };
    let right_rate: bool = match rate {
        Some(hz) => range.min_rate <= hz && hz <= range.max_rate,
        None => true,
    };
    right_channels && right_rate
}

fn list(ranges: &Vec<ConfigRange>, channels: Option<u16>, rate: Option<u32>) -> (r: Vec<String>)
    ensures
        texts(r@) == listed(range_models(ranges@), channels, rate),
{
    let ghost all = range_models(ranges@);
    let mut r: Vec<String> = Vec::new();
    let mut i: usize = 0;
    assert(texts(r@) =~= listed(all.subrange(0, 0), channels, rate));
    while i < ranges.len()
        invariant
            all == range_models(ranges@),
            i <= ranges.len(),
            texts(r@) == listed(all.subrange(0, i as int), channels, rate),
        decreases ranges.len() - i,
    {
        let ghost now = all.subrange(0, i + 1);
        assert(now.drop_last() =~= all.subrange(0, i as int));
        assert(now.last() == ranges@[i as int]@);
        if is_suited(&ranges[i], channels, rate) {
            let ghost before = r@;
            let line: String = describe_range(&ranges[i]);
            r.push(line);
            assert(texts(r@) =~= texts(before).push(line@));
        }
        i = i + 1;
    }
    assert(all.subrange(0, i as int) =~= all);
    r
}

fn find(ranges: &Vec<ConfigRange>, channels: u16, rate: u32, format: &SampleFormat) -> (r: Option<
    usize,
>)
    requires
        !(format is Other),
    ensures
        match first_of(range_models(ranges@), channels, rate, format@) {
            Some(i) => r matches Some(n) && n == i && i < ranges@.len(),
            None => r is None,
        },
{
    let ghost all = range_models(ranges@);
    let mut i: usize = 0;
    while i < ranges.len()
        invariant
            all == range_models(ranges@),
            i <= ranges.len(),
            !(format is Other),
            first_of(all.subrange(0, i as int), channels, rate, format@) is None,
        decreases ranges.len() - i,
    {
        let same: bool = match (&ranges[i].format, format) {
            (SampleFormat::F32, SampleFormat::F32) => true,
            (SampleFormat::I32, SampleFormat::I32) => true,
            (SampleFormat::I16, SampleFormat::I16) => true,
            _ => false,
        };
        let ghost now = all.subrange(0, i + 1);
        assert(now.drop_last() =~= all.subrange(0, i as int));
        assert(now.last() == ranges@[i as int]@);
        if same && is_suited(&ranges[i], Some(channels), Some(rate)) {
            proof {
                lemma_first_stays(all, channels, rate, format@, i + 1);
            }
            return Some(i);
        }
        i = i + 1;
    }
    assert(all.subrange(0, i as int) =~= all);
    None
}

proof fn lemma_first_stays(
    ranges: Seq<RangeModel>,
    channels: u16,
    rate: u32,
    format: FormatModel,
    n: int,
)
    requires
        0 <= n <= ranges.len(),
        first_of(ranges.subrange(0, n), channels, rate, format) is Some,
    ensures
        first_of(ranges, channels, rate, format) == first_of(
            ranges.subrange(0, n),
            channels,
            rate,
            format,
        ),
    decreases ranges.len(),
{
    if n == ranges.len() {
        assert(ranges.subrange(0, n) =~= ranges);
    } else {
        assert(ranges.drop_last().subrange(0, n) =~= ranges.subrange(0, n));
        lemma_first_stays(ranges.drop_last(), channels, rate, format, n);
    }
}

fn tell_channels(
    device: &str,
    dir: Direction,
    channels: u16,
    list: &Vec<String>,
) -> (r: String)
    ensures
        r@ == channels_error(device@, dir, channels, texts(list@)),
{
    let mut r = String::new();
    r.append("Geraet ");
    push_quoted(&mut r, device);
    r.append(" kann am ");
    r.append(dir.label());
    r.append(" keine ");
    push_decimal(&mut r, channels as u64);
    r.append(" Kanaele. Unterstuetzt:\n  ");
    r.append(join(list, "\n  ").as_str());
    assert(r@ =~= channels_error(device@, dir, channels, texts(list@)));
    r
}

fn tell_rate(device: &str, dir: Direction, rate: u32, channels: u16, list: &Vec<String>) -> (r:
    String)
    ensures
        r@ == rate_error(device@, dir, rate, channels, texts(list@)),
{
    let mut r = String::new();
    r.append("Geraet ");
    push_quoted(&mut r, device);
    r.append(" kann am ");
    r.append(dir.label());
    r.append(" keine ");
    push_decimal(&mut r, rate as u64);
    r.append(" Hz bei ");
    push_decimal(&mut r, channels as u64);
    r.append(" Kanaelen. Unterstuetzt:\n  ");
    r.append(join(list, "\n  ").as_str());
    assert(r@ =~= rate_error(device@, dir, rate, channels, texts(list@)));
    r
}

fn tell_format(device: &str, dir: Direction, rate: u32, list: &Vec<String>) -> (r: String)
    ensures
        r@ == format_error(device@, dir, rate, texts(list@)),
{
    let mut r = String::new();
    r.append("Geraet ");
    push_quoted(&mut r, device);
    r.append(" bietet am ");
    r.append(dir.label());
    r.append(" bei ");
    push_decimal(&mut r, rate as u64);
    r.append(" Hz keins der unterstuetzten Formate (F32, I32, I16). Vorhanden:\n  ");
    r.append(join(list, "\n  ").as_str());
    assert(r@ =~= format_error(device@, dir, rate, texts(list@)));
    r
}

fn tell_buffer(device: &str, dir: Direction, rate: u32, buffer: u32, min: u32, max: u32) -> (r:
    String)
    ensures
        r@ == buffer_error(device@, dir, rate, buffer, min, max),
{
    let mut r = String::new();
    r.append("Puffergroesse ");
    push_decimal(&mut r, buffer as u64);
    r.append(" Frames wird am ");
    r.append(dir.label());
    r.append(" nicht unterstuetzt. Geraet ");
    push_quoted(&mut r, device);
    r.append(" meldet bei ");
    push_decimal(&mut r, rate as u64);
    r.append(" Hz nur ");
    push_decimal(&mut r, min as u64);
    r.append("..");
    push_decimal(&mut r, max as u64);
    r.append(" Frames.\nMoeglichkeiten:\n  - mit --buffer ");
    push_decimal(&mut r, min as u64);
    r.append(
        " messen (das ist die Geraeteperiode im WASAPI-Shared-Mode)\n  - ASIO nutzen: --host asio --buffer ",
    );
    push_decimal(&mut r, buffer as u64);
    r.append(" (Binary mit --features asio bauen)\n  - --force-buffer setzen, um ");
    push_decimal(&mut r, buffer as u64);
    r.append(
        " Frames trotzdem anzufordern (dann steht im Ergebnis, was der Treiber daraus macht)",
    );
    assert(r@ =~= buffer_error(device@, dir, rate, buffer, min, max));
    r
}

fn tell_forced(dir: Direction, buffer: u32, min: u32, max: u32) -> (r: String)
    ensures
        r@ == forced_text(dir, buffer, min, max),
{
    let mut r = String::new();
    r.append("Warnung: --force-buffer aktiv. ");
    push_decimal(&mut r, buffer as u64);
    r.append(" Frames werden am ");
    r.append(dir.label());
    r.append(" angefordert, obwohl das Geraet ");
    push_decimal(&mut r, min as u64);
    r.append("..");
    push_decimal(&mut r, max as u64);
    r.append(" meldet.");
    assert(r@ =~= forced_text(dir, buffer, min, max));
    r
}

/// The plan for a stream with the requested rate, buffer and channels, or a German sentence that says
/// why the device cannot do it. `channels` is what was asked for or what the device has by default;
/// where that could not be read, the sentence about it.
pub fn resolve_config(
    device: &str,
    dir: Direction,
    opts: &DeviceOpts,
    ranges: &Vec<ConfigRange>,
    channels: Result<u16, String>,
) -> (r: Result<StreamPlan, String>)
    ensures
        ranges@.len() == 0 ==> (r matches Err(e) && e@ == "Geraet "@ + quoted(device@)
            + " meldet keine "@ + direction_label(dir) + "-Konfigurationen."@),
        ranges@.len() > 0 ==> match channels {
            Err(text) => r matches Err(e) && e@ == text@,
            Ok(c) => match resolved(
                device@,
                dir,
                opts.rate,
                opts.buffer,
                opts.force_buffer,
                range_models(ranges@),
                c,
            ) {
                Ok(plan) => r matches Ok(p) && p@ == plan,
                Err(text) => r matches Err(e) && e@ == text,
            },
        },
{
    if ranges.len() == 0 {
        let mut text = String::new();
        text.append("Geraet ");
        push_quoted(&mut text, device);
        text.append(" meldet keine ");
        text.append(dir.label());
        text.append("-Konfigurationen.");
        assert(text@ =~= "Geraet "@ + quoted(device@) + " meldet keine "@ + direction_label(dir)
            + "-Konfigurationen."@);
        return Err(text);
    }
    let channels: u16 = match channels {
        Ok(c) => c,
        Err(text) => {
            return Err(text);
        },
    };
    let by_channels: Vec<String> = list(ranges, Some(channels), None);
    assert(texts(by_channels@).len() == by_channels@.len());
    if by_channels.len() == 0 {
        return Err(tell_channels(device, dir, channels, &list(ranges, None, None)));
    }
    let by_rate: Vec<String> = list(ranges, Some(channels), Some(opts.rate));
    assert(texts(by_rate@).len() == by_rate@.len());
    if by_rate.len() == 0 {
        return Err(tell_rate(device, dir, opts.rate, channels, &by_channels));
    }
    let place: Option<usize> = match find(ranges, channels, opts.rate, &SampleFormat::F32) {
        Some(i) => Some(i),
        None => match find(ranges, channels, opts.rate, &SampleFormat::I32) {
            Some(i) => Some(i),
            None => find(ranges, channels, opts.rate, &SampleFormat::I16),
        },
    };
    let place: usize = match place {
        Some(i) => i,
        None => {
            return Err(tell_format(device, dir, opts.rate, &by_rate));
        },
    };
    assert(range_models(ranges@)[place as int] == ranges@[place as int]@);
    let mut warning: Option<String> = None;
    if let BufferRange::Range { min, max } = ranges[place].buffer {
        if opts.buffer < min || opts.buffer > max {
            if !opts.force_buffer {
                return Err(tell_buffer(device, dir, opts.rate, opts.buffer, min, max));
            }
            warning = Some(tell_forced(dir, opts.buffer, min, max));
        }
    }
    Ok(
        StreamPlan {
            channels,
            sample_rate: opts.rate,
            buffer_size: Some(opts.buffer),
            format: ranges[place].format.copied(),
            reported_buffer: ranges[place].buffer,
            warning,
        },
    )
}

/// Conversion scratch space, in multiples of the requested buffer size.
pub const SCRATCH_FACTOR: u32 = 16;

/// Length of the conversion scratch space in samples: a multiple of the channel count, so every pass
/// covers whole frames.
pub open spec fn scratch_of(buffer_size: Option<u32>, channels: u16) -> int {
    let frames = match buffer_size {
        Some(frames) => if frames == 0 {
            1
        } else {
            frames as int
        },
        None => 1024,
    };
    frames * SCRATCH_FACTOR * channels
}

pub fn scratch_samples(plan: &StreamPlan) -> (r: usize)
    requires
        scratch_of(plan.buffer_size, plan.channels) <= usize::MAX,
    ensures
        r == scratch_of(plan.buffer_size, plan.channels),
{
    let frames: u32 = match plan.buffer_size {
        Some(frames) => if frames == 0 {
            1
        } else {
            frames
        },
        None => 1024,
    };
    assert(0 <= frames * SCRATCH_FACTOR * plan.channels <= 0xffff_ffff * 16 * 0xffff)
        by (nonlinear_arith)
        requires
            0 <= frames <= 0xffff_ffff,
            SCRATCH_FACTOR == 16,
            0 <= plan.channels <= 0xffff,
    ;
    let samples: u64 = frames as u64 * SCRATCH_FACTOR as u64 * plan.channels as u64;
    samples as usize
}

// ---------------------------------------------------------------------------------------------
// Choosing a device
// ---------------------------------------------------------------------------------------------

/// A device a host lists.
#[derive(Debug)]
pub struct Candidate {
    pub name: String,
    /// Whether it has the direction that is wanted.
    pub fits: bool,
}

/// Whether a device is one the user could mean: its name holds what was typed, in any case.
pub open spec fn meant(candidate: Candidate, needle: Seq<char>) -> bool {
    candidate.fits && holds(lower(candidate.name@), lower(needle))
}

/// The names of the devices that fit.
pub open spec fn fitting(candidates: Seq<Candidate>) -> Seq<Seq<char>>
    decreases candidates.len(),
{
    if candidates.len() == 0 {
        Seq::empty()
    } else {
        let before = fitting(candidates.drop_last());
        if candidates.last().fits {
            before.push(candidates.last().name@)
        } else {
            before
        }
    }
}

/// The devices the user could mean.
pub open spec fn all_meant(candidates: Seq<Candidate>, needle: Seq<char>) -> Seq<int>
    decreases candidates.len(),
{
    if candidates.len() == 0 {
        Seq::empty()
    } else {
        let before = all_meant(candidates.drop_last(), needle);
        if meant(candidates.last(), needle) {
            before.push(candidates.len() - 1)
        } else {
            before
        }
    }
}

/// The device that is taken, and what is said where there were several.
#[derive(Debug)]
pub struct Picked {
    pub index: usize,
    pub hint: Option<String>,
}

/// The sentence about several devices.
pub open spec fn hint_text(count: nat, needle: Seq<char>, taken: Seq<char>) -> Seq<char> {
    "Hinweis: "@ + decimal(count) + " Geraete passen auf "@ + quoted(needle) + ", nehme "@ + quoted(
        taken,
    ) + "."@
}

/// The sentence about a name that fits no device.
pub open spec fn no_device_text(dir: Direction, needle: Seq<char>, all: Seq<Seq<char>>) -> Seq<
    char,
> {
    "Kein "@ + direction_label(dir) + " passt auf "@ + quoted(needle) + ". Vorhanden:\n  "@ + joined(
        all,
        "\n  "@,
    )
}

/// Pick a device by part of its name: the first that fits. Where nothing fits, the sentence lists
/// what there is.
pub fn pick_device(candidates: &Vec<Candidate>, needle: &str, dir: Direction) -> (r: Result<
    Picked,
    String,
>)
    ensures
        ({
            let found = all_meant(candidates@, needle@);
            if found.len() == 0 {
                r matches Err(e) && e@ == no_device_text(dir, needle@, fitting(candidates@))
            } else {
                &&& r matches Ok(picked)
                &&& picked.index == found[0]
                &&& picked.index < candidates@.len()
                &&& match picked.hint {
                    Some(text) => found.len() > 1 && text@ == hint_text(
                        found.len(),
                        needle@,
                        candidates@[found[0]].name@,
                    ),
                    None => found.len() == 1,
                }
            }
        }),
{
    let wanted: String = to_lowercase(needle);
    let mut all: Vec<String> = Vec::new();
    let mut first: usize = 0;
    let mut count: usize = 0;
    let mut i: usize = 0;
    assert(candidates@.subrange(0, 0) =~= Seq::<Candidate>::empty());
    assert(texts(all@) =~= fitting(candidates@.subrange(0, 0)));
    while i < candidates.len()
        invariant
            i <= candidates.len(),
            wanted@ == lower(needle@),
            texts(all@) == fitting(candidates@.subrange(0, i as int)),
            count == all_meant(candidates@.subrange(0, i as int), needle@).len(),
            count <= i,
            count > 0 ==> first < i && first == all_meant(
                candidates@.subrange(0, i as int),
                needle@,
            )[0],
        decreases candidates.len() - i,
    {
        let ghost now = candidates@.subrange(0, i + 1);
        assert(now.drop_last() =~= candidates@.subrange(0, i as int));
        assert(now.last() == candidates@[i as int]);
        if candidates[i].fits {
            let ghost before = all@;
            let name: &str = candidates[i].name.as_str();
            all.push(name.to_owned());
            assert(texts(all@) =~= texts(before).push(name@));
            let lowered: String = to_lowercase(name);
            if contains(lowered.as_str(), wanted.as_str()) {
                if count == 0 {
                    first = i;
                }
                count = count + 1;
            }
        }
        i = i + 1;
    }
    assert(candidates@.subrange(0, i as int) =~= candidates@);
    if count == 0 {
        let mut text = String::new();
        text.append("Kein ");
        text.append(dir.label());
        text.append(" passt auf ");
        push_quoted(&mut text, needle);
        text.append(". Vorhanden:\n  ");
        text.append(join(&all, "\n  ").as_str());
        assert(text@ =~= no_device_text(dir, needle@, fitting(candidates@)));
        return Err(text);
    }
    let hint: Option<String> = if count > 1 {
        let mut text = String::new();
        text.append("Hinweis: ");
        push_decimal(&mut text, count as u64);
        text.append(" Geraete passen auf ");
        push_quoted(&mut text, needle);
        text.append(", nehme ");
        push_quoted(&mut text, candidates[first].name.as_str());
        text.append(".");
        assert(text@ =~= hint_text(count as nat, needle@, candidates@[first as int].name@));
        Some(text)
    } else {
        None
    };
    Ok(Picked { index: first, hint })
}

/// The sentence about a host without a default device.
pub fn no_default(dir: Direction) -> (r: String)
    ensures
        r@ == "Kein Standard-"@ + direction_label(dir) + " auf diesem Host gefunden."@,
{
    let mut r = String::new();
    r.append("Kein Standard-");
    r.append(dir.label());
    r.append(" auf diesem Host gefunden.");
    assert(r@ =~= "Kein Standard-"@ + direction_label(dir) + " auf diesem Host gefunden."@);
    r
}

// ---------------------------------------------------------------------------------------------
// Hosts
// ---------------------------------------------------------------------------------------------

/// Whether the ASIO backend is part of this build, as a sentence.
pub fn asio_status(built: bool) -> (r: &'static str)
    ensures
        r@ == asio_text(built),
{
    if built {
        "ASIO ist eingebaut (Feature \"asio\")."
    } else {
        "ASIO ist NICHT eingebaut. Neu bauen mit: cargo build --release --features asio"
    }
}

pub open spec fn asio_text(built: bool) -> Seq<char> {
    if built {
        "ASIO ist eingebaut (Feature \"asio\")."@
    } else {
        "ASIO ist NICHT eingebaut. Neu bauen mit: cargo build --release --features asio"@
    }
}

pub open spec fn unknown_host_text(
    name: Seq<char>,
    error: Seq<char>,
    available: Seq<Seq<char>>,
    asio: bool,
) -> Seq<char> {
    if ascii_lower(name) == "asio"@ {
        "ASIO-Host nicht verfuegbar: "@ + error + ". "@ + asio_text(asio)
    } else {
        "Host "@ + quoted(name) + " unbekannt: "@ + error + ". Verfuegbar auf diesem System: "@
            + joined(available, ", "@)
    }
}

/// The sentence about a host that is not there. `error` is what the audio library says, `asio`
/// whether the ASIO backend is part of the build.
pub fn unknown_host(name: &str, error: &str, available: &Vec<String>, asio: bool) -> (r: String)
    ensures
        r@ == unknown_host_text(name@, error@, texts(available@), asio),
{
    let mut r = String::new();
    if same_text(to_ascii_lower(name).as_str(), "asio") {
        r.append("ASIO-Host nicht verfuegbar: ");
        r.append(error);
        r.append(". ");
        r.append(asio_status(asio));
    } else {
        r.append("Host ");
        push_quoted(&mut r, name);
        r.append(" unbekannt: ");
        r.append(error);
        r.append(". Verfuegbar auf diesem System: ");
        r.append(join(available, ", ").as_str());
    }
    assert(r@ =~= unknown_host_text(name@, error@, texts(available@), asio));
    r
}

// ---------------------------------------------------------------------------------------------
// Listing
// ---------------------------------------------------------------------------------------------

pub open spec fn device_text(name: Seq<char>, default_input: bool, default_output: bool) -> Seq<
    char,
> {
    "  Geraet: "@ + name + (if default_input && default_output {
        "  [STANDARD-EINGANG + STANDARD-AUSGANG]"@
    } else if default_input {
        "  [STANDARD-EINGANG]"@
    } else if default_output {
        "  [STANDARD-AUSGANG]"@
    } else {
        ""@
    })
}

/// The line that introduces a device, with what it is the default for.
pub fn device_line(name: &str, default_input: bool, default_output: bool) -> (r: String)
    ensures
        r@ == device_text(name@, default_input, default_output),
{
    let mut r = String::new();
    r.append("  Geraet: ");
    r.append(name);
    r.append(
        if default_input && default_output {
            "  [STANDARD-EINGANG + STANDARD-AUSGANG]"
        } else if default_input {
            "  [STANDARD-EINGANG]"
        } else if default_output {
            "  [STANDARD-AUSGANG]"
        } else {
            ""
        },
    );
    assert(r@ =~= device_text(name@, default_input, default_output));
    r
}

/// What one direction of a device offers: a heading, a line per configuration and the default one.
pub open spec fn direction_lines(
    dir: Direction,
    ranges: Seq<RangeModel>,
    default: Option<Seq<char>>,
) -> Seq<Seq<char>> {
    if ranges.len() == 0 {
        Seq::empty()
    } else {
        let head = seq!["    "@ + direction_label(dir) + "-Konfigurationen:"@];
        let body = Seq::new(ranges.len(), |i: int| "      - "@ + range_text(ranges[i]));
        match default {
            Some(text) => (head + body).push("      Standard: "@ + text),
            None => head + body,
        }
    }
}

/// What one direction of a device offers. `default` is the default configuration, described.
pub fn list_direction(dir: Direction, ranges: &Vec<ConfigRange>, default: Option<&str>) -> (r: Vec<
    String,
>)
    ensures
        texts(r@) == direction_lines(
            dir,
            range_models(ranges@),
            match default {
                Some(text) => Some(text@),
                None => None,
            },
        ),
{
    let mut r: Vec<String> = Vec::new();
    if ranges.len() == 0 {
        assert(texts(r@) =~= Seq::<Seq<char>>::empty());
        return r;
    }
    let ghost all = range_models(ranges@);
    let ghost head = seq!["    "@ + direction_label(dir) + "-Konfigurationen:"@];
    let mut line = String::new();
    line.append("    ");
    line.append(dir.label());
    line.append("-Konfigurationen:");
    assert(line@ =~= head[0]);
    r.push(line);
    let mut i: usize = 0;
    assert(texts(r@) =~= head + Seq::new(0, |j: int| "      - "@ + range_text(all[j])));
    while i < ranges.len()
        invariant
            all == range_models(ranges@),
            i <= ranges.len(),
            texts(r@) == head + Seq::new(i as nat, |j: int| "      - "@ + range_text(all[j])),
        decreases ranges.len() - i,
    {
        let ghost before = r@;
        let mut line = String::new();
        line.append("      - ");
        line.append(describe_range(&ranges[i]).as_str());
        assert(all[i as int] == ranges@[i as int]@);
        assert(line@ =~= "      - "@ + range_text(all[i as int]));
        r.push(line);
        assert(texts(r@) =~= texts(before).push(line@));
        assert(texts(r@) =~= head + Seq::new(
            (i + 1) as nat,
            |j: int| "      - "@ + range_text(all[j]),
        ));
        i = i + 1;
    }
    if let Some(text) = default {
        let ghost before = r@;
        let mut line = String::new();
        line.append("      Standard: ");
        line.append(text);
        assert(line@ =~= "      Standard: "@ + text@);
        r.push(line);
        assert(texts(r@) =~= texts(before).push(line@));
    }
    r
}

/// The line about the format of a duplex stream.
pub open spec fn setup_text(rate: u32, buffer: u32) -> Seq<char> {
    "Format:   "@ + decimal(rate as nat) + " Hz, "@ + decimal(buffer as nat)
        + " Frames Puffer angefordert ("@ + two_decimals(
        quotient_hundredths((buffer * 1000) as nat, rate as nat) as nat,
    ) + " ms pro Puffer)"@
}

pub fn setup_line(rate: u32, buffer: u32) -> (r: String)
    requires
        rate > 0,
    ensures
        r@ == setup_text(rate, buffer),
{
    let mut r = String::new();
    r.append("Format:   ");
    push_decimal(&mut r, rate as u64);
    r.append(" Hz, ");
    push_decimal(&mut r, buffer as u64);
    r.append(" Frames Puffer angefordert (");
    push_two_decimals(&mut r, divide_to_hundredths(buffer as u64 * 1000, rate));
    r.append(" ms pro Puffer)");
    assert(r@ =~= setup_text(rate, buffer));
    r
}

// ---------------------------------------------------------------------------------------------
// Laws
// ---------------------------------------------------------------------------------------------

proof fn lemma_first_is_right(
    ranges: Seq<RangeModel>,
    channels: u16,
    rate: u32,
    format: FormatModel,
)
    ensures
        first_of(ranges, channels, rate, format) matches Some(i) ==> {
            &&& 0 <= i < ranges.len()
            &&& suits(ranges[i], Some(channels), Some(rate))
            &&& ranges[i].format == format
        },
    decreases ranges.len(),
{
    if ranges.len() > 0 {
        lemma_first_is_right(ranges.drop_last(), channels, rate, format);
    }
}

/// Nothing is silently replaced: an accepted plan has the channels, the rate and the buffer that were
/// asked for, and the device offers that combination.
pub proof fn a_plan_is_what_was_asked_for(
    device: Seq<char>,
    dir: Direction,
    rate: u32,
    buffer: u32,
    force: bool,
    ranges: Seq<RangeModel>,
    channels: u16,
)
    requires
        resolved(device, dir, rate, buffer, force, ranges, channels) is Ok,
    ensures
        ({
            let plan = resolved(device, dir, rate, buffer, force, ranges, channels)->Ok_0;
            &&& plan.channels == channels
            &&& plan.sample_rate == rate
            &&& plan.buffer_size == Some(buffer)
            &&& !(plan.format is Other)
            &&& exists|i: int|
                {
                    &&& 0 <= i < ranges.len()
                    &&& suits(#[trigger] ranges[i], Some(channels), Some(rate))
                    &&& ranges[i].format == plan.format
                    &&& ranges[i].buffer == plan.reported_buffer
                }
            &&& plan.reported_buffer matches BufferRange::Range { min, max } ==> (min <= buffer
                <= max) || (force && plan.warning is Some)
        }),
{
    lemma_first_is_right(ranges, channels, rate, FormatModel::F32);
    lemma_first_is_right(ranges, channels, rate, FormatModel::I32);
    lemma_first_is_right(ranges, channels, rate, FormatModel::I16);
    let i = chosen(ranges, channels, rate)->0;
    assert(suits(ranges[i], Some(channels), Some(rate)));
}

proof fn lemma_no_first(ranges: Seq<RangeModel>, channels: u16, rate: u32, format: FormatModel, i: int)
    requires
        0 <= i < ranges.len(),
        suits(ranges[i], Some(channels), Some(rate)),
        ranges[i].format == format,
    ensures
        first_of(ranges, channels, rate, format) is Some,
    decreases ranges.len(),
{
    if i < ranges.len() - 1 {
        assert(ranges.drop_last()[i] == ranges[i]);
        lemma_no_first(ranges.drop_last(), channels, rate, format, i);
    }
}

/// Single precision is taken wherever it is offered at that rate with those channels, so nothing is
/// converted that need not be.
pub proof fn single_precision_is_preferred(ranges: Seq<RangeModel>, channels: u16, rate: u32, i: int)
    requires
        0 <= i < ranges.len(),
        suits(ranges[i], Some(channels), Some(rate)),
        ranges[i].format == FormatModel::F32,
    ensures
        chosen(ranges, channels, rate) matches Some(k) && 0 <= k < ranges.len() && ranges[k].format
            == FormatModel::F32,
{
    lemma_no_first(ranges, channels, rate, FormatModel::F32, i);
    lemma_first_is_right(ranges, channels, rate, FormatModel::F32);
}

/// What a device offers is taken: where it has the channels and the rate in one of the three formats,
/// and no such offer excludes the buffer size or the size is forced, there is a plan.
pub proof fn an_offer_is_taken(
    device: Seq<char>,
    dir: Direction,
    rate: u32,
    buffer: u32,
    force: bool,
    ranges: Seq<RangeModel>,
    channels: u16,
    i: int,
)
    requires
        0 <= i < ranges.len(),
        suits(ranges[i], Some(channels), Some(rate)),
        ranges[i].format == FormatModel::F32 || ranges[i].format == FormatModel::I32
            || ranges[i].format == FormatModel::I16,
        force || forall|k: int|
            0 <= k < ranges.len() ==> ((#[trigger] ranges[k]).buffer matches BufferRange::Range {
                min,
                max,
            } ==> min <= buffer <= max),
    ensures
        resolved(device, dir, rate, buffer, force, ranges, channels) is Ok,
{
    lemma_suitable_is_listed(ranges, Some(channels), None, i);
    lemma_suitable_is_listed(ranges, Some(channels), Some(rate), i);
    lemma_no_first(ranges, channels, rate, ranges[i].format, i);
    lemma_first_is_right(ranges, channels, rate, FormatModel::F32);
    lemma_first_is_right(ranges, channels, rate, FormatModel::I32);
    lemma_first_is_right(ranges, channels, rate, FormatModel::I16);
    let k = chosen(ranges, channels, rate)->0;
    assert(0 <= k < ranges.len());
}

proof fn lemma_suitable_is_listed(
    ranges: Seq<RangeModel>,
    channels: Option<u16>,
    rate: Option<u32>,
    i: int,
)
    requires
        0 <= i < ranges.len(),
        suits(ranges[i], channels, rate),
    ensures
        listed(ranges, channels, rate).len() > 0,
    decreases ranges.len(),
{
    if i < ranges.len() - 1 {
        lemma_suitable_is_listed(ranges.drop_last(), channels, rate, i);
    }
}

/// Of several offers in the format that is taken, the first is taken, and the wider integers come
/// before the narrower ones.
pub proof fn the_first_offer_of_a_format_is_taken(
    ranges: Seq<RangeModel>,
    channels: u16,
    rate: u32,
    i: int,
)
    requires
        0 <= i < ranges.len(),
        suits(ranges[i], Some(channels), Some(rate)),
    ensures
        chosen(ranges, channels, rate) matches Some(k) ==> 0 <= k < ranges.len() && suits(
            ranges[k],
            Some(channels),
            Some(rate),
        ) && (ranges[k].format == ranges[i].format ==> k <= i) && (ranges[i].format
            == FormatModel::I32 ==> ranges[k].format != FormatModel::I16),
        ranges[i].format == FormatModel::I16 || ranges[i].format == FormatModel::I32
            || ranges[i].format == FormatModel::F32 ==> chosen(ranges, channels, rate) is Some,
{
    lemma_first_is_right(ranges, channels, rate, FormatModel::F32);
    lemma_first_is_right(ranges, channels, rate, FormatModel::I32);
    lemma_first_is_right(ranges, channels, rate, FormatModel::I16);
    lemma_no_first(ranges, channels, rate, ranges[i].format, i);
    lemma_first_is_first(ranges, channels, rate, ranges[i].format, i);
}

proof fn lemma_first_is_first(
    ranges: Seq<RangeModel>,
    channels: u16,
    rate: u32,
    format: FormatModel,
    i: int,
)
    requires
        0 <= i < ranges.len(),
        suits(ranges[i], Some(channels), Some(rate)),
        ranges[i].format == format,
    ensures
        first_of(ranges, channels, rate, format) matches Some(k) && k <= i,
    decreases ranges.len(),
{
    lemma_first_is_right(ranges.drop_last(), channels, rate, format);
    if i < ranges.len() - 1 {
        lemma_first_is_first(ranges.drop_last(), channels, rate, format, i);
    }
}

/// The conversion space holds whole frames, sixteen buffers of them.
pub proof fn the_scratch_space_holds_whole_frames(buffer: u32, channels: u16)
    requires
        buffer > 0,
        channels > 0,
    ensures
        scratch_of(Some(buffer), channels) == 16 * buffer * channels,
        scratch_of(Some(buffer), channels) % (channels as int) == 0,
        scratch_of(None, channels) == 16 * 1024 * channels,
        scratch_of(Some(0), channels) == 16 * channels,
{
    let c = channels as int;
    let b = buffer as int;
    assert(b * 16 * c == 16 * b * c) by (nonlinear_arith);
    vstd::arithmetic::div_mod::lemma_mod_multiples_basic(b * 16, c);
}

/// The devices the user could mean are exactly those that fit and whose name holds what was typed,
/// each once and in the order they are listed.
pub proof fn a_typed_name_means_every_device_that_holds_it(
    candidates: Seq<Candidate>,
    needle: Seq<char>,
    i: int,
)
    requires
        0 <= i < candidates.len(),
    ensures
        all_meant(candidates, needle).contains(i) <==> meant(candidates[i], needle),
        forall|k: int|
            0 <= k < all_meant(candidates, needle).len() ==> 0 <= #[trigger] all_meant(
                candidates,
                needle,
            )[k] < candidates.len(),
        forall|j: int, k: int|
            0 <= j < k < all_meant(candidates, needle).len() ==> #[trigger] all_meant(
                candidates,
                needle,
            )[j] < #[trigger] all_meant(candidates, needle)[k],
{
    lemma_meant_are_in_order(candidates, needle);
    lemma_meant_are_found(candidates, needle, i);
}

proof fn lemma_meant_are_in_order(candidates: Seq<Candidate>, needle: Seq<char>)
    ensures
        forall|k: int|
            0 <= k < all_meant(candidates, needle).len() ==> 0 <= #[trigger] all_meant(
                candidates,
                needle,
            )[k] < candidates.len(),
        forall|j: int, k: int|
            0 <= j < k < all_meant(candidates, needle).len() ==> #[trigger] all_meant(
                candidates,
                needle,
            )[j] < #[trigger] all_meant(candidates, needle)[k],
    decreases candidates.len(),
{
    let all = all_meant(candidates, needle);
    if candidates.len() > 0 {
        let before = all_meant(candidates.drop_last(), needle);
        lemma_meant_are_in_order(candidates.drop_last(), needle);
        assert forall|k: int| 0 <= k < all.len() implies 0 <= #[trigger] all[k]
            < candidates.len() by {
            if k < before.len() {
                assert(all[k] == before[k]);
            }
        }
        assert forall|j: int, k: int| 0 <= j < k < all.len() implies #[trigger] all[j]
            < #[trigger] all[k] by {
            assert(all[j] == before[j]);
            if k < before.len() {
                assert(all[k] == before[k]);
            }
        }
    }
}

proof fn lemma_meant_are_found(candidates: Seq<Candidate>, needle: Seq<char>, i: int)
    requires
        0 <= i < candidates.len(),
    ensures
        all_meant(candidates, needle).contains(i) <==> meant(candidates[i], needle),
    decreases candidates.len(),
{
    let fewer = candidates.drop_last();
    let before = all_meant(fewer, needle);
    let all = all_meant(candidates, needle);
    lemma_meant_are_in_order(fewer, needle);
    if i < fewer.len() {
        lemma_meant_are_found(fewer, needle, i);
        if before.contains(i) {
            let k = choose|k: int| 0 <= k < before.len() && before[k] == i;
            assert(all[k] == i);
        } else if all.contains(i) {
            let k = choose|k: int| 0 <= k < all.len() && all[k] == i;
            assert(before[k] == i);
        }
    } else {
        if meant(candidates.last(), needle) {
            assert(all[all.len() - 1] == i);
        } else if all.contains(i) {
            let k = choose|k: int| 0 <= k < all.len() && all[k] == i;
            assert(before[k] < fewer.len());
        }
    }
}

} // verus!
