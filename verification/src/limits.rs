//! How long a loop may be and how much memory a session can take.
use vstd::prelude::*;
use vstd::string::*;
use crate::rounding::{as_double, round_even, rounded_even, to_double};
use crate::text::{decimal, digit, holds, push_decimal, stands_at};
use crate::timeline::{
    a_beat_has_a_length, every_beat_is_within_half_a_sample, the_first_beat_is_at_zero, Timeline,
};
use crate::track::MAX_LAYERS;

verus! {

/// Frames a layer buffer is longer than the loop.
pub const MARGIN: u64 = 64;

/// Bytes in a megabyte.
pub const MEGABYTE: u64 = 0x10_0000;

/// Number of samples the maximum loop needs, plus a small margin. Also the length of one layer
/// buffer: layers are allocated in loop length, never in some blanket maximum.
///
/// Bar boundaries are rounded individually, so `bars` bars are not always the same number of
/// samples; the margin covers that without a second allocation.
pub fn loop_capacity(timeline: &Timeline, bars: u32) -> (r: u64)
    requires
        timeline.reaches(bars * timeline.per_bar()),
        timeline.bar_at(bars as int) + MARGIN <= u64::MAX,
    ensures
        r == timeline.bar_at(bars as int) + MARGIN,
{
    proof {
        use_type_invariant(timeline);
        the_first_beat_is_at_zero(*timeline);
    }
    timeline.span_bars(0, bars) + MARGIN
}

/// What is wrong with a loop of `bars` bars and `len` samples under a compensation of `latency`
/// samples.
pub open spec fn loop_error(len: int, bars: u32, latency: u64) -> Option<Seq<char>> {
    if bars == 0 {
        Some("--bars muss mindestens 1 sein."@)
    } else if len <= latency {
        Some(
            "Der Loop waere mit "@ + decimal(len as nat)
                + " Samples kuerzer als die Latenzkompensation ("@ + decimal(latency as nat)
                + " Samples). Mehr Takte, hoeheres Tempo pruefen oder --latency-samples korrigieren."@,
        )
    } else {
        None
    }
}

/// Validate a loop configuration before any buffer is allocated.
pub fn check_loop(timeline: &Timeline, bars: u32, latency: u64) -> (r: Result<(), String>)
    ensures
        match loop_error(timeline.bars_long(bars as int), bars, latency) {
            Some(text) => r matches Err(e) && e@ == text,
            None => r is Ok,
        },
{
    if bars == 0 {
        return Err("--bars muss mindestens 1 sein.".to_owned());
    }
    let len: u64 = timeline.length_of_bars(bars);
    if len <= latency {
        let mut text = String::new();
        text.append("Der Loop waere mit ");
        push_decimal(&mut text, len);
        text.append(" Samples kuerzer als die Latenzkompensation (");
        push_decimal(&mut text, latency);
        text.append(
            " Samples). Mehr Takte, hoeheres Tempo pruefen oder --latency-samples korrigieren.",
        );
        assert(text@ =~= loop_error(len as int, bars, latency)->0);
        return Err(text);
    }
    Ok(())
}

/// Bytes of all layers of a session and of its stock.
pub open spec fn session_bytes(layer_capacity: int, tracks: int, spares: int) -> int {
    layer_capacity * 4 * (tracks * MAX_LAYERS + spares)
}

/// Memory one full session can occupy at most, in bytes: the number behind the layer ceiling.
pub fn max_memory_bytes(layer_capacity: u64, tracks: usize, spares: usize) -> (r: u64)
    requires
        layer_capacity * 4 <= u64::MAX,
        tracks * MAX_LAYERS + spares <= u64::MAX,
        session_bytes(layer_capacity as int, tracks as int, spares as int) <= u64::MAX,
    ensures
        r == session_bytes(layer_capacity as int, tracks as int, spares as int),
{
    layer_capacity * 4 * (tracks as u64 * MAX_LAYERS as u64 + spares as u64)
}

/// A number of tenths with one decimal.
pub open spec fn one_decimal(n: nat) -> Seq<char> {
    decimal(n / 10) + "."@ + seq![digit(n % 10)]
}

/// The summary of the layer limits.
pub open spec fn limits_text(layer_capacity: u64, tracks: usize, spares: usize) -> Seq<char> {
    let bytes = session_bytes(layer_capacity as int, tracks as int, spares as int);
    "Ebenen:   bis zu "@ + decimal(MAX_LAYERS as nat) + " je Track, "@ + one_decimal(
        rounded_even(40 * as_double(layer_capacity as nat), MEGABYTE as int) as nat,
    ) + " MB je Ebene, hoechstens "@ + decimal(
        rounded_even(as_double(bytes as nat), MEGABYTE as int) as nat,
    ) + " MB fuer "@ + decimal(tracks as nat) + " Tracks"@
}

/// German summary of the layer limits, for the startup banner.
pub fn limits_line(layer_capacity: u64, tracks: usize, spares: usize) -> (r: String)
    requires
        layer_capacity * 4 <= u64::MAX,
        tracks * MAX_LAYERS + spares <= u64::MAX,
        session_bytes(layer_capacity as int, tracks as int, spares as int) <= u64::MAX,
    ensures
        r@ == limits_text(layer_capacity, tracks, spares),
{
    let bytes: u64 = max_memory_bytes(layer_capacity, tracks, spares);
    let tenths: u128 = round_even(40 * to_double(layer_capacity), MEGABYTE as u128);
    let megabytes: u128 = round_even(to_double(bytes), MEGABYTE as u128);
    proof {
        lemma_rounding_is_close(40 * as_double(layer_capacity as nat), MEGABYTE as int);
        lemma_rounding_is_close(as_double(bytes as nat), MEGABYTE as int);
    }
    let mut r = String::new();
    r.append("Ebenen:   bis zu ");
    push_decimal(&mut r, MAX_LAYERS as u64);
    r.append(" je Track, ");
    push_decimal(&mut r, (tenths / 10) as u64);
    r.append(".");
    r.push((48u8 + (tenths % 10) as u8) as char);
    r.append(" MB je Ebene, hoechstens ");
    push_decimal(&mut r, megabytes as u64);
    r.append(" MB fuer ");
    push_decimal(&mut r, tracks as u64);
    r.append(" Tracks");
    assert(r@ =~= limits_text(layer_capacity, tracks, spares));
    r
}

proof fn lemma_rounding_is_close(n: int, d: int)
    requires
        n >= 0,
        d == MEGABYTE,
    ensures
        0 <= rounded_even(n, d) <= n / d + 1,
        n / d <= n / 0x10_0000,
{
}

// ---------------------------------------------------------------------------------------------
// Laws
// ---------------------------------------------------------------------------------------------

/// A take of `bars` bars fits a buffer of this capacity whichever bar it starts on: the boundaries
/// are rounded one by one, so such a stretch is at most one sample longer than the first one.
pub proof fn a_take_fits_from_any_bar(timeline: Timeline, from: int, bars: int)
    requires
        timeline.wf(),
    ensures
        timeline.bar_at(from + bars) - timeline.bar_at(from) <= timeline.bar_at(bars) + 1,
        timeline.bar_at(from + bars) - timeline.bar_at(from) <= timeline.bar_at(bars) + MARGIN,
{
    let k = timeline.per_bar() as int;
    let over = timeline.over();
    let length = timeline.length();
    let (a, b, c) = (from * k, (from + bars) * k, bars * k);
    every_beat_is_within_half_a_sample(timeline, a);
    every_beat_is_within_half_a_sample(timeline, b);
    every_beat_is_within_half_a_sample(timeline, c);
    a_beat_has_a_length(timeline);
    let (at_a, at_b, at_c) = (timeline.beat_at(a), timeline.beat_at(b), timeline.beat_at(c));
    assert(b * length == a * length + c * length) by (nonlinear_arith)
        requires
            a == from * k,
            b == (from + bars) * k,
            c == bars * k,
    ;
    let extra = at_b - at_a - at_c;
    assert(extra * over == at_b * over - at_a * over - at_c * over) by (nonlinear_arith)
        requires
            extra == at_b - at_a - at_c,
    ;
    assert(extra <= 1) by (nonlinear_arith)
        requires
            2 * (extra * over) <= 3 * over,
            over > 0,
    ;
}

/// The check passes exactly the loops that have a bar and outlast the compensation, and the two
/// refusals are told apart: only the one about the length names the compensation.
pub proof fn a_loop_passes_exactly_if_it_outlasts_the_compensation(
    timeline: Timeline,
    bars: u32,
    latency: u64,
)
    ensures
        ({
            let len = timeline.bars_long(bars as int);
            let error = loop_error(len, bars, latency);
            &&& error is None <==> bars >= 1 && len > latency
            &&& bars == 0 ==> error == Some("--bars muss mindestens 1 sein."@)
            &&& bars >= 1 && len <= latency ==> error is Some && holds(
                error->0,
                "Latenzkompensation"@,
            )
        }),
{
    let len = timeline.bars_long(bars as int);
    if bars >= 1 && len <= latency {
        let text = loop_error(len, bars, latency)->0;
        let head = "Der Loop waere mit "@ + decimal(len as nat);
        let middle = " Samples kuerzer als die Latenzkompensation ("@;
        let word = "Latenzkompensation"@;
        reveal_strlit(" Samples kuerzer als die Latenzkompensation (");
        reveal_strlit("Latenzkompensation");
        assert(middle.subrange(25, 43) =~= word);
        let at: int = head.len() as int + 25;
        assert forall|i: int| 0 <= i < 18 implies #[trigger] text[at + i] == word[i] by {
            assert(text[at + i] == middle[25 + i]);
            assert(middle.subrange(25, 43)[i] == middle[25 + i]);
        }
        assert(text.subrange(at, at + 18) =~= word);
        assert(stands_at(text, word, at));
    }
}

/// A loop that passed the check is longer than the compensation, and its buffer is longer still.
pub proof fn a_checked_loop_outlasts_the_compensation(timeline: Timeline, bars: u32, latency: u64)
    requires
        loop_error(timeline.bar_at(bars as int), bars, latency) is None,
    ensures
        bars >= 1,
        latency < timeline.bar_at(bars as int) < timeline.bar_at(bars as int) + MARGIN,
{
}

/// Four bytes a frame: one more buffer in stock costs one layer, one more track as many as it can
/// hold, and nothing costs nothing.
pub proof fn memory_grows_by_whole_layers(layer_capacity: int, tracks: int, spares: int)
    ensures
        session_bytes(layer_capacity, tracks, spares + 1) - session_bytes(
            layer_capacity,
            tracks,
            spares,
        ) == 4 * layer_capacity,
        session_bytes(layer_capacity, tracks + 1, spares) - session_bytes(
            layer_capacity,
            tracks,
            spares,
        ) == 4 * 32 * layer_capacity,
        session_bytes(layer_capacity, 0, 0) == 0,
{
    let c = layer_capacity;
    let n = tracks * MAX_LAYERS + spares;
    assert(c * 4 * (n + 1) == c * 4 * n + 4 * c) by (nonlinear_arith);
    assert(c * 4 * (n + 32) == c * 4 * n + 4 * 32 * c) by (nonlinear_arith);
    assert((tracks + 1) * MAX_LAYERS == tracks * MAX_LAYERS + 32) by (nonlinear_arith)
        requires
            MAX_LAYERS == 32,
    ;
    assert(c * 4 * 0 == 0) by (nonlinear_arith);
}

} // verus!
