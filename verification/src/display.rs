//! The terminal display: one line about the whole, one line per track.
use vstd::prelude::*;
use vstd::string::*;
use crate::command::{state_label, Status, TrackState, TrackStatus};
use crate::host::Counters;
use crate::live::{
    fx_column,
    fx_text,
    is_layer_gain,
    layer_list,
    layers_joined,
    on_off,
    TrackUi,
};
use crate::schedule::Scheduler;
use crate::single::Single;
use crate::text::{
    a_text_holds_what_its_part_holds,
    decimal,
    decimal_text,
    holds,
    push_decimal,
    what_is_put_between_stands_there,
};
use crate::timeline::{a_beat_has_a_length, the_first_beat_is_at_zero, Timeline};

verus! {

/// Width a line is filled up to, so remains of a longer previous line are erased.
pub const LINE_WIDTH: usize = 186;

pub open spec fn blanks(n: nat) -> Seq<char> {
    Seq::new(n, |i: int| ' ')
}

/// A text filled up behind to a width.
pub open spec fn filled(text: Seq<char>, width: nat) -> Seq<char> {
    if text.len() < width {
        text + blanks((width - text.len()) as nat)
    } else {
        text
    }
}

/// A text filled up in front to a width.
pub open spec fn filled_front(text: Seq<char>, width: nat) -> Seq<char> {
    if text.len() < width {
        blanks((width - text.len()) as nat) + text
    } else {
        text
    }
}

fn push_blanks(out: &mut String, n: usize)
    ensures
        final(out)@ == old(out)@ + blanks(n as nat),
{
    let ghost before = out@;
    let mut i: usize = 0;
    assert(before + blanks(0) =~= before);
    while i < n
        invariant
            i <= n,
            out@ == before + blanks(i as nat),
        decreases n - i,
    {
        out.push(' ');
        assert(before + blanks((i + 1) as nat) =~= (before + blanks(i as nat)).push(' '));
        i = i + 1;
    }
}

fn push_filled(out: &mut String, text: &str, width: usize)
    ensures
        final(out)@ == old(out)@ + filled(text@, width as nat),
{
    out.append(text);
    let n: usize = text.unicode_len();
    if n < width {
        push_blanks(out, width - n);
    }
    assert(out@ =~= old(out)@ + filled(text@, width as nat));
}

fn push_filled_front(out: &mut String, text: &str, width: usize)
    ensures
        final(out)@ == old(out)@ + filled_front(text@, width as nat),
{
    let n: usize = text.unicode_len();
    if n < width {
        push_blanks(out, width - n);
    }
    out.append(text);
    assert(out@ =~= old(out)@ + filled_front(text@, width as nat));
}

/// How many of the eight cells of the beat bar behind the first one are full.
pub open spec fn cells(timeline: Timeline, offset: int) -> int {
    let n = 8 * (offset * timeline.over()) / timeline.length();
    if n > 7 {
        7
    } else {
        n
    }
}

/// The beat bar.
pub open spec fn beat_bar(full: int) -> Seq<char> {
    Seq::new(
        8,
        |i: int|
            if i <= full {
                '#'
            } else {
                '.'
            },
    )
}

/// The line about the whole. `seconds`, `bpm` and `level` are numbers as they are written, `grid` is
/// what takes snap to.
pub open spec fn global_text(
    status: Status,
    scheduler: Scheduler,
    counters: Counters,
    seconds: Seq<char>,
    bpm: Seq<char>,
    grid: Seq<char>,
    level: Seq<char>,
) -> Seq<char> {
    "Takt "@ + filled_front(decimal((status.bar + 1) as nat), 4) + " Schlag "@ + decimal(
        (status.beat + 1) as nat,
    ) + "/"@ + decimal(scheduler.timeline.metre().beats_per_bar as nat) + " ["@ + beat_bar(
        cells(scheduler.timeline, status.beat_offset as int),
    ) + "] | Loop "@ + decimal(scheduler.bars as nat) + " Takte = "@ + decimal(
        scheduler.timeline.bar_at(scheduler.bars as int) as nat,
    ) + " Samples = "@ + seconds + " s | "@ + bpm + " BPM | Raster "@ + grid + " | Klick "@ + (
    if status.click {
        "an "@
    } else {
        "aus"@
    }) + " | Aus "@ + level + (if counters.xruns > 0 || counters.underruns > 0 {
        " | Xruns "@ + decimal(counters.xruns as nat) + ", FIFO leer "@ + decimal(
            counters.underruns as nat,
        )
    } else {
        ""@
    }) + (if counters.overruns > 0 {
        " | ACHTUNG "@ + decimal(counters.overruns as nat)
            + " FIFO-Ueberlaeufe: Eingangssamples verloren, Aufnahme verschoben"@
    } else {
        ""@
    })
}

fn push_beat_bar(out: &mut String, full: u64)
    ensures
        final(out)@ == old(out)@ + beat_bar(full as int),
{
    let ghost before = out@;
    let mut i: u64 = 0;
    assert(before + beat_bar(full as int).subrange(0, 0) =~= before);
    while i < 8
        invariant
            i <= 8,
            out@ == before + beat_bar(full as int).subrange(0, i as int),
        decreases 8 - i,
    {
        out.push(
            if i <= full {
                '#'
            } else {
                '.'
            },
        );
        let ghost bar = beat_bar(full as int);
        assert(before + bar.subrange(0, i + 1) =~= (before + bar.subrange(0, i as int)).push(
            bar[i as int],
        ));
        i = i + 1;
    }
    assert(beat_bar(full as int).subrange(0, 8) =~= beat_bar(full as int));
}

/// The line about the whole: bar, beat, loop length, tempo, click, and which grid takes snap to.
pub fn global_line(
    status: &Status,
    scheduler: &Scheduler,
    counters: &Counters,
    seconds: &str,
    bpm: &str,
    grid: &str,
    level: &str,
) -> (r: String)
    requires
        status.bar < u64::MAX,
        status.beat < u32::MAX,
        scheduler.timeline.reaches(scheduler.bars * scheduler.timeline.per_bar()),
    ensures
        r@ == global_text(*status, *scheduler, *counters, seconds@, bpm@, grid@, level@),
{
    proof {
        use_type_invariant(&scheduler.timeline);
        the_first_beat_is_at_zero(scheduler.timeline);
    }
    let full: u64 = scheduler.timeline.eighths(status.beat_offset);
    let mut r = String::new();
    r.append("Takt ");
    push_filled_front(&mut r, decimal_text(status.bar + 1).as_str(), 4);
    r.append(" Schlag ");
    push_decimal(&mut r, status.beat as u64 + 1);
    r.append("/");
    push_decimal(&mut r, scheduler.timeline.signature().beats_per_bar as u64);
    r.append(" [");
    push_beat_bar(&mut r, full);
    r.append("] | Loop ");
    push_decimal(&mut r, scheduler.bars as u64);
    r.append(" Takte = ");
    push_decimal(&mut r, scheduler.timeline.span_bars(0, scheduler.bars));
    r.append(" Samples = ");
    r.append(seconds);
    r.append(" s | ");
    r.append(bpm);
    r.append(" BPM | Raster ");
    r.append(grid);
    r.append(" | Klick ");
    r.append(on_off(status.click));
    r.append(" | Aus ");
    r.append(level);
    if counters.xruns > 0 || counters.underruns > 0 {
        r.append(" | Xruns ");
        push_decimal(&mut r, counters.xruns);
        r.append(", FIFO leer ");
        push_decimal(&mut r, counters.underruns);
    }
    if counters.overruns > 0 {
        r.append(" | ACHTUNG ");
        push_decimal(&mut r, counters.overruns);
        r.append(" FIFO-Ueberlaeufe: Eingangssamples verloren, Aufnahme verschoben");
    }
    proof {
        reveal_strlit("");
    }
    assert(r@ =~= global_text(*status, *scheduler, *counters, seconds@, bpm@, grid@, level@));
    r
}

/// What a track line says about the loop. `seconds` is its length as it is written, or that of the
/// take that is running.
pub open spec fn loop_text(ts: TrackStatus, seconds: Seq<char>) -> Seq<char> {
    if ts.loop_len > 0 {
        seconds + " s"@
    } else if ts.state == TrackState::Recording {
        "laeuft, "@ + seconds + " s"@
    } else {
        "-"@
    }
}

pub open spec fn list_text(ts: TrackStatus, gains: Seq<Single>) -> Seq<char> {
    if ts.layers == 0 {
        "-"@
    } else {
        "["@ + layers_joined(ts.muted_mask, gains, ts.layers as int) + "]"@
    }
}

/// The line about one track. `lead` is how much of the count-in is left, `level` the input level.
pub open spec fn track_text(
    ts: TrackStatus,
    ui: TrackUi,
    seconds: Seq<char>,
    lead: Option<Seq<char>>,
    level: Seq<char>,
    active: bool,
) -> Seq<char> {
    let state = match lead {
        Some(text) => state_label(ts.state) + " - "@ + text,
        None => state_label(ts.state),
    };
    (if active {
        "> "@
    } else {
        "  "@
    }) + filled(ui.name@, 10) + " Ein "@ + decimal((ui.channel + 1) as nat) + " | "@ + filled(
        state,
        34,
    ) + " | Loop "@ + filled_front(loop_text(ts, seconds), 10) + " | Ebenen "@ + filled_front(
        decimal(ts.layers as nat),
        2,
    ) + " "@ + filled(list_text(ts, ui.gains@), 28) + " | Pegel "@ + level + " | Mithoeren "@ + (
    if ts.monitor {
        "an "@
    } else {
        "aus"@
    }) + " | FX "@ + filled(fx_column(ts.fx), 22)
}

/// The line about one track: name, input channel, state, layers, level, monitoring - and, while
/// something is armed, how much of the count-in is left.
pub fn track_line(
    ts: &TrackStatus,
    ui: &TrackUi,
    seconds: &str,
    lead: Option<&str>,
    level: &str,
    active: bool,
) -> (r: String)
    requires
        ui.channel < usize::MAX,
        forall|i: int| 0 <= i < ui.gains@.len() ==> is_layer_gain(#[trigger] ui.gains@[i]),
    ensures
        r@ == track_text(
            *ts,
            *ui,
            seconds@,
            match lead {
                Some(text) => Some(text@),
                None => None,
            },
            level@,
            active,
        ),
{
    let mut state = String::new();
    state.append(ts.state.label());
    if let Some(text) = lead {
        state.append(" - ");
        state.append(text);
    }
    let mut length = String::new();
    if ts.loop_len > 0 {
        length.append(seconds);
        length.append(" s");
    } else if ts.state == TrackState::Recording {
        length.append("laeuft, ");
        length.append(seconds);
        length.append(" s");
    } else {
        length.append("-");
    }
    assert(length@ =~= loop_text(*ts, seconds@));
    let mut r = String::new();
    r.append(
        if active {
            "> "
        } else {
            "  "
        },
    );
    push_filled(&mut r, ui.name.as_str(), 10);
    r.append(" Ein ");
    push_decimal(&mut r, ui.channel as u64 + 1);
    r.append(" | ");
    push_filled(&mut r, state.as_str(), 34);
    r.append(" | Loop ");
    push_filled_front(&mut r, length.as_str(), 10);
    r.append(" | Ebenen ");
    push_filled_front(&mut r, decimal_text(ts.layers as u64).as_str(), 2);
    r.append(" ");
    push_filled(&mut r, layer_list(ts, &ui.gains).as_str(), 28);
    r.append(" | Pegel ");
    r.append(level);
    r.append(" | Mithoeren ");
    r.append(on_off(ts.monitor));
    r.append(" | FX ");
    push_filled(&mut r, fx_text(&ts.fx).as_str(), 22);
    proof {
        let wanted = track_text(
            *ts,
            *ui,
            seconds@,
            match lead {
                Some(text) => Some(text@),
                None => None,
            },
            level@,
            active,
        );
        assert(state@ =~= (match lead {
            Some(text) => state_label(ts.state) + " - "@ + text@,
            None => state_label(ts.state),
        }));
        assert(r@ =~= wanted);
    }
    r
}

/// The block of lines as it is written to the terminal: back over the lines of the block before it,
/// unless the terminal cannot do that, and every line filled up.
pub open spec fn drawn(lines: Seq<Seq<char>>, n: int) -> Seq<char>
    decreases n,
{
    if n <= 0 {
        Seq::empty()
    } else {
        drawn(lines, n - 1) + "\r"@ + filled(lines[n - 1], LINE_WIDTH as nat) + "\n"@
    }
}

pub fn draw(lines: &Vec<String>, previous_lines: usize, simple: bool) -> (r: String)
    ensures
        r@ == (if !simple && previous_lines > 0 {
            "\u{1b}["@ + decimal(previous_lines as nat) + "A"@
        } else {
            Seq::empty()
        }) + drawn(crate::text::texts(lines@), lines@.len() as int),
{
    let ghost all = crate::text::texts(lines@);
    let mut r = String::new();
    if !simple && previous_lines > 0 {
        r.append("\u{1b}[");
        push_decimal(&mut r, previous_lines as u64);
        r.append("A");
    }
    let ghost head = r@;
    let mut i: usize = 0;
    assert(head + drawn(all, 0) =~= head);
    while i < lines.len()
        invariant
            all == crate::text::texts(lines@),
            i <= lines.len(),
            r@ == head + drawn(all, i as int),
        decreases lines.len() - i,
    {
        r.append("\r");
        push_filled(&mut r, lines[i].as_str(), LINE_WIDTH);
        r.append("\n");
        assert(all[i as int] == lines@[i as int]@);
        assert(r@ =~= head + drawn(all, i + 1));
        i = i + 1;
    }
    r
}

/// A text that is filled up stands whole at its end of the field, and the rest is blank. One that is
/// too long is not cut.
pub proof fn filling_up_keeps_the_text(text: Seq<char>, width: nat, i: int)
    ensures
        ({
            let back = filled(text, width);
            let front = filled_front(text, width);
            let most = if text.len() < width {
                width
            } else {
                text.len()
            };
            &&& back.len() == most
            &&& front.len() == most
            &&& 0 <= i < text.len() ==> back[i] == text[i] && front[most - text.len() + i]
                == text[i]
            &&& text.len() <= i < most ==> back[i] == ' '
            &&& 0 <= i < most - text.len() ==> front[i] == ' '
        }),
{
}

/// The beat bar has eight cells and fills up with the beat: one is full at its start, and a further
/// one with every eighth of it.
pub proof fn the_beat_bar_fills_with_the_beat(t: Timeline, offset: int, i: int)
    requires
        t.wf(),
        offset >= 0,
        0 <= i < 8,
    ensures
        beat_bar(cells(t, offset)).len() == 8,
        beat_bar(cells(t, offset))[i] == (if i * t.length() <= 8 * (offset * t.over()) {
            '#'
        } else {
            '.'
        }),
        cells(t, 0) == 0,
{
    a_beat_has_a_length(t);
    let x = 8 * (offset * t.over());
    let a = t.length();
    assert(x >= 0) by (nonlinear_arith)
        requires
            x == 8 * (offset * t.over()),
            offset >= 0,
            t.over() > 0,
    ;
    vstd::arithmetic::div_mod::lemma_fundamental_div_mod(x, a);
    vstd::arithmetic::div_mod::lemma_mod_bound(x, a);
    let q = x / a;
    assert(i <= q <==> i * a <= x) by (nonlinear_arith)
        requires
            x == a * q + x % a,
            0 <= x % a < a,
            a > 0,
    ;
    assert(8 * (0 * t.over()) == 0) by (nonlinear_arith);
    vstd::arithmetic::div_mod::lemma_basic_div(0, a);
}

/// The line above the tracks shows the level that goes out, counts the blocks that were lost and
/// warns of lost input whenever some was lost.
pub proof fn the_line_tells_of_losses(
    status: Status,
    scheduler: Scheduler,
    counters: Counters,
    seconds: Seq<char>,
    bpm: Seq<char>,
    grid: Seq<char>,
    level: Seq<char>,
)
    ensures
        ({
            let text = global_text(status, scheduler, counters, seconds, bpm, grid, level);
            &&& holds(text, level)
            &&& counters.overruns > 0 ==> holds(text, decimal(counters.overruns as nat))
            &&& counters.xruns > 0 ==> holds(text, decimal(counters.xruns as nat))
            &&& counters.underruns > 0 ==> holds(text, decimal(counters.underruns as nat))
        }),
{
    let xruns = decimal(counters.xruns as nat);
    let empty = decimal(counters.underruns as nat);
    let stumbles = if counters.xruns > 0 || counters.underruns > 0 {
        " | Xruns "@ + xruns + ", FIFO leer "@ + empty
    } else {
        ""@
    };
    let lost = decimal(counters.overruns as nat);
    let warning = " FIFO-Ueberlaeufe: Eingangssamples verloren, Aufnahme verschoben"@;
    let losses = if counters.overruns > 0 {
        " | ACHTUNG "@ + lost + warning
    } else {
        ""@
    };
    let front = "Takt "@ + filled_front(decimal((status.bar + 1) as nat), 4) + " Schlag "@
        + decimal((status.beat + 1) as nat) + "/"@ + decimal(
        scheduler.timeline.metre().beats_per_bar as nat,
    ) + " ["@ + beat_bar(cells(scheduler.timeline, status.beat_offset as int)) + "] | Loop "@
        + decimal(scheduler.bars as nat) + " Takte = "@ + decimal(
        scheduler.timeline.bar_at(scheduler.bars as int) as nat,
    ) + " Samples = "@ + seconds + " s | "@ + bpm + " BPM | Raster "@ + grid + " | Klick "@ + (
    if status.click {
        "an "@
    } else {
        "aus"@
    }) + " | Aus "@;
    assert(global_text(status, scheduler, counters, seconds, bpm, grid, level) == front + level
        + stumbles + losses);
    lemma_ends(front, level, stumbles, losses, level, xruns, empty, lost);
    if counters.overruns > 0 {
        what_is_put_between_stands_there(" | ACHTUNG "@, lost, warning);
    }
    if counters.xruns > 0 || counters.underruns > 0 {
        what_is_put_between_stands_there(" | Xruns "@, xruns, ", FIFO leer "@ + empty);
        assert(" | Xruns "@ + xruns + (", FIFO leer "@ + empty) =~= stumbles);
        what_is_put_between_stands_there(" | Xruns "@ + xruns + ", FIFO leer "@, empty, Seq::empty());
        assert((" | Xruns "@ + xruns + ", FIFO leer "@) + empty + Seq::<char>::empty()
            =~= stumbles);
    }
}

proof fn lemma_ends(
    front: Seq<char>,
    level: Seq<char>,
    stumbles: Seq<char>,
    losses: Seq<char>,
    a: Seq<char>,
    b: Seq<char>,
    c: Seq<char>,
    d: Seq<char>,
)
    ensures
        a == level ==> holds(front + level + stumbles + losses, a),
        holds(stumbles, b) ==> holds(front + level + stumbles + losses, b),
        holds(stumbles, c) ==> holds(front + level + stumbles + losses, c),
        holds(losses, d) ==> holds(front + level + stumbles + losses, d),
{
    let text = front + level + stumbles + losses;
    what_is_put_between_stands_there(front, level, stumbles + losses);
    assert(front + level + (stumbles + losses) =~= text);
    if holds(stumbles, b) {
        a_text_holds_what_its_part_holds(front + level, stumbles, losses, b);
    }
    if holds(stumbles, c) {
        a_text_holds_what_its_part_holds(front + level, stumbles, losses, c);
    }
    if holds(losses, d) {
        a_text_holds_what_its_part_holds(front + level + stumbles, losses, Seq::empty(), d);
        assert((front + level + stumbles) + losses + Seq::<char>::empty() =~= text);
    }
}

} // verus!
