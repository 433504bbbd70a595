//! The looper at the terminal: what is set up before the first key, and what every snapshot changes.
use vstd::prelude::*;
use vstd::string::*;
use crate::calibrate::{check_clock, clock_text};
use crate::command::{refusal_message, BufferChannel, Refusal, Status, StatusReceiver};
use crate::fifo::{FrameReader, FrameWriter};
use crate::host::{fit, fitted, layers_shown, Counters};
use crate::live::{
    def_models,
    is_layer_gain,
    resolve_tracks,
    tracks_of,
    Control,
    TrackDef,
    TrackUi,
};
use crate::model::total_buffers;
use crate::process::{track_models, EngineCore};
use crate::schedule::{grid, regridded, Quantize, Scheduler};
use crate::single::Single;
use crate::start::{fresh_track, laid_out, lay_out, Opened, Parts};
use crate::text::{decimal, push_decimal, texts};
use crate::timeline::{Bpm, TimeSignature, Timeline};
use crate::track::Track;

verus! {

/// What is asked for on the command line.
#[derive(Debug)]
pub struct LiveConfig {
    /// `NAME:CHANNEL`, one per track. None at all means the usual two.
    pub tracks: Vec<String>,
    pub bpm: Bpm,
    pub beats_per_bar: u32,
    pub beat_unit: u32,
    pub bars: u32,
    /// Grid a recording and an overdub snap to.
    pub quantize: Quantize,
    pub latency_samples: u64,
    pub monitor: bool,
    pub click: bool,
}

/// A looper that is ready to run.
pub struct Live {
    pub control: Control,
    pub core: EngineCore,
    pub status: StatusReceiver,
    pub buffers: BufferChannel,
    pub input: FrameWriter,
    pub output: FrameReader,
    pub defs: Vec<TrackDef>,
    pub scratch_frames: usize,
}

/// What keeps the looper from starting, in the order it is checked: one clock for both directions,
/// a grid the loop fits on, and tracks the device has inputs for.
pub open spec fn live_error(config: LiveConfig, shown: Seq<char>, opened: Opened) -> Option<
    Seq<char>,
> {
    if opened.input_rate != opened.output_rate {
        Some(clock_text(opened.input_rate, opened.output_rate))
    } else {
        match regridded(
            opened.input_rate,
            config.bpm,
            shown,
            TimeSignature { beats_per_bar: config.beats_per_bar, beat_unit: config.beat_unit },
            config.bars,
            config.latency_samples,
        ) {
            Err(text) => Some(text),
            Ok(_) => match tracks_of(texts(config.tracks@), opened.input_channels as int) {
                Err(text) => Some(text),
                Ok(_) => None,
            },
        }
    }
}

fn live_tracks(defs: &Vec<TrackDef>, monitor: bool, rate: u32) -> (r: Vec<Track>)
    ensures
        r@.len() == defs@.len(),
        forall|i: int| 0 <= i < defs@.len() ==> (#[trigger] r@[i]).wf(),
        forall|i: int|
            0 <= i < defs@.len() ==> fresh_track(
                (#[trigger] r@[i])@,
                defs@[i].channel,
                monitor,
                Single { bits: 0 },
                rate,
            ),
        total_buffers(track_models(r@)) == 0,
{
    let mut r: Vec<Track> = Vec::new();
    let mut i: usize = 0;
    while i < defs.len()
        invariant
            i <= defs.len(),
            r@.len() == i,
            forall|j: int| 0 <= j < i ==> (#[trigger] r@[j]).wf(),
            forall|j: int|
                0 <= j < i ==> fresh_track(
                    (#[trigger] r@[j])@,
                    defs@[j].channel,
                    monitor,
                    Single { bits: 0 },
                    rate,
                ),
        decreases defs.len() - i,
    {
        r.push(Track::new(defs[i].channel, monitor, rate));
        i = i + 1;
    }
    proof {
        let models = track_models(r@);
        assert forall|j: int| 0 <= j < models.len() implies (#[trigger] models[j]).buffers() == 0 by {
            assert(models[j] == r@[j]@);
        }
        crate::start::lemma_fresh_tracks_hold_nothing(models);
    }
    r
}

fn live_uis(defs: &Vec<TrackDef>) -> (r: Vec<TrackUi>)
    ensures
        r@.len() == defs@.len(),
        forall|i: int|
            0 <= i < defs@.len() ==> {
                &&& (#[trigger] r@[i]).name@ == defs@[i].name@
                &&& r@[i].channel == defs@[i].channel
                &&& r@[i].gains@ == Seq::<Single>::empty()
            },
{
    let mut r: Vec<TrackUi> = Vec::new();
    let mut i: usize = 0;
    while i < defs.len()
        invariant
            i <= defs.len(),
            r@.len() == i,
            forall|j: int|
                0 <= j < i ==> {
                    &&& (#[trigger] r@[j]).name@ == defs@[j].name@
                    &&& r@[j].channel == defs@[j].channel
                    &&& r@[j].gains@ == Seq::<Single>::empty()
                },
        decreases defs.len() - i,
    {
        r.push(
            TrackUi {
                name: defs[i].name.as_str().to_owned(),
                channel: defs[i].channel,
                gains: Vec::new(),
            },
        );
        i = i + 1;
    }
    r
}

/// Check what was asked for against a device that was opened, and lay the looper out for it.
/// `shown` is the tempo as it is written.
pub fn start_live(config: &LiveConfig, shown: &str, opened: &Opened) -> (r: Result<Live, String>)
    requires
        opened.holdable(),
    ensures
        match live_error(*config, shown@, *opened) {
            Some(text) => r matches Err(e) && e@ == text,
            None => {
                let layer_frames = regridded(
                    opened.input_rate,
                    config.bpm,
                    shown@,
                    TimeSignature {
                        beats_per_bar: config.beats_per_bar,
                        beat_unit: config.beat_unit,
                    },
                    config.bars,
                    config.latency_samples,
                )->Ok_0;
                let defs = tracks_of(texts(config.tracks@), opened.input_channels as int)->Ok_0;
                &&& r matches Ok(live)
                &&& def_models(live.defs@) == defs
                &&& live.control.wf()
                &&& live.control.sched.timeline.rate() == opened.input_rate
                &&& live.control.sched.timeline.tempo() == config.bpm
                &&& live.control.sched.timeline.metre() == (TimeSignature {
                    beats_per_bar: config.beats_per_bar,
                    beat_unit: config.beat_unit,
                })
                &&& live.control.sched.bars == config.bars
                &&& live.control.sched.guard == opened.frames() * 4 + opened.input_rate / 50
                &&& live.control.quantize == config.quantize
                &&& live.control.latency == config.latency_samples
                &&& live.control.layer_len == layer_frames
                &&& live.control.active == 0
                &&& live.control.message@ == Seq::<char>::empty()
                &&& live.control.running
                &&& live.control.tracks@.len() == defs.len()
                &&& live.core@.tracks.len() == defs.len()
                &&& forall|i: int|
                    0 <= i < defs.len() ==> {
                        &&& (#[trigger] live.control.tracks@[i]).name@ == defs[i].name
                        &&& live.control.tracks@[i].channel == defs[i].channel
                        &&& live.control.tracks@[i].gains@ == Seq::<Single>::empty()
                        &&& fresh_track(
                            live.core@.tracks[i],
                            defs[i].channel as usize,
                            config.monitor,
                            Single { bits: 0 },
                            opened.input_rate,
                        )
                    }
                &&& exists|parts: Parts|
                    {
                        &&& #[trigger] laid_out(
                            parts,
                            *opened,
                            live.control.sched.timeline,
                            layer_frames,
                            config.latency_samples,
                            config.click,
                            live.core@.tracks,
                        )
                        &&& parts.cmd == live.control.cmd
                        &&& parts.core == live.core
                        &&& parts.status == live.status
                        &&& parts.buffers == live.buffers
                        &&& parts.input == live.input
                        &&& parts.output == live.output
                        &&& parts.scratch_frames == live.scratch_frames
                    }
            },
        },
{
    match check_clock(opened.input_rate, opened.output_rate) {
        Ok(()) => {},
        Err(text) => {
            return Err(text);
        },
    }
    let rate: u32 = opened.input_rate;
    let (timeline, layer_frames): (Timeline, u64) = match grid(
        rate,
        config.bpm,
        shown,
        TimeSignature::new(config.beats_per_bar, config.beat_unit),
        config.bars,
        config.latency_samples,
    ) {
        Ok(found) => found,
        Err(text) => {
            return Err(text);
        },
    };
    let defs: Vec<TrackDef> = match resolve_tracks(&config.tracks, opened.input_channels as usize) {
        Ok(defs) => defs,
        Err(text) => {
            return Err(text);
        },
    };
    let ghost models = def_models(defs@);
    proof {
        crate::live::some_tracks_are_resolved(
            texts(config.tracks@),
            opened.input_channels as int,
        );
        assert forall|i: int| 0 <= i < defs@.len() implies {
            &&& (#[trigger] models[i]).name == defs@[i].name@
            &&& models[i].channel == defs@[i].channel
        } by {
            assert(models[i] == defs@[i]@);
        }
    }
    let buffer_frames: u32 = if opened.buffer_frames == 0 {
        1
    } else {
        opened.buffer_frames
    };
    let tracks: Vec<Track> = live_tracks(&defs, config.monitor, rate);
    let ghost fresh = track_models(tracks@);
    let parts: Parts = lay_out(
        opened,
        timeline,
        layer_frames,
        config.latency_samples,
        config.click,
        tracks,
    );
    let ghost whole = parts;
    let uis: Vec<TrackUi> = live_uis(&defs);
    let control = Control {
        cmd: parts.cmd,
        sched: Scheduler::new(timeline, config.bars, buffer_frames),
        quantize: config.quantize,
        latency: config.latency_samples,
        layer_len: layer_frames,
        tracks: uis,
        active: 0,
        message: String::new(),
        running: true,
    };
    let live = Live {
        control,
        core: parts.core,
        status: parts.status,
        buffers: parts.buffers,
        input: parts.input,
        output: parts.output,
        defs,
        scratch_frames: parts.scratch_frames,
    };
    proof {
        assert forall|i: int| 0 <= i < models.len() implies {
            &&& (#[trigger] live.control.tracks@[i]).name@ == models[i].name
            &&& live.control.tracks@[i].channel == models[i].channel
            &&& live.control.tracks@[i].gains@ == Seq::<Single>::empty()
            &&& fresh_track(
                live.core@.tracks[i],
                models[i].channel as usize,
                config.monitor,
                Single { bits: 0 },
                opened.input_rate,
            )
        } by {
            assert(models[i] == live.defs@[i]@);
            assert(live.core@.tracks[i] == fresh[i]);
        }
        assert(laid_out(
            whole,
            *opened,
            live.control.sched.timeline,
            layer_frames,
            config.latency_samples,
            config.click,
            live.core@.tracks,
        ));
    }
    Ok(live)
}

// ---------------------------------------------------------------------------------------------
// The first lines
// ---------------------------------------------------------------------------------------------

/// Where a take begins, in words.
pub open spec fn grid_words(quantize: Quantize) -> Seq<char> {
    match quantize {
        Quantize::Bar => "der naechsten Taktgrenze"@,
        Quantize::Loop => "dem naechsten Loop-Anfang"@,
    }
}

/// What the keys do, one line each.
pub open spec fn key_lines(tracks: nat, bars: u32, quantize: Quantize) -> Seq<Seq<char>> {
    seq![
        "Tasten (jeweils mit Enter bestaetigen). Alles ausser 1-"@ + decimal(tracks)
            + " wirkt auf den gewaehlten Track:"@,
        "  1-"@ + decimal(tracks) + "  Track waehlen"@,
        "  r   neuer Loop ab "@ + grid_words(quantize) + ", "@ + decimal(bars as nat)
            + " Takte (ersetzt vorhandene Ebenen)"@,
        "  o   Overdub: weitere Ebene ab "@ + grid_words(quantize) + ", eine Loop-Laenge lang"@,
        "  s   Stopp: laufende Aufnahme auf der naechsten Taktgrenze beenden, sonst Wiedergabe aus"@,
        "  p   Wiedergabe ab der naechsten Taktgrenze"@,
        "  c   diesen Track leeren"@,
        "  a   alles leeren (alle Tracks, Zustand wie frisch gestartet)"@,
        "  m   Mithoeren an/aus (unabhaengig von der Wiedergabe)"@,
        "  e <nr>        Ebene stumm/laut"@,
        "  w <nr>        Ebene weg"@,
        "  l <nr> <wert> Lautstaerke einer Ebene (0.0 bis 4.0)"@,
        "  k   Klick an/aus"@,
        "  t   Tempo aendern, z.B. \"t 120\" oder \"t 120 7 8\" (nur wenn alles leer ist)"@,
        "Effekte - wirken auf Wiedergabe und Mithoeren, die Aufnahme bleibt immer trocken:"@,
        "  v <name>      Preset laden: stimme | gitarre | trocken"@,
        "  f             ganze Effektkette an/aus (aus = bitgleich durchgereicht)"@,
        "  x <1-5>       einzeln: 1 Hochpass, 2 EQ, 3 Kompressor, 4 Delay, 5 Hall"@,
        "  d <wert>      Delay-Notenwert: 1/4 | 1/8. | 1/8 | 1/8T (aus dem Tempo gerechnet)"@,
        "  q   Beenden"@,
    ]
}

/// What the keys do.
pub fn key_help(tracks: usize, bars: u32, quantize: Quantize) -> (r: Vec<String>)
    ensures
        texts(r@) == key_lines(tracks as nat, bars, quantize),
{
    let grid: &str = match quantize {
        Quantize::Bar => "der naechsten Taktgrenze",
        Quantize::Loop => "dem naechsten Loop-Anfang",
    };
    let mut head = String::new();
    head.append("Tasten (jeweils mit Enter bestaetigen). Alles ausser 1-");
    push_decimal(&mut head, tracks as u64);
    head.append(" wirkt auf den gewaehlten Track:");
    let mut choose_line = String::new();
    choose_line.append("  1-");
    push_decimal(&mut choose_line, tracks as u64);
    choose_line.append("  Track waehlen");
    let mut record = String::new();
    record.append("  r   neuer Loop ab ");
    record.append(grid);
    record.append(", ");
    push_decimal(&mut record, bars as u64);
    record.append(" Takte (ersetzt vorhandene Ebenen)");
    let mut overdub = String::new();
    overdub.append("  o   Overdub: weitere Ebene ab ");
    overdub.append(grid);
    overdub.append(", eine Loop-Laenge lang");
    let ghost lines = key_lines(tracks as nat, bars, quantize);
    proof {
        assert(head@ =~= lines[0]);
        assert(choose_line@ =~= lines[1]);
        assert(record@ =~= lines[2]);
        assert(overdub@ =~= lines[3]);
    }
    let r: Vec<String> = vec![
        head,
        choose_line,
        record,
        overdub,
        "  s   Stopp: laufende Aufnahme auf der naechsten Taktgrenze beenden, sonst Wiedergabe aus".to_owned(),
        "  p   Wiedergabe ab der naechsten Taktgrenze".to_owned(),
        "  c   diesen Track leeren".to_owned(),
        "  a   alles leeren (alle Tracks, Zustand wie frisch gestartet)".to_owned(),
        "  m   Mithoeren an/aus (unabhaengig von der Wiedergabe)".to_owned(),
        "  e <nr>        Ebene stumm/laut".to_owned(),
        "  w <nr>        Ebene weg".to_owned(),
        "  l <nr> <wert> Lautstaerke einer Ebene (0.0 bis 4.0)".to_owned(),
        "  k   Klick an/aus".to_owned(),
        "  t   Tempo aendern, z.B. \"t 120\" oder \"t 120 7 8\" (nur wenn alles leer ist)".to_owned(),
        "Effekte - wirken auf Wiedergabe und Mithoeren, die Aufnahme bleibt immer trocken:".to_owned(),
        "  v <name>      Preset laden: stimme | gitarre | trocken".to_owned(),
        "  f             ganze Effektkette an/aus (aus = bitgleich durchgereicht)".to_owned(),
        "  x <1-5>       einzeln: 1 Hochpass, 2 EQ, 3 Kompressor, 4 Delay, 5 Hall".to_owned(),
        "  d <wert>      Delay-Notenwert: 1/4 | 1/8. | 1/8 | 1/8T (aus dem Tempo gerechnet)".to_owned(),
        "  q   Beenden".to_owned(),
    ];
    assert(texts(r@) =~= lines);
    r
}

// ---------------------------------------------------------------------------------------------
// Snapshots
// ---------------------------------------------------------------------------------------------

/// Whether a refusal is news: the counter moved or the reason changed.
pub open spec fn is_news(status: Status, known: (u64, Refusal)) -> bool {
    status.ignored_commands > known.0 || status.refusal != known.1
}

impl Control {
    /// A snapshot arrived. An engine that stopped ends the looper, and a refusal is told once.
    /// `known` is the newest refusal that was told; the answer is the one known from now on.
    pub fn observe(&mut self, status: &Status, known: (u64, Refusal)) -> (r: (u64, Refusal))
        ensures
            r == (if is_news(*status, known) {
                (status.ignored_commands, status.refusal)
            } else {
                known
            }),
            final(self).running == (old(self).running && !status.stopped),
            final(self).message@ == (if is_news(*status, known) && refusal_message(
                status.refusal,
            ) is Some {
                refusal_message(status.refusal)->0
            } else {
                old(self).message@
            }),
            *final(self) == (Control {
                running: final(self).running,
                message: final(self).message,
                ..*old(self)
            }),
    {
        if status.stopped {
            self.running = false;
        }
        if status.ignored_commands > known.0 || status.refusal != known.1 {
            if let Some(text) = status.refusal.message() {
                self.message = text.to_owned();
            }
            (status.ignored_commands, status.refusal)
        } else {
            known
        }
    }

    /// Keep the gain mirror the same length the engine reports.
    pub fn mirror(&mut self, status: &Status)
        requires
            old(self).wf(),
        ensures
            final(self).wf(),
            final(self).tracks@.len() == old(self).tracks@.len(),
            forall|t: int|
                0 <= t < old(self).tracks@.len() ==> {
                    &&& (#[trigger] final(self).tracks@[t]).name == old(self).tracks@[t].name
                    &&& final(self).tracks@[t].channel == old(self).tracks@[t].channel
                    &&& final(self).tracks@[t].gains@ == fitted(
                        old(self).tracks@[t].gains@,
                        layers_shown(*status, t),
                    )
                },
            *final(self) == (Control { tracks: final(self).tracks, ..*old(self) }),
    {
        let ghost start = *self;
        let mut i: usize = 0;
        while i < self.tracks.len()
            invariant
                start == *old(self),
                start.wf(),
                i <= self.tracks.len(),
                self.tracks@.len() == start.tracks@.len(),
                *self == (Control { tracks: self.tracks, ..start }),
                forall|t: int|
                    0 <= t < i ==> {
                        &&& (#[trigger] self.tracks@[t]).name == start.tracks@[t].name
                        &&& self.tracks@[t].channel == start.tracks@[t].channel
                        &&& self.tracks@[t].gains@ == fitted(
                            start.tracks@[t].gains@,
                            layers_shown(*status, t),
                        )
                    },
                forall|t: int|
                    i <= t < start.tracks@.len() ==> #[trigger] self.tracks@[t] == start.tracks@[t],
            decreases self.tracks.len() - i,
        {
            let layers: usize = status.track(i).layers as usize;
            fit(&mut self.tracks[i].gains, layers);
            i = i + 1;
        }
        proof {
            assert forall|t: int, j: int|
                0 <= t < self.tracks@.len() && 0 <= j < self.tracks@[t].gains@.len() implies
                is_layer_gain(#[trigger] self.tracks@[t].gains@[j]) by {
                let gains = start.tracks@[t].gains@;
                if j < gains.len() {
                    assert(is_layer_gain(start.tracks@[t].gains@[j]));
                }
            }
        }
    }
}

// ---------------------------------------------------------------------------------------------
// The last lines
// ---------------------------------------------------------------------------------------------

pub open spec fn closing_lines(counters: Counters, longest: Seq<char>) -> Seq<Seq<char>> {
    seq![
        "Xruns (cpal):        "@ + decimal(counters.xruns as nat),
        "FIFO leer:           "@ + decimal(counters.underruns as nat),
        "FIFO uebergelaufen:  "@ + decimal(counters.overruns as nat),
        "Sonstige Fehler:     "@ + decimal(counters.other_errors as nat),
        "Callback-Dauer max:  "@ + longest + " ms"@,
    ]
}

fn counted_line(head: &str, n: u64) -> (r: String)
    ensures
        r@ == head@ + decimal(n as nat),
{
    let mut r = String::new();
    r.append(head);
    push_decimal(&mut r, n);
    assert(r@ =~= head@ + decimal(n as nat));
    r
}

/// What the callbacks counted over a whole run. `longest` is the longest callback in milliseconds.
pub fn closing(counters: &Counters, longest: &str) -> (r: Vec<String>)
    ensures
        texts(r@) == closing_lines(*counters, longest@),
{
    let mut last = String::new();
    last.append("Callback-Dauer max:  ");
    last.append(longest);
    last.append(" ms");
    assert(last@ =~= "Callback-Dauer max:  "@ + longest@ + " ms"@);
    let mut r: Vec<String> = Vec::new();
    r.push(counted_line("Xruns (cpal):        ", counters.xruns));
    r.push(counted_line("FIFO leer:           ", counters.underruns));
    r.push(counted_line("FIFO uebergelaufen:  ", counters.overruns));
    r.push(counted_line("Sonstige Fehler:     ", counters.other_errors));
    r.push(last);
    assert(texts(r@) =~= closing_lines(*counters, longest@));
    r
}

/// The looper starts exactly where both directions run on one clock, the tempo carries the loop and
/// the tracks fit the device.
pub proof fn the_looper_starts_where_everything_fits(
    config: LiveConfig,
    shown: Seq<char>,
    opened: Opened,
)
    ensures
        live_error(config, shown, opened) is None <==> opened.input_rate == opened.output_rate
            && regridded(
            opened.input_rate,
            config.bpm,
            shown,
            TimeSignature { beats_per_bar: config.beats_per_bar, beat_unit: config.beat_unit },
            config.bars,
            config.latency_samples,
        ) is Ok && tracks_of(texts(config.tracks@), opened.input_channels as int) is Ok,
{
}

/// A refusal is news exactly where one more was counted or the reason is another.
pub proof fn a_repeated_refusal_is_no_news(status: Status, known: (u64, Refusal))
    ensures
        !is_news(status, (status.ignored_commands, status.refusal)),
        status.ignored_commands > known.0 ==> is_news(status, known),
        status.refusal != known.1 ==> is_news(status, known),
        status.ignored_commands <= known.0 && status.refusal == known.1 ==> !is_news(status, known),
{
}

} // verus!
