//! One measurement of the compensation from the first second of silence to the recommendation.
//!
//! The streams, the waiting and the printing belong to whoever owns the device; what is decided in
//! between is decided here. A measurement listens to the noise floor, switches the click on, and
//! then makes its runs one after the other: plan a take on the next reachable bar, wait until the
//! engine reports exactly that take as finished, ask for the layer back, and count its clicks
//! against the grid. Nothing is concluded before every run has been counted.
use vstd::prelude::*;
use vstd::string::*;
use crate::calibrate::{
    a_wrong_compensation_is_corrected,
    analyse_loop,
    analysed,
    blanking,
    blanking_of,
    check_noise,
    corrected,
    countable,
    enough,
    every_onset_is_counted_once,
    mean_of,
    noise_error,
    nothing_found_text,
    plan_run,
    printable,
    still_ahead,
    total,
    ClickAnalysis,
    Mean,
    NoiseError,
    Recommendation,
    Run,
    Totals,
    MAX_NOISE_PEAK,
    MAX_THRESHOLD,
    MOST_CLICKS,
};
use crate::command::{fetched_back, BufferChannel, Command, TrackState, TrackStatus};
use crate::model::{
    block_fed,
    position,
    runs_through,
    what_was_played_is_heard_on_every_pass,
    MAX_LATENCY,
};
use crate::process::{
    a_removed_layer_goes_back_as_it_was,
    handed_back,
    track_models,
    what_went_back_is_in_the_queue,
    EngineCore,
};
use crate::schedule::Scheduler;
use crate::single::Single;
use crate::start::{fresh_track, laid_out, lay_out, Opened, Parts};
use crate::text::{decimal, push_decimal, texts};
use crate::timeline::{Timeline, MAX_BEAT};
use crate::track::{Track, TrackModel};

verus! {

/// Where a measurement stands.
#[derive(Clone, Copy, Debug, PartialEq, Eq, Structural)]
pub enum Stage {
    /// The click is off and the input is listened to.
    Noise,
    /// Nothing is under way.
    Idle,
    /// The take has been ordered.
    Recording(Run),
    /// The take is complete and its layer has been asked for.
    Collecting(Run),
}

#[derive(Debug)]
pub struct Measurement {
    pub scheduler: Scheduler,
    pub latency: u64,
    pub runs: u32,
    pub finished: u32,
    pub threshold: Single,
    pub blanking: u64,
    pub stage: Stage,
    pub totals: Totals,
}

/// The take of a run, as the engine is told to make it.
pub open spec fn take_of(run: Run) -> Seq<Command> {
    seq![
        Command::StartRecord { track: 0, at: run.start },
        Command::StopRecord { track: 0, at: run.end },
    ]
}

/// Whether a snapshot of the measuring track shows the take of a run complete.
pub open spec fn complete(ts: TrackStatus, run: Run) -> bool {
    ts.state == TrackState::Ready && ts.loop_len == run.end - run.start
}

/// What is wrong with a buffer that does not hold its loop.
pub open spec fn short_text(len: int, wanted: int) -> Seq<char> {
    "Der zurueckgegebene Puffer ist mit "@ + decimal(len as nat)
        + " Samples kuerzer als der Loop ("@ + decimal(wanted as nat) + " Samples)."@
}

impl Measurement {
    /// Whether a run can be planned from a position: its grid, its compensation and its analysis
    /// all stay within what can be counted.
    pub open spec fn runnable(self, est: u64) -> bool {
        let end = self.scheduler.last_boundary(est);
        &&& self.scheduler.reaches_end(est)
        &&& end + self.latency <= u64::MAX
        &&& self.scheduler.grid_from(est) <= end < MAX_BEAT
        &&& self.scheduler.timeline.reaches(self.scheduler.timeline.beat_of(end) + 1)
    }

    /// A planned run can be analysed.
    pub open spec fn analysable(self, run: Run) -> bool {
        &&& run.start <= run.end
        &&& countable(self.scheduler.timeline, run.start, (run.end - run.start) as nat)
    }

    /// What every step keeps.
    pub open spec fn wf(self) -> bool {
        &&& self.latency <= MAX_LATENCY
        &&& self.finished <= self.runs
        &&& self.blanking == blanking_of(self.scheduler.timeline)
        &&& self.blanking <= 0x2_0000_0000
        &&& self.totals.deviations@.len() == self.totals.matched
        &&& self.totals.expected <= self.finished * 0x1_0000_0000_0000_0000
        &&& self.totals.spurious <= self.finished * 0x1_0000_0000_0000_0000
        &&& self.stage matches Stage::Recording(run) ==> self.finished < self.runs
            && self.analysable(run)
        &&& self.stage matches Stage::Collecting(run) ==> self.finished < self.runs
            && self.analysable(run)
    }

    /// A measurement that has not heard anything yet.
    pub fn new(timeline: Timeline, bars: u32, buffer_frames: u32, latency: u64, runs: u32) -> (r: Self)
        requires
            latency <= MAX_LATENCY,
            buffer_frames * 4 + timeline.rate() / 50 <= u32::MAX,
        ensures
            r.wf(),
            r.scheduler.timeline == timeline,
            r.scheduler.bars == bars,
            r.scheduler.guard == buffer_frames * 4 + timeline.rate() / 50,
            r.latency == latency,
            r.runs == runs,
            r.finished == 0,
            r.stage == Stage::Noise,
            r.totals.expected == 0,
            r.totals.matched == 0,
            r.totals.spurious == 0,
            r.totals.deviations@ == Seq::<i64>::empty(),
            r.totals.means@ == Seq::<Mean>::empty(),
    {
        let blanking: u64 = blanking(&timeline);
        Measurement {
            scheduler: Scheduler::new(timeline, bars, buffer_frames),
            latency,
            runs,
            finished: 0,
            threshold: Single { bits: 0 },
            blanking,
            stage: Stage::Noise,
            totals: Totals::new(),
        }
    }

    /// The noise floor has been measured. Where it leaves room for a click, the click is switched
    /// on and everything louder than the threshold counts as one from now on.
    pub fn hear_noise(&mut self, frames: u64, peak: Single, threshold: Single) -> (r: Result<
        Command,
        NoiseError,
    >)
        requires
            old(self).wf(),
            old(self).stage == Stage::Noise,
        ensures
            final(self).wf(),
            noise_met(*old(self), *final(self), noise_error(frames, peak, threshold), threshold),
            r is Err <==> noise_error(frames, peak, threshold) is Some,
            r matches Err(error) ==> noise_error(frames, peak, threshold) == Some(error),
            if frames == 0 {
                r == Err::<Command, NoiseError>(NoiseError::Silence) && *final(self) == *old(self)
            } else if (Single { bits: MAX_NOISE_PEAK }).lt(peak) {
                r == Err::<Command, NoiseError>(NoiseError::TooLoud) && *final(self) == *old(self)
            } else if (Single { bits: MAX_THRESHOLD }).lt(threshold) {
                r == Err::<Command, NoiseError>(NoiseError::ThresholdTooHigh) && *final(self)
                    == *old(self)
            } else {
                &&& r == Ok::<Command, NoiseError>(Command::SetClick { on: true })
                &&& *final(self) == (Measurement { threshold, stage: Stage::Idle, ..*old(self) })
            },
    {
        match check_noise(frames, peak, threshold) {
            Err(error) => Err(error),
            Ok(()) => {
                self.threshold = threshold;
                self.stage = Stage::Idle;
                Ok(Command::SetClick { on: true })
            },
        }
    }

    /// Whether the next run can be planned from here.
    pub fn can_run(&self, est: u64) -> (r: bool)
        ensures
            r == self.runnable(est),
    {
        if !self.scheduler.can_plan(est, 0) {
            return false;
        }
        let start: u64 = self.scheduler.next_bar(est);
        let bar: u64 = self.scheduler.timeline.bar_index_at(start);
        let end: u64 = self.scheduler.timeline.position_of(bar + self.scheduler.bars as u64, 0);
        if end >= MAX_BEAT || start > end || end > u64::MAX - self.latency {
            return false;
        }
        let beat: u64 = self.scheduler.timeline.beat_index_at(end);
        self.scheduler.timeline.reaches_beat(beat + 1)
    }

    /// The next run, as long as one is owed: the take it wants and how long it is away.
    pub fn next_run(&mut self, est: u64) -> (r: Option<(Run, Vec<Command>)>)
        requires
            old(self).wf(),
            old(self).stage == Stage::Idle,
            old(self).runnable(est),
        ensures
            final(self).wf(),
            if old(self).finished == old(self).runs {
                r is None && *final(self) == *old(self)
            } else {
                let s = old(self).scheduler;
                &&& r matches Some((run, commands))
                &&& run.start == s.grid_from(est)
                &&& run.bar == s.first_bar(est)
                &&& run.end == s.last_boundary(est)
                &&& run.ahead == (if run.end + old(self).latency > est {
                    run.end + old(self).latency - est
                } else {
                    0
                })
                &&& run.ahead == still_ahead(run.end, old(self).latency, est)
                &&& commands@ == take_of(run)
                &&& *final(self) == (Measurement { stage: Stage::Recording(run), ..*old(self) })
            },
    {
        if self.finished == self.runs {
            return None;
        }
        let run: Run = plan_run(&self.scheduler, est, self.latency);
        let commands: Vec<Command> = vec![
            Command::StartRecord { track: 0, at: run.start },
            Command::StopRecord { track: 0, at: run.end },
        ];
        assert(commands@ =~= take_of(run));
        self.stage = Stage::Recording(run);
        Some((run, commands))
    }

    /// A snapshot of the measuring track arrived. Once it shows the take complete, the layer is
    /// asked for: removing it is how its buffer comes back.
    pub fn observe(&mut self, ts: &TrackStatus) -> (r: Option<Command>)
        requires
            old(self).wf(),
        ensures
            final(self).wf(),
            match old(self).stage {
                Stage::Recording(run) if complete(*ts, run) => {
                    &&& r == Some(Command::RemoveLayer { track: 0, layer: 0 })
                    &&& *final(self) == (Measurement { stage: Stage::Collecting(run), ..*old(self) })
                },
                _ => r is None && *final(self) == *old(self),
            },
    {
        if let Stage::Recording(run) = self.stage {
            if ts.state == TrackState::Ready && ts.loop_len == run.end - run.start {
                self.stage = Stage::Collecting(run);
                return Some(Command::RemoveLayer { track: 0, layer: 0 });
            }
        }
        None
    }

    /// The recorded layer came back. It is analysed over the length of its loop and counted.
    pub fn collect(&mut self, buffer: &[u32]) -> (r: Result<ClickAnalysis, String>)
        requires
            old(self).wf(),
            old(self).stage is Collecting,
        ensures
            final(self).wf(),
            ({
                let run = old(self).stage->Collecting_0;
                let len = run.end - run.start;
                if buffer@.len() < len {
                    &&& r matches Err(e)
                    &&& e@ == short_text(buffer@.len() as int, len)
                    &&& *final(self) == *old(self)
                } else {
                    &&& r matches Ok(analysis)
                    &&& analysed(
                        analysis,
                        buffer@.subrange(0, len),
                        run.start,
                        old(self).scheduler.timeline,
                        old(self).threshold,
                        old(self).blanking,
                    )
                    &&& counted(*old(self), *final(self), analysis)
                }
            }),
    {
        let ghost before = *self;
        if let Stage::Collecting(run) = self.stage {
            let len: u64 = run.end - run.start;
            if (buffer.len() as u64) < len {
                let mut text = String::new();
                text.append("Der zurueckgegebene Puffer ist mit ");
                push_decimal(&mut text, buffer.len() as u64);
                text.append(" Samples kuerzer als der Loop (");
                push_decimal(&mut text, len);
                text.append(" Samples).");
                assert(text@ =~= short_text(buffer@.len() as int, len as int));
                return Err(text);
            }
            let part: &[u32] = vstd::slice::slice_subrange(buffer, 0, len as usize);
            let analysis: ClickAnalysis = analyse_loop(
                part,
                run.start,
                &self.scheduler.timeline,
                self.threshold,
                self.blanking,
            );
            proof {
                every_onset_is_counted_once(
                    analysis,
                    part@,
                    run.start,
                    self.scheduler.timeline,
                    self.threshold,
                    self.blanking,
                );
                assert(self.finished * 0x1_0000_0000_0000_0000 + 0x1_0000_0000_0000_0000 == (
                self.finished + 1) * 0x1_0000_0000_0000_0000) by (nonlinear_arith);
            }
            self.totals.count(&analysis);
            self.finished = self.finished + 1;
            self.stage = Stage::Idle;
            Ok(analysis)
        } else {
            Err(String::new())
        }
    }

    /// Whether the deviations are small enough to be averaged and printed.
    pub fn can_conclude(&self) -> (r: bool)
        ensures
            r == (self.totals.deviations@.len() > 0 ==> printable(
                Mean {
                    sum: total(self.totals.deviations@) as i128,
                    count: self.totals.deviations@.len() as u64,
                },
            ) && -0x10_0000_0000_0000 < total(self.totals.deviations@) < 0x10_0000_0000_0000),
    {
        match mean_of(&self.totals.deviations) {
            None => true,
            Some(mean) => mean.count <= 0xffff_ffff && -0x10_0000_0000_0000 < mean.sum && mean.sum
                < 0x10_0000_0000_0000,
        }
    }

    /// What all runs together say: the corrected compensation, or that there was nothing to hear.
    pub fn conclude(&self) -> (r: Result<Recommendation, String>)
        requires
            self.wf(),
            self.finished == self.runs,
            self.totals.deviations@.len() > 0 ==> printable(
                Mean {
                    sum: total(self.totals.deviations@) as i128,
                    count: self.totals.deviations@.len() as u64,
                },
            ) && -0x10_0000_0000_0000 < total(self.totals.deviations@) < 0x10_0000_0000_0000,
        ensures
            if self.totals.matched == 0 {
                r matches Err(e) && e@ == nothing_found_text()
            } else {
                r == Ok::<Recommendation, String>(
                    Recommendation {
                        mean: Mean {
                            sum: total(self.totals.deviations@) as i128,
                            count: self.totals.matched,
                        },
                        latency: corrected(
                            self.latency as int,
                            total(self.totals.deviations@),
                            self.totals.matched as int,
                        ) as u64,
                        conclusive: enough(
                            self.totals.matched as int,
                            self.totals.expected as int,
                        ),
                    },
                )
            },
    {
        assert(self.finished * 0x1_0000_0000_0000_0000 <= MOST_CLICKS) by (nonlinear_arith)
            requires
                self.finished <= u32::MAX,
        ;
        self.totals.conclude(self.latency)
    }
}

/// A measurement that has listened to the room: it goes on with the threshold that was found, or
/// stays where it is.
pub open spec fn noise_met(
    before: Measurement,
    after: Measurement,
    error: Option<NoiseError>,
    threshold: Single,
) -> bool {
    match error {
        Some(_) => after == before,
        None => after == (Measurement { threshold, stage: Stage::Idle, ..before }),
    }
}

/// A run has been counted: one more is finished, and its clicks are in the totals.
pub open spec fn counted(before: Measurement, after: Measurement, analysis: ClickAnalysis) -> bool {
    &&& after.scheduler == before.scheduler
    &&& after.latency == before.latency
    &&& after.runs == before.runs
    &&& after.threshold == before.threshold
    &&& after.blanking == before.blanking
    &&& after.stage == Stage::Idle
    &&& after.finished == before.finished + 1
    &&& after.totals.expected == before.totals.expected + analysis.expected
    &&& after.totals.matched == before.totals.matched + analysis.matched
    &&& after.totals.spurious == before.totals.spurious + analysis.spurious
    &&& after.totals.deviations@ == before.totals.deviations@ + analysis.deviations@
    &&& after.totals.means@ == (if analysis.deviations@.len() == 0 {
        before.totals.means@
    } else {
        before.totals.means@.push(
            Mean {
                sum: total(analysis.deviations@) as i128,
                count: analysis.deviations@.len() as u64,
            },
        )
    })
}

// ---------------------------------------------------------------------------------------------
// The engine under measurement
// ---------------------------------------------------------------------------------------------

/// A device as a measurement sees it: the cable carries one channel.
pub open spec fn through_the_cable(opened: Opened) -> Opened {
    Opened { input_channels: 1, ..opened }
}

/// The engine a measurement runs on: one track on the channel the cable feeds, with its chain
/// bypassed and nothing monitored, and the click off until the noise floor is known.
pub fn measuring_engine(opened: &Opened, timeline: Timeline, layer_frames: u64, latency: u64) -> (r:
    Parts)
    requires
        through_the_cable(*opened).holdable(),
        latency <= MAX_LATENCY,
        timeline.rate() == opened.input_rate,
    ensures
        r.core@.tracks.len() == 1,
        fresh_track(r.core@.tracks[0], 0, false, Single { bits: 0 }, opened.input_rate),
        laid_out(
            r,
            through_the_cable(*opened),
            timeline,
            layer_frames,
            latency,
            false,
            r.core@.tracks,
        ),
{
    let cable = Opened {
        input_rate: opened.input_rate,
        output_rate: opened.output_rate,
        input_channels: 1,
        output_channels: opened.output_channels,
        buffer_frames: opened.buffer_frames,
    };
    let track: Track = Track::new(0, false, opened.input_rate);
    let tracks: Vec<Track> = vec![track];
    let ghost models = track_models(tracks@);
    proof {
        assert(models[0] == tracks@[0]@);
        assert forall|j: int| 0 <= j < models.len() implies (#[trigger] models[j]).buffers() == 0 by {}
        crate::start::lemma_fresh_tracks_hold_nothing(models);
    }
    lay_out(&cable, timeline, layer_frames, latency, false, tracks)
}

// ---------------------------------------------------------------------------------------------
// What is printed
// ---------------------------------------------------------------------------------------------

/// The headline of a run.
pub open spec fn run_text(number: u32, runs: u32, run: Run, bars: u32) -> Seq<char> {
    "----- Lauf "@ + decimal(number as nat) + " von "@ + decimal(runs as nat) + " (Takt "@
        + decimal((run.bar + 1) as nat) + " bis "@ + decimal((run.bar + bars) as nat) + ", "@
        + decimal((run.end - run.start) as nat) + " Samples) -----"@
}

/// How many clicks a run found.
pub open spec fn found_text(analysis: ClickAnalysis, level: Seq<char>) -> Seq<char> {
    "  Klicks erkannt: "@ + decimal(analysis.matched as nat) + " von "@ + decimal(
        analysis.expected as nat,
    ) + " erwartet, "@ + decimal(analysis.spurious as nat) + " ausserhalb des Rasters, Loop-Peak "@
        + level
}

pub open spec fn too_few_text() -> Seq<char> {
    "  ACHTUNG: zu wenige Klicks erkannt. Dieser Lauf ist KEIN Beleg fuer eine\n  korrekte Kalibrierung, sondern ein Hinweis auf einen zu leisen Pegel, ein\n  fehlendes Loopback-Kabel oder einen leeren Loop."@
}

/// The lines of a run. A run that found too little says so, and one that found nothing says that
/// there is no deviation to show.
pub open spec fn run_report_lines(
    number: u32,
    runs: u32,
    run: Run,
    bars: u32,
    analysis: ClickAnalysis,
    level: Seq<char>,
) -> Seq<Seq<char>> {
    seq![run_text(number, runs, run, bars), found_text(analysis, level)] + (if enough(
        analysis.matched as int,
        analysis.expected as int,
    ) {
        seq![]
    } else {
        seq![too_few_text()]
    }) + (if analysis.deviations@.len() == 0 {
        seq!["  Keine Abweichung berechenbar.\n"@]
    } else {
        seq![]
    })
}

/// The report of one run, up to the statistics of its deviations.
pub fn run_report(
    number: u32,
    runs: u32,
    run: &Run,
    bars: u32,
    analysis: &ClickAnalysis,
    level: &str,
) -> (r: Vec<String>)
    requires
        run.start <= run.end,
        run.bar + bars <= u64::MAX,
        run.bar < u64::MAX,
    ensures
        texts(r@) == run_report_lines(number, runs, *run, bars, *analysis, level@),
{
    let mut head = String::new();
    head.append("----- Lauf ");
    push_decimal(&mut head, number as u64);
    head.append(" von ");
    push_decimal(&mut head, runs as u64);
    head.append(" (Takt ");
    push_decimal(&mut head, run.bar + 1);
    head.append(" bis ");
    push_decimal(&mut head, run.bar + bars as u64);
    head.append(", ");
    push_decimal(&mut head, run.end - run.start);
    head.append(" Samples) -----");
    assert(head@ =~= run_text(number, runs, *run, bars));
    let mut found = String::new();
    found.append("  Klicks erkannt: ");
    push_decimal(&mut found, analysis.matched as u64);
    found.append(" von ");
    push_decimal(&mut found, analysis.expected as u64);
    found.append(" erwartet, ");
    push_decimal(&mut found, analysis.spurious as u64);
    found.append(" ausserhalb des Rasters, Loop-Peak ");
    found.append(level);
    assert(found@ =~= found_text(*analysis, level@));
    let mut r: Vec<String> = Vec::new();
    r.push(head);
    r.push(found);
    if !analysis.conclusive() {
        r.push(
            "  ACHTUNG: zu wenige Klicks erkannt. Dieser Lauf ist KEIN Beleg fuer eine\n  korrekte Kalibrierung, sondern ein Hinweis auf einen zu leisen Pegel, ein\n  fehlendes Loopback-Kabel oder einen leeren Loop.".to_owned(),
        );
    }
    if analysis.deviations.len() == 0 {
        r.push("  Keine Abweichung berechenbar.\n".to_owned());
    }
    assert(texts(r@) =~= run_report_lines(number, runs, *run, bars, *analysis, level@));
    r
}

/// The recommendation and where it comes from.
pub open spec fn recommended_text(latency: u64) -> Seq<char> {
    "Empfehlung: --latency-samples "@ + decimal(latency as nat)
        + "\n(Herleitung: der aufgenommene Klick landet bei R_wahr - R vom Raster entfernt, also ist\nR_wahr = R + Abweichung. Zu spaet aufgenommen heisst: zu wenig abgezogen.)"@
}

/// The two command lines to paste.
pub open spec fn adopted_text(flags: Seq<char>, bpm: Seq<char>, bars: u32, latency: u64) -> Seq<
    char,
> {
    "\nUebernehmen mit:\n  looper-engine live "@ + flags + " --bpm "@ + bpm
        + " --latency-samples "@ + decimal(latency as nat) + "\n  looper-engine calibrate "@ + flags
        + " --bpm "@ + bpm + " --bars "@ + decimal(bars as nat) + " --latency-samples "@ + decimal(
        latency as nat,
    ) + "   (zur Gegenprobe)"@
}

/// The last lines of a measurement: the recommended compensation and how to use it.
pub fn recommendation_lines(
    recommendation: &Recommendation,
    flags: &str,
    bpm: &str,
    bars: u32,
) -> (r: Vec<String>)
    ensures
        texts(r@) == seq![
            recommended_text(recommendation.latency),
            adopted_text(flags@, bpm@, bars, recommendation.latency),
        ],
{
    let mut first = String::new();
    first.append("Empfehlung: --latency-samples ");
    push_decimal(&mut first, recommendation.latency);
    first.append(
        "\n(Herleitung: der aufgenommene Klick landet bei R_wahr - R vom Raster entfernt, also ist\nR_wahr = R + Abweichung. Zu spaet aufgenommen heisst: zu wenig abgezogen.)",
    );
    assert(first@ =~= recommended_text(recommendation.latency));
    let mut second = String::new();
    second.append("\nUebernehmen mit:\n  looper-engine live ");
    second.append(flags);
    second.append(" --bpm ");
    second.append(bpm);
    second.append(" --latency-samples ");
    push_decimal(&mut second, recommendation.latency);
    second.append("\n  looper-engine calibrate ");
    second.append(flags);
    second.append(" --bpm ");
    second.append(bpm);
    second.append(" --bars ");
    push_decimal(&mut second, bars as u64);
    second.append(" --latency-samples ");
    push_decimal(&mut second, recommendation.latency);
    second.append("   (zur Gegenprobe)");
    assert(second@ =~= adopted_text(flags@, bpm@, bars, recommendation.latency));
    let mut r: Vec<String> = Vec::new();
    r.push(first);
    r.push(second);
    assert(texts(r@) =~= seq![
        recommended_text(recommendation.latency),
        adopted_text(flags@, bpm@, bars, recommendation.latency),
    ]);
    r
}

// ---------------------------------------------------------------------------------------------
// Laws
// ---------------------------------------------------------------------------------------------

/// A take is analysed exactly over the bars it was planned for: the loop the engine reports
/// complete is as long as the bars from the first boundary on, and every beat of it is within
/// reach of the analysis.
pub proof fn a_run_is_analysed_over_its_own_bars(
    measurement: Measurement,
    est: u64,
    run: Run,
    ts: TrackStatus,
)
    requires
        measurement.runnable(est),
        run.start == measurement.scheduler.grid_from(est),
        run.end == measurement.scheduler.last_boundary(est),
        complete(ts, run),
    ensures
        measurement.analysable(run),
        ts.loop_len == measurement.scheduler.timeline.bar_at(
            measurement.scheduler.first_bar(est) + measurement.scheduler.bars,
        ) - measurement.scheduler.grid_from(est),
{
}

/// Runs that together found nothing recommend nothing, however many there were.
pub proof fn silence_recommends_nothing(
    before: Measurement,
    after: Measurement,
    analysis: ClickAnalysis,
)
    requires
        before.totals.matched == 0,
        analysis.matched == 0,
        counted(before, after, analysis),
    ensures
        after.totals.matched == 0,
        !enough(after.totals.matched as int, after.totals.expected as int),
{
}

/// The loop content reaches the measurement: where the recorded layer is removed and a buffer comes
/// back behind everything that came back before, that buffer holds what the engine recorded, and
/// that is what is analysed.
pub proof fn what_was_recorded_is_analysed(
    before: EngineCore,
    after: EngineCore,
    asked: BufferChannel,
    got: BufferChannel,
    buffer: Vec<u32>,
    measurement: Measurement,
    analysis: ClickAnalysis,
)
    requires
        before@.tracks.len() > 0,
        before@.tracks[0].take is None,
        before@.tracks[0].layers.len() > 0,
        before.return_room() > 0,
        after@ == before@.applied(Command::RemoveLayer { track: 0, layer: 0 }),
        handed_back(before, after),
        asked.return_queue() == before@.links.returns,
        asked.came_back() == before.given_back(),
        fetched_back(asked, got, Some(buffer)),
        measurement.stage is Collecting,
        ({
            let run = measurement.stage->Collecting_0;
            &&& run.start <= run.end
            &&& run.end - run.start <= buffer@.len()
            &&& analysed(
                analysis,
                buffer@.subrange(0, run.end - run.start),
                run.start,
                measurement.scheduler.timeline,
                measurement.threshold,
                measurement.blanking,
            )
        }),
    ensures
        ({
            let run = measurement.stage->Collecting_0;
            let recorded = before@.tracks[0].layers[0].samples;
            &&& buffer@ == recorded
            &&& analysed(
                analysis,
                recorded.subrange(0, run.end - run.start),
                run.start,
                measurement.scheduler.timeline,
                measurement.threshold,
                measurement.blanking,
            )
        }),
{
    let recorded = before@.tracks[0].layers[0].samples;
    let n = before.given_back().len();
    a_removed_layer_goes_back_as_it_was(before, after, 0, 0);
    what_went_back_is_in_the_queue(after);
    assert(after@.links == before@.links);
    assert(after.given_back()[n as int] == recorded);
    assert(got.came_back()[n as int] == buffer@);
    assert(got.came_back().len() == n + 1);
    assert(got.return_queue()[n as int] == buffer@);
}

/// A click lies in the analysed loop where it was played: a frame that arrived while the take of a
/// run was open stands at its musical position, counted from the start of the run.
pub proof fn a_click_is_analysed_where_it_was_played(
    track: TrackModel,
    input: Seq<u32>,
    channels: int,
    frames: nat,
    in_index: int,
    latency: int,
    j: int,
    run: Run,
)
    requires
        runs_through(track, input, channels, frames, in_index, latency),
        track.take->0.defines_loop,
        track.take->0.start == run.start,
        track.origin == run.start,
        0 <= j < frames,
        run.start <= in_index + j - latency < run.end,
        run.end <= track.limit(),
    ensures
        ({
            let recorded = block_fed(track, input, channels, frames, in_index, latency).track;
            let done = recorded.stopped_at(run.end).finished_at(run.end);
            &&& done.take is None
            &&& done.loop_len == run.end - run.start
            &&& done.layers.last().samples[position(in_index, j, latency) - run.start] == input[j
                * channels + track.input_channel]
        }),
{
    let recorded = block_fed(track, input, channels, frames, in_index, latency).track;
    let done = recorded.stopped_at(run.end).finished_at(run.end);
    let pos = position(in_index, j, latency);
    assert(0 * (run.end - track.take->0.start) == 0);
    what_was_played_is_heard_on_every_pass(
        track,
        input,
        channels,
        frames,
        in_index,
        latency,
        j,
        run.end,
        0,
    );
    assert(0 * done.loop_len == 0);
    vstd::arithmetic::div_mod::lemma_small_mod(
        (pos - run.start) as nat,
        (run.end - run.start) as nat,
    );
}

/// Runs that all find their clicks equally late or early recommend the value that is off by exactly
/// that much, however many runs there are: the true compensation, where it is not below zero.
pub proof fn even_runs_recommend_the_true_compensation(
    before: Measurement,
    after: Measurement,
    analysis: ClickAnalysis,
    d: i64,
)
    requires
        counted(before, after, analysis),
        analysis.deviations@.len() > 0,
        forall|i: int|
            0 <= i < before.totals.deviations@.len() ==> #[trigger] before.totals.deviations@[i]
                == d,
        forall|i: int|
            0 <= i < analysis.deviations@.len() ==> #[trigger] analysis.deviations@[i] == d,
    ensures
        ({
            let all = after.totals.deviations@;
            let right = corrected(after.latency as int, total(all), all.len() as int);
            &&& all.len() == before.totals.deviations@.len() + analysis.deviations@.len()
            &&& before.latency + d >= 0 ==> right == before.latency + d
            &&& before.latency + d < 0 ==> right == 0
        }),
{
    a_wrong_compensation_is_corrected(after.latency as int, after.totals.deviations@, d);
}

/// The take of a run is recorded from its first position to its last, on the one track there is.
pub proof fn a_run_is_recorded_from_start_to_end(run: Run)
    ensures
        take_of(run).len() == 2,
        take_of(run)[0] matches Command::StartRecord { track, at } && track == 0 && at == run.start,
        take_of(run)[1] matches Command::StopRecord { track, at } && track == 0 && at == run.end,
{
}

/// What a run found is added to what the runs before it found, and nothing else changes.
pub proof fn a_run_adds_to_the_totals(
    before: Measurement,
    after: Measurement,
    analysis: ClickAnalysis,
    i: int,
)
    requires
        counted(before, after, analysis),
    ensures
        after.finished == before.finished + 1,
        after.totals.matched - before.totals.matched == analysis.matched,
        after.totals.expected - before.totals.expected == analysis.expected,
        after.totals.spurious - before.totals.spurious == analysis.spurious,
        0 <= i < before.totals.deviations@.len() ==> after.totals.deviations@[i]
            == before.totals.deviations@[i],
        0 <= i < analysis.deviations@.len() ==> after.totals.deviations@[before.totals.deviations@.len()
            + i] == analysis.deviations@[i],
        after.latency == before.latency,
        after.stage == Stage::Idle,
{
}

/// A measurement goes on only in a room that is quiet enough, and with the threshold found there.
pub proof fn a_noisy_room_stops_a_measurement(
    before: Measurement,
    after: Measurement,
    error: Option<NoiseError>,
    threshold: Single,
)
    requires
        noise_met(before, after, error, threshold),
        before.stage == Stage::Noise,
    ensures
        after.stage == Stage::Idle <==> error is None,
        error is None ==> after.threshold == threshold,
        error is Some ==> after == before,
        after.totals == before.totals && after.runs == before.runs && after.finished
            == before.finished && after.latency == before.latency && after.scheduler
            == before.scheduler,
{
}

} // verus!
