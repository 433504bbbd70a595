//! From a user action to timed engine commands.
//!
//! Two ideas carry the whole file:
//!
//! * **Everything musical happens on a bar boundary.** A command is stamped with an absolute sample
//!   position and the audio thread executes it exactly there, so it does not matter how long the
//!   command takes to get there, as long as it arrives before its own time.
//! * **`guard` is what makes that true.** Every scheduled position is at least `guard` samples ahead
//!   of where the engine is estimated to be.
use vstd::prelude::*;
use vstd::string::*;
use crate::command::{Command, TrackState, MAX_TRACKS};
use crate::limits::{check_loop, loop_capacity, loop_error, MARGIN};
use crate::live::TrackDef;
use crate::proto::TrackConfig;
use crate::text::{
    decimal,
    holds,
    push_decimal,
    trim,
    trimmed,
    what_is_put_between_stands_there,
};
use crate::timeline::{
    a_bar_start_lies_in_that_bar,
    a_position_lies_in_its_bar,
    a_timeline_is_its_rate_tempo_and_metre,
    bars_are_ordered,
    beat_denominator,
    beat_numerator,
    earlier_beats_are_reached,
    rounded,
    rounding_is_to_the_nearest,
    tempo_error,
    tempo_message,
    the_next_boundary_is_the_first_one,
    Bpm,
    TimeSignature,
    Timeline,
    MAX_BEAT,
};

verus! {

/// Which grid a take snaps to.
#[derive(Clone, Copy, Debug, PartialEq, Eq, Structural)]
pub enum Quantize {
    /// Next bar boundary.
    Bar,
    /// Next loop boundary.
    Loop,
}

/// What a track is waiting for.
#[derive(Clone, Copy, Debug, PartialEq, Eq, Structural)]
pub enum PendingKind {
    Record,
    Overdub,
    Play,
    Stop,
}

pub open spec fn pending_label(kind: PendingKind) -> Seq<char> {
    match kind {
        PendingKind::Record => "Aufnahme"@,
        PendingKind::Overdub => "Overdub"@,
        PendingKind::Play => "Wiedergabe"@,
        PendingKind::Stop => "Stopp"@,
    }
}

impl PendingKind {
    /// German word, ready to print.
    pub fn label(self) -> (r: &'static str)
        ensures
            r@ == pending_label(self),
    {
        match self {
            PendingKind::Record => "Aufnahme",
            PendingKind::Overdub => "Overdub",
            PendingKind::Play => "Wiedergabe",
            PendingKind::Stop => "Stopp",
        }
    }
}

/// How far away the next scheduled thing of a track is.
#[derive(Clone, Copy, Debug, PartialEq, Eq, Structural)]
pub struct Lead {
    pub kind: Option<PendingKind>,
    /// Whole bars still to go.
    pub bars: u32,
    /// Beats on top of that.
    pub beats: u32,
}

impl Default for Lead {
    fn default() -> (r: Self)
        ensures
            r == (Lead { kind: None, bars: 0, beats: 0 }),
    {
        Lead { kind: None, bars: 0, beats: 0 }
    }
}

/// Commands to send, plus the German sentence describing what was scheduled.
#[derive(Debug)]
pub struct Scheduled {
    pub commands: Vec<Command>,
    pub message: String,
}

/// Turns actions into commands for one engine configuration.
#[derive(Clone, Copy, Debug)]
pub struct Scheduler {
    pub timeline: Timeline,
    /// Configured loop length in bars.
    pub bars: u32,
    /// Head start every scheduled command gets, so it can never arrive after its own time.
    pub guard: u64,
}

/// A name in quotation marks.
pub open spec fn quoted(name: Seq<char>) -> Seq<char> {
    "\""@ + name + "\""@
}

/// Append a name in quotation marks.
pub fn push_quoted(out: &mut String, name: &str)
    ensures
        final(out)@ == old(out)@ + quoted(name@),
{
    out.append("\"");
    out.append(name);
    out.append("\"");
    assert(out@ =~= old(out)@ + quoted(name@));
}

/// Samples that pass in a number of nanoseconds.
pub open spec fn samples_in(nanos: int, sample_rate: int) -> int {
    nanos * sample_rate / 1_000_000_000
}

/// The first multiple of `k` that is not below `n`.
pub open spec fn next_multiple(n: int, k: int) -> int {
    if k <= 0 {
        n
    } else {
        (n + k - 1) / k * k
    }
}

proof fn lemma_next_multiple(n: int, k: int)
    requires
        n >= 0,
        k > 0,
    ensures
        n <= next_multiple(n, k) < n + k,
        next_multiple(n, k) % k == 0,
        0 <= (n + k - 1) / k <= n,
{
    let x = n + k - 1;
    vstd::arithmetic::div_mod::lemma_fundamental_div_mod(x, k);
    vstd::arithmetic::div_mod::lemma_mod_bound(x, k);
    vstd::arithmetic::div_mod::lemma_mod_multiples_basic(x / k, k);
    assert(x / k * k == k * (x / k)) by (nonlinear_arith);
    vstd::arithmetic::div_mod::lemma_div_pos_is_pos(x, k);
    assert(x / k <= n) by (nonlinear_arith)
        requires
            k * (x / k) <= x,
            x == n + k - 1,
            n >= 0,
            k > 0,
    ;
}

/// The head start of a scheduled command: four buffers and twenty milliseconds.
pub open spec fn head_start(buffer_frames: u32, rate: int) -> int {
    buffer_frames * 4 + rate / 50
}

impl Scheduler {
    /// The bar a take starts in: the next one that can still be caught, or the next one in which a
    /// loop of the configured length begins.
    pub open spec fn take_bar(self, grid: Quantize, est: u64) -> int {
        match grid {
            Quantize::Bar => self.first_bar(est),
            Quantize::Loop => next_multiple(self.first_bar(est), self.bars as int),
        }
    }

    /// Where a take starts.
    pub open spec fn take_from(self, grid: Quantize, est: u64) -> int {
        self.timeline.bar_at(self.take_bar(grid, est))
    }

    /// Where a take of the configured length ends.
    pub open spec fn take_end(self, grid: Quantize, est: u64) -> int {
        self.timeline.bar_at(self.take_bar(grid, est) + self.bars)
    }

    /// Where a further layer starts. The loop boundaries of a track that holds a loop are its own:
    /// they follow each other by the length of its loop, from where it began.
    pub open spec fn layer_from(self, grid: Quantize, est: u64, origin: u64, loop_len: u64) -> int {
        if loop_len == 0 {
            self.take_from(grid, est)
        } else {
            match grid {
                Quantize::Bar => self.take_from(grid, est),
                Quantize::Loop => if est + self.guard <= origin {
                    origin as int
                } else {
                    origin + next_multiple(est + self.guard - origin, loop_len as int)
                },
            }
        }
    }

    /// Where a further layer ends: after one pass of the existing loop, or after the configured
    /// number of bars where there is none yet.
    pub open spec fn layer_end(self, grid: Quantize, est: u64, origin: u64, loop_len: u64) -> int {
        if loop_len == 0 {
            self.take_end(grid, est)
        } else {
            self.layer_from(grid, est, origin, loop_len) + loop_len
        }
    }

    /// Whether a take of the configured length fits where positions can still be counted.
    pub open spec fn reaches_take(self, grid: Quantize, est: u64) -> bool {
        &&& self.reaches_end(est)
        &&& self.timeline.reaches((self.take_bar(grid, est) + self.bars) * self.timeline.per_bar())
    }

    /// Whether everything that can be planned from a position lies where positions can be counted.
    pub open spec fn plannable(self, grid: Quantize, est: u64, origin: u64, loop_len: u64) -> bool {
        &&& self.reaches_take(grid, est)
        &&& self.layer_from(grid, est, origin, loop_len) < MAX_BEAT
        &&& self.layer_end(grid, est, origin, loop_len) <= u64::MAX
    }

    /// A recording starts on its grid, lasts the configured bars and is heard from its end on.
    pub open spec fn take_plan(self, grid: Quantize, track: usize, est: u64) -> Seq<Command> {
        seq![
            Command::StartRecord { track, at: self.take_from(grid, est) as u64 },
            Command::StopRecord { track, at: self.take_end(grid, est) as u64 },
            Command::StartPlay { track, at: self.take_end(grid, est) as u64 },
        ]
    }

    pub open spec fn take_text(self, grid: Quantize, name: Seq<char>, est: u64) -> Seq<char> {
        quoted(name) + ": neuer Loop ab Takt "@ + decimal((self.take_bar(grid, est) + 1) as nat)
            + " ueber "@ + decimal(self.bars as nat) + " Takte."@
    }

    /// A further layer starts on its grid.
    pub open spec fn layer_plan(
        self,
        grid: Quantize,
        track: usize,
        est: u64,
        origin: u64,
        loop_len: u64,
    ) -> Seq<Command> {
        let end = self.layer_end(grid, est, origin, loop_len) as u64;
        seq![
            Command::StartOverdub {
                track,
                at: self.layer_from(grid, est, origin, loop_len) as u64,
            },
            Command::StopRecord { track, at: end },
            Command::StartPlay { track, at: end },
        ]
    }

    pub open spec fn layer_text(
        self,
        grid: Quantize,
        name: Seq<char>,
        est: u64,
        origin: u64,
        loop_len: u64,
        layers: u8,
    ) -> Seq<char> {
        quoted(name) + ": Ebene "@ + decimal((layers + 1) as nat) + " ab Takt "@ + decimal(
            (self.timeline.bar_of(self.layer_from(grid, est, origin, loop_len)) + 1) as nat,
        ) + "."@
    }
}

impl Scheduler {
    /// The bar boundary a musical action lands on.
    pub open spec fn grid_from(self, est: u64) -> int {
        self.timeline.boundary_from(est + self.guard)
    }

    /// The bar that begins there.
    pub open spec fn first_bar(self, est: u64) -> int {
        self.timeline.bar_of(self.grid_from(est))
    }

    /// Where a take of the configured length that starts there ends.
    pub open spec fn last_boundary(self, est: u64) -> int {
        self.timeline.bar_at(self.first_bar(est) + self.bars)
    }

    /// Whether the next boundary lies where positions can still be counted.
    pub open spec fn reaches_next(self, est: u64) -> bool {
        self.timeline.reaches_past(est + self.guard) && self.grid_from(est) < MAX_BEAT
    }

    /// Whether a take of the configured length fits behind it.
    pub open spec fn reaches_end(self, est: u64) -> bool {
        self.reaches_next(est) && self.timeline.reaches(
            (self.first_bar(est) + self.bars) * self.timeline.per_bar(),
        )
    }

    /// Where a further layer that starts on the grid ends: after one pass of the existing loop, or
    /// after the configured number of bars where there is none yet.
    pub open spec fn overdub_end(self, est: u64, loop_len: u64) -> int {
        if loop_len > 0 {
            self.grid_from(est) + loop_len
        } else {
            self.last_boundary(est)
        }
    }

    /// A recording starts on the grid, lasts the configured bars and is heard from its end on.
    pub open spec fn record_plan(self, track: usize, est: u64) -> Seq<Command> {
        seq![
            Command::StartRecord { track, at: self.grid_from(est) as u64 },
            Command::StopRecord { track, at: self.last_boundary(est) as u64 },
            Command::StartPlay { track, at: self.last_boundary(est) as u64 },
        ]
    }

    pub open spec fn record_text(self, name: Seq<char>, est: u64) -> Seq<char> {
        quoted(name) + ": neuer Loop ab Takt "@ + decimal((self.first_bar(est) + 1) as nat)
            + " ueber "@ + decimal(self.bars as nat) + " Takte."@
    }

    /// A further layer starts on the grid.
    pub open spec fn overdub_plan(self, track: usize, est: u64, loop_len: u64) -> Seq<Command> {
        seq![
            Command::StartOverdub { track, at: self.grid_from(est) as u64 },
            Command::StopRecord { track, at: self.overdub_end(est, loop_len) as u64 },
            Command::StartPlay { track, at: self.overdub_end(est, loop_len) as u64 },
        ]
    }

    pub open spec fn overdub_text(self, name: Seq<char>, est: u64, layers: u8) -> Seq<char> {
        quoted(name) + ": Ebene "@ + decimal((layers + 1) as nat) + " ab Takt "@ + decimal(
            (self.first_bar(est) + 1) as nat,
        ) + "."@
    }

    /// A scheduled recording is cancelled, a running one is closed on the grid, and otherwise
    /// playback stops.
    pub open spec fn stop_plan(self, track: usize, est: u64, state: TrackState) -> Seq<Command> {
        match state {
            TrackState::Armed => seq![
                Command::ClearTrack { track, at: (est + self.guard) as u64 },
            ],
            TrackState::Recording | TrackState::Overdub => seq![
                Command::StopRecord { track, at: self.grid_from(est) as u64 },
                Command::StartPlay { track, at: self.grid_from(est) as u64 },
            ],
            _ => seq![Command::StopPlay { track, at: (est + self.guard) as u64 }],
        }
    }

    pub open spec fn stop_text(self, name: Seq<char>, est: u64, state: TrackState) -> Seq<char> {
        match state {
            TrackState::Armed => "Geplante Aufnahme abgebrochen."@,
            TrackState::Recording | TrackState::Overdub => "Aufnahme endet mit Takt "@ + decimal(
                self.first_bar(est) as nat,
            ) + "."@,
            _ => quoted(name) + ": Wiedergabe gestoppt."@,
        }
    }

    pub open spec fn play_plan(self, track: usize, est: u64) -> Seq<Command> {
        seq![Command::StartPlay { track, at: self.grid_from(est) as u64 }]
    }

    pub open spec fn play_text(self, name: Seq<char>, est: u64) -> Seq<char> {
        quoted(name) + ": Wiedergabe ab Takt "@ + decimal((self.first_bar(est) + 1) as nat) + "."@
    }

    pub open spec fn clear_plan(self, track: usize, est: u64) -> Seq<Command> {
        seq![Command::ClearTrack { track, at: (est + self.guard) as u64 }]
    }

    pub open spec fn clear_all_plan(self, est: u64) -> Seq<Command> {
        seq![Command::ClearAll { at: (est + self.guard) as u64 }]
    }

    /// `guard` is four buffers plus 20 ms: more than one round through both callbacks, so a command
    /// is always in the waiting room before it is due.
    pub fn new(timeline: Timeline, bars: u32, buffer_frames: u32) -> (r: Self)
        requires
            buffer_frames * 4 + timeline.rate() / 50 <= u32::MAX,
        ensures
            r.timeline == timeline,
            r.bars == bars,
            r.guard == buffer_frames * 4 + timeline.rate() / 50,
            r.guard == head_start(buffer_frames, timeline.rate()),
    {
        let rate: u32 = timeline.sample_rate();
        Scheduler { timeline, bars, guard: (buffer_frames * 4 + rate / 50) as u64 }
    }

    /// Where the audio thread is now, as well as the control side can know: the position of the
    /// newest status snapshot plus the time that has passed since it arrived, in nanoseconds.
    ///
    /// Both streams run on the interface clock, so this is good to a few samples, and the rest is
    /// absorbed by `guard` and by quantising to a bar boundary.
    pub fn estimated_pos(&self, last: Option<(u64, u64)>) -> (r: u64)
        requires
            last matches Some((pos, nanos)) ==> pos + samples_in(
                nanos as int,
                self.timeline.rate(),
            ) <= u64::MAX,
        ensures
            r == (match last {
                Some((pos, nanos)) => pos + samples_in(nanos as int, self.timeline.rate()),
                None => 0,
            }),
    {
        match last {
            Some((pos, nanos)) => {
                let rate: u32 = self.timeline.sample_rate();
                proof {
                    assert(0 <= nanos * rate <= 0xffff_ffff_ffff_ffff * 0xffff_ffff)
                        by (nonlinear_arith)
                        requires
                            0 <= nanos <= 0xffff_ffff_ffff_ffff,
                            0 <= rate <= 0xffff_ffff,
                    ;
                }
                let passed: u128 = nanos as u128 * rate as u128 / 1_000_000_000;
                pos + passed as u64
            },
            None => 0,
        }
    }

    /// Next bar boundary far enough ahead for the audio thread to still see the command.
    pub fn next_bar(&self, est: u64) -> (r: u64)
        requires
            self.timeline.reaches_past(est + self.guard),
        ensures
            r == self.grid_from(est),
            r >= est + self.guard,
    {
        self.timeline.bar_start_at_or_after(est + self.guard)
    }

    /// Position for a command that has no musical meaning and should act as soon as possible.
    pub fn soon(&self, est: u64) -> (r: u64)
        requires
            est + self.guard <= u64::MAX,
        ensures
            r == est + self.guard,
    {
        est + self.guard
    }

    /// Whether everything that can be planned from a position lies where positions can be counted:
    /// the next boundary, a take of the configured length, and one pass of a loop of `loop_len`
    /// samples.
    pub fn can_plan(&self, est: u64, loop_len: u64) -> (r: bool)
        ensures
            r == (self.reaches_end(est) && self.overdub_end(est, loop_len) <= u64::MAX),
    {
        if est as u128 + self.guard as u128 >= MAX_BEAT as u128 {
            return false;
        }
        let pos: u64 = est + self.guard;
        let per_bar: u64 = self.timeline.beats_per_bar();
        assert(per_bar <= 0xffff_ffff);
        let bar: u64 = self.timeline.bar_index_at(pos);
        proof {
            assert(0 <= (bar + 1) * per_bar <= (MAX_BEAT + 1) * 0xffff_ffff) by (nonlinear_arith)
                requires
                    0 <= bar <= MAX_BEAT,
                    0 <= per_bar <= 0xffff_ffff,
            ;
        }
        let next: u128 = (bar as u128 + 1) * per_bar as u128;
        if next >= MAX_BEAT as u128 || !self.timeline.reaches_beat(next as u64) {
            return false;
        }
        let start: u64 = self.next_bar(est);
        if start >= MAX_BEAT {
            return false;
        }
        let first: u64 = self.timeline.bar_index_at(start);
        proof {
            assert(0 <= (first + self.bars) * per_bar <= (MAX_BEAT + 0xffff_ffff) * 0xffff_ffff)
                by (nonlinear_arith)
                requires
                    0 <= first <= MAX_BEAT,
                    0 <= self.bars <= 0xffff_ffff,
                    0 <= per_bar <= 0xffff_ffff,
            ;
        }
        let last: u128 = (first as u128 + self.bars as u128) * per_bar as u128;
        if last >= MAX_BEAT as u128 || !self.timeline.reaches_beat(last as u64) {
            return false;
        }
        loop_len == 0 || start as u128 + loop_len as u128 <= 0xffff_ffff_ffff_ffff
    }

    /// A new loop: replaces whatever the track holds, over the configured number of bars.
    pub fn record(&self, track: usize, name: &str, est: u64) -> (r: Scheduled)
        requires
            self.reaches_end(est),
        ensures
            r.commands@ == self.record_plan(track, est),
            r.message@ == self.record_text(name@, est),
    {
        let start: u64 = self.next_bar(est);
        let bar: u64 = self.timeline.bar_index_at(start);
        let end: u64 = self.timeline.position_of(bar + self.bars as u64, 0);
        let mut message = String::new();
        push_quoted(&mut message, name);
        message.append(": neuer Loop ab Takt ");
        push_decimal(&mut message, bar + 1);
        message.append(" ueber ");
        push_decimal(&mut message, self.bars as u64);
        message.append(" Takte.");
        Scheduled {
            commands: vec![
                Command::StartRecord { track, at: start },
                Command::StopRecord { track, at: end },
                Command::StartPlay { track, at: end },
            ],
            message,
        }
    }

    /// A further layer. It covers exactly one pass of the existing loop; on an empty track it is the
    /// first take and gets the configured number of bars, so an overdub can never fail just because
    /// nothing is there yet.
    pub fn overdub(&self, track: usize, name: &str, est: u64, loop_len: u64, layers: u8) -> (r:
        Scheduled)
        requires
            self.reaches_end(est),
            self.overdub_end(est, loop_len) <= u64::MAX,
        ensures
            r.commands@ == self.overdub_plan(track, est, loop_len),
            r.message@ == self.overdub_text(name@, est, layers),
    {
        let start: u64 = self.next_bar(est);
        let bar: u64 = self.timeline.bar_index_at(start);
        let end: u64 = if loop_len > 0 {
            start + loop_len
        } else {
            self.timeline.position_of(bar + self.bars as u64, 0)
        };
        let mut message = String::new();
        push_quoted(&mut message, name);
        message.append(": Ebene ");
        push_decimal(&mut message, layers as u64 + 1);
        message.append(" ab Takt ");
        push_decimal(&mut message, bar + 1);
        message.append(".");
        Scheduled {
            commands: vec![
                Command::StartOverdub { track, at: start },
                Command::StopRecord { track, at: end },
                Command::StartPlay { track, at: end },
            ],
            message,
        }
    }

    /// The bar a take starts in.
    fn first_bar_on(&self, grid: Quantize, est: u64) -> (r: u64)
        requires
            self.reaches_next(est),
        ensures
            r == self.take_bar(grid, est),
            r <= MAX_BEAT + 0xffff_ffff,
    {
        let first: u64 = self.timeline.bar_index_at(self.next_bar(est));
        match grid {
            Quantize::Bar => first,
            Quantize::Loop => {
                if self.bars == 0 {
                    return first;
                }
                let k: u64 = self.bars as u64;
                proof {
                    lemma_next_multiple(first as int, k as int);
                }
                (first + (k - 1)) / k * k
            },
        }
    }

    /// Where a further layer of a track that holds a loop starts on its own boundaries, if that can
    /// be counted.
    fn own_boundary(&self, est: u64, origin: u64, loop_len: u64) -> (r: Option<u64>)
        requires
            loop_len > 0,
            est + self.guard <= u64::MAX,
        ensures
            match r {
                Some(at) => at == self.layer_from(Quantize::Loop, est, origin, loop_len),
                None => self.layer_from(Quantize::Loop, est, origin, loop_len) > u64::MAX,
            },
    {
        let pos: u64 = est + self.guard;
        if pos <= origin {
            return Some(origin);
        }
        let away: u128 = (pos - origin) as u128;
        let k: u128 = loop_len as u128;
        proof {
            lemma_next_multiple(away as int, k as int);
        }
        let at: u128 = origin as u128 + (away + (k - 1)) / k * k;
        if at > 0xffff_ffff_ffff_ffff {
            None
        } else {
            Some(at as u64)
        }
    }

    /// Whether everything that can be planned from a position lies where positions can be counted.
    pub fn can_plan_on(&self, grid: Quantize, est: u64, origin: u64, loop_len: u64) -> (r: bool)
        ensures
            r == self.plannable(grid, est, origin, loop_len),
    {
        if !self.can_plan(est, 0) {
            return false;
        }
        let bar: u64 = self.first_bar_on(grid, est);
        let per_bar: u64 = self.timeline.beats_per_bar();
        proof {
            assert(0 <= (bar + self.bars) * per_bar <= (MAX_BEAT + 0x1_ffff_ffff) * 0xffff_ffff)
                by (nonlinear_arith)
                requires
                    0 <= bar <= MAX_BEAT + 0xffff_ffff,
                    0 <= self.bars <= 0xffff_ffff,
                    0 <= per_bar <= 0xffff_ffff,
            ;
        }
        let last: u128 = (bar as u128 + self.bars as u128) * per_bar as u128;
        if last >= MAX_BEAT as u128 || !self.timeline.reaches_beat(last as u64) {
            return false;
        }
        proof {
            use_type_invariant(&self.timeline);
            self.lemma_take_is_reached(grid, est);
        }
        let start: u64 = if loop_len > 0 && grid == Quantize::Loop {
            match self.own_boundary(est, origin, loop_len) {
                Some(at) => at,
                None => {
                    return false;
                },
            }
        } else {
            self.timeline.bar_start(bar)
        };
        start < MAX_BEAT && (loop_len == 0 || start as u128 + loop_len as u128
            <= 0xffff_ffff_ffff_ffff)
    }

    proof fn lemma_take_is_reached(self, grid: Quantize, est: u64)
        requires
            self.timeline.wf(),
            self.reaches_next(est),
            self.timeline.reaches((self.take_bar(grid, est) + self.bars) * self.timeline.per_bar()),
        ensures
            self.timeline.reaches(self.take_bar(grid, est) * self.timeline.per_bar()),
            self.take_bar(grid, est) >= 0,
    {
        let first = self.first_bar(est);
        let n = self.take_bar(grid, est);
        let k = self.timeline.per_bar();
        an_action_lands_on_the_first_boundary_ahead(self, est, 0);
        a_position_lies_in_its_bar(self.timeline, self.grid_from(est));
        if self.bars > 0 {
            lemma_next_multiple(first, self.bars as int);
        }
        assert(0 <= n * k <= (n + self.bars) * k) by (nonlinear_arith)
            requires
                n >= 0,
                k > 0,
                self.bars >= 0,
        ;
        earlier_beats_are_reached(self.timeline, n * k, (n + self.bars) * k);
    }

    /// A new loop on its grid: replaces whatever the track holds, over the configured number of
    /// bars.
    pub fn record_on(&self, grid: Quantize, track: usize, name: &str, est: u64) -> (r: Scheduled)
        requires
            self.reaches_take(grid, est),
        ensures
            r.commands@ == self.take_plan(grid, track, est),
            r.message@ == self.take_text(grid, name@, est),
    {
        proof {
            use_type_invariant(&self.timeline);
            self.lemma_take_is_reached(grid, est);
        }
        let bar: u64 = self.first_bar_on(grid, est);
        let start: u64 = self.timeline.bar_start(bar);
        let end: u64 = self.timeline.position_of(bar + self.bars as u64, 0);
        let mut message = String::new();
        push_quoted(&mut message, name);
        message.append(": neuer Loop ab Takt ");
        push_decimal(&mut message, bar + 1);
        message.append(" ueber ");
        push_decimal(&mut message, self.bars as u64);
        message.append(" Takte.");
        Scheduled {
            commands: vec![
                Command::StartRecord { track, at: start },
                Command::StopRecord { track, at: end },
                Command::StartPlay { track, at: end },
            ],
            message,
        }
    }

    /// A further layer on its grid. It covers exactly one pass of the existing loop; on an empty
    /// track it is the first take and gets the configured number of bars.
    pub fn overdub_on(
        &self,
        grid: Quantize,
        track: usize,
        name: &str,
        est: u64,
        origin: u64,
        loop_len: u64,
        layers: u8,
    ) -> (r: Scheduled)
        requires
            self.plannable(grid, est, origin, loop_len),
        ensures
            r.commands@ == self.layer_plan(grid, track, est, origin, loop_len),
            r.message@ == self.layer_text(grid, name@, est, origin, loop_len, layers),
    {
        proof {
            use_type_invariant(&self.timeline);
            self.lemma_take_is_reached(grid, est);
        }
        let bar: u64 = self.first_bar_on(grid, est);
        let start: u64 = if loop_len > 0 && grid == Quantize::Loop {
            match self.own_boundary(est, origin, loop_len) {
                Some(at) => at,
                None => 0,
            }
        } else {
            self.timeline.bar_start(bar)
        };
        let end: u64 = if loop_len > 0 {
            start + loop_len
        } else {
            self.timeline.position_of(bar + self.bars as u64, 0)
        };
        let mut message = String::new();
        push_quoted(&mut message, name);
        message.append(": Ebene ");
        push_decimal(&mut message, layers as u64 + 1);
        message.append(" ab Takt ");
        push_decimal(&mut message, self.timeline.bar_index_at(start) + 1);
        message.append(".");
        Scheduled {
            commands: vec![
                Command::StartOverdub { track, at: start },
                Command::StopRecord { track, at: end },
                Command::StartPlay { track, at: end },
            ],
            message,
        }
    }

    /// One button for three situations: a scheduled recording is cancelled, a running one is closed
    /// on the next bar, and otherwise playback stops.
    pub fn stop(&self, track: usize, name: &str, est: u64, state: TrackState) -> (r: Scheduled)
        requires
            self.reaches_next(est),
        ensures
            r.commands@ == self.stop_plan(track, est, state),
            r.message@ == self.stop_text(name@, est, state),
    {
        match state {
            TrackState::Armed => Scheduled {
                commands: vec![Command::ClearTrack { track, at: self.soon(est) }],
                message: "Geplante Aufnahme abgebrochen.".to_owned(),
            },
            TrackState::Recording | TrackState::Overdub => {
                let end: u64 = self.next_bar(est);
                let mut message = String::new();
                message.append("Aufnahme endet mit Takt ");
                push_decimal(&mut message, self.timeline.bar_index_at(end));
                message.append(".");
                assert(message@ =~= "Aufnahme endet mit Takt "@ + decimal(
                    self.first_bar(est) as nat,
                ) + "."@);
                Scheduled {
                    commands: vec![
                        Command::StopRecord { track, at: end },
                        Command::StartPlay { track, at: end },
                    ],
                    message,
                }
            },
            _ => {
                let mut message = String::new();
                push_quoted(&mut message, name);
                message.append(": Wiedergabe gestoppt.");
                assert(message@ =~= quoted(name@) + ": Wiedergabe gestoppt."@);
                Scheduled {
                    commands: vec![Command::StopPlay { track, at: self.soon(est) }],
                    message,
                }
            },
        }
    }

    pub fn play(&self, track: usize, name: &str, est: u64) -> (r: Scheduled)
        requires
            self.reaches_next(est),
        ensures
            r.commands@ == self.play_plan(track, est),
            r.message@ == self.play_text(name@, est),
    {
        let at: u64 = self.next_bar(est);
        let mut message = String::new();
        push_quoted(&mut message, name);
        message.append(": Wiedergabe ab Takt ");
        push_decimal(&mut message, self.timeline.bar_index_at(at) + 1);
        message.append(".");
        assert(message@ =~= quoted(name@) + ": Wiedergabe ab Takt "@ + decimal(
            (self.first_bar(est) + 1) as nat,
        ) + "."@);
        Scheduled { commands: vec![Command::StartPlay { track, at }], message }
    }

    pub fn clear_track(&self, track: usize, name: &str, est: u64) -> (r: Scheduled)
        requires
            est + self.guard <= u64::MAX,
        ensures
            r.commands@ == self.clear_plan(track, est),
            r.message@ == quoted(name@) + " geleert."@,
    {
        let mut message = String::new();
        push_quoted(&mut message, name);
        message.append(" geleert.");
        assert(message@ =~= quoted(name@) + " geleert."@);
        Scheduled { commands: vec![Command::ClearTrack { track, at: self.soon(est) }], message }
    }

    pub fn clear_all(&self, est: u64) -> (r: Scheduled)
        requires
            est + self.guard <= u64::MAX,
        ensures
            r.commands@ == self.clear_all_plan(est),
            r.message@ == "Alles geleert - Zustand wie frisch gestartet."@,
    {
        Scheduled {
            commands: vec![Command::ClearAll { at: self.soon(est) }],
            message: "Alles geleert - Zustand wie frisch gestartet.".to_owned(),
        }
    }
}

// ---------------------------------------------------------------------------------------------
// Checks before a start
// ---------------------------------------------------------------------------------------------

/// Length of a loop of `bars` bars under a tempo and a metre.
pub open spec fn grid_length(sample_rate: u32, bpm: Bpm, signature: TimeSignature, bars: u32) -> int {
    rounded(
        bars * signature.beats_per_bar,
        beat_numerator(sample_rate as int),
        beat_denominator(bpm, signature),
    )
}

/// The first sentence that keeps a tempo from carrying a loop of `bars` bars.
pub open spec fn grid_error(
    sample_rate: u32,
    bpm: Bpm,
    shown: Seq<char>,
    signature: TimeSignature,
    bars: u32,
    latency: u64,
) -> Option<Seq<char>> {
    match tempo_error(sample_rate, bpm, signature) {
        Some(error) => Some(tempo_message(error, shown)),
        None => loop_error(grid_length(sample_rate, bpm, signature, bars), bars, latency),
    }
}

/// Build a timeline for a tempo and check that a loop of `bars` bars can exist at it. `shown` is the
/// tempo as the caller writes it.
pub fn build_timeline(
    sample_rate: u32,
    bpm: Bpm,
    shown: &str,
    beats_per_bar: u32,
    beat_unit: u32,
    bars: u32,
    latency_samples: u64,
) -> (r: Result<Timeline, String>)
    requires
        ({
            let signature = TimeSignature { beats_per_bar, beat_unit };
            tempo_error(sample_rate, bpm, signature) is None ==> {
                &&& bars * beats_per_bar < MAX_BEAT
                &&& grid_length(sample_rate, bpm, signature, bars) <= u64::MAX
            }
        }),
    ensures
        match grid_error(
            sample_rate,
            bpm,
            shown@,
            TimeSignature { beats_per_bar, beat_unit },
            bars,
            latency_samples,
        ) {
            Some(text) => r matches Err(e) && e@ == text,
            None => r matches Ok(timeline) && timeline.rate() == sample_rate && timeline.tempo()
                == bpm && timeline.metre() == (TimeSignature { beats_per_bar, beat_unit }),
        },
{
    let signature = TimeSignature::new(beats_per_bar, beat_unit);
    match Timeline::validate(sample_rate, bpm, signature) {
        Ok(()) => {},
        Err(error) => {
            return Err(error.message(shown));
        },
    }
    let timeline = Timeline::new(sample_rate, bpm, signature);
    proof {
        assert(bars * beats_per_bar >= 0) by (nonlinear_arith)
            requires
                bars >= 0,
                beats_per_bar >= 0,
        ;
    }
    match check_loop(&timeline, bars, latency_samples) {
        Ok(()) => Ok(timeline),
        Err(text) => Err(text),
    }
}

/// Another tempo for a running session: the length its layers then have, or the sentence that keeps
/// it from carrying a loop of `bars` bars.
pub open spec fn regridded(
    sample_rate: u32,
    bpm: Bpm,
    shown: Seq<char>,
    signature: TimeSignature,
    bars: u32,
    latency: u64,
) -> Result<u64, Seq<char>> {
    let len = grid_length(sample_rate, bpm, signature, bars);
    match tempo_error(sample_rate, bpm, signature) {
        Some(error) => Err(tempo_message(error, shown)),
        None => if bars * signature.beats_per_bar >= MAX_BEAT || len + MARGIN > i64::MAX {
            Err("Der Loop ist zu lang."@)
        } else {
            match loop_error(len, bars, latency) {
                Some(text) => Err(text),
                None => Ok((len + MARGIN) as u64),
            }
        },
    }
}

/// A timeline for a tempo, and the length of one layer buffer under it.
pub fn grid(
    sample_rate: u32,
    bpm: Bpm,
    shown: &str,
    signature: TimeSignature,
    bars: u32,
    latency: u64,
) -> (r: Result<(Timeline, u64), String>)
    ensures
        match regridded(sample_rate, bpm, shown@, signature, bars, latency) {
            Err(text) => r matches Err(e) && e@ == text,
            Ok(layer_frames) => {
                &&& r matches Ok(grid)
                &&& grid.0.rate() == sample_rate
                &&& grid.0.tempo() == bpm
                &&& grid.0.metre() == signature
                &&& grid.0.reaches(bars * grid.0.per_bar())
                &&& grid.1 == layer_frames
            },
        },
{
    match Timeline::validate(sample_rate, bpm, signature) {
        Ok(()) => {},
        Err(error) => {
            return Err(error.message(shown));
        },
    }
    let timeline = Timeline::new(sample_rate, bpm, signature);
    assert(0 <= bars * signature.beats_per_bar <= 0xffff_ffff * 0xffff_ffff) by (nonlinear_arith)
        requires
            0 <= bars <= 0xffff_ffff,
            0 <= signature.beats_per_bar <= 0xffff_ffff,
    ;
    let beats: u64 = bars as u64 * signature.beats_per_bar as u64;
    if !timeline.reaches_beat(beats) || timeline.beat_start(beats) > 0x7fff_ffff_ffff_ffff
        - MARGIN {
        return Err("Der Loop ist zu lang.".to_owned());
    }
    match check_loop(&timeline, bars, latency) {
        Err(text) => Err(text),
        Ok(()) => {
            let layer_frames: u64 = loop_capacity(&timeline, bars);
            Ok((timeline, layer_frames))
        },
    }
}

/// The timeline with another tempo, and the length of one layer buffer under it.
pub fn regrid(
    timeline: &Timeline,
    bpm: Bpm,
    shown: &str,
    signature: TimeSignature,
    bars: u32,
    latency: u64,
) -> (r: Result<(Timeline, u64), String>)
    ensures
        match regridded(timeline.rate() as u32, bpm, shown@, signature, bars, latency) {
            Err(text) => r matches Err(e) && e@ == text,
            Ok(layer_frames) => {
                &&& r matches Ok(grid)
                &&& grid.0 == timeline.retimed(bpm, signature)
                &&& grid.0.rate() == timeline.rate()
                &&& grid.0.metre() == signature
                &&& grid.0.reaches(bars * grid.0.per_bar())
                &&& grid.1 == layer_frames
            },
        },
{
    let r = grid(timeline.sample_rate(), bpm, shown, signature, bars, latency);
    proof {
        if let Ok(found) = r {
            timeline.a_retimed_timeline_keeps_its_rate(bpm, signature);
            a_timeline_is_its_rate_tempo_and_metre(found.0, timeline.retimed(bpm, signature));
        }
    }
    r
}

/// The sentence about one entry of a track list, where `earlier` holds the names before it.
pub open spec fn entry_error(
    config: TrackConfig,
    earlier: Seq<Seq<char>>,
    input_channels: int,
) -> Option<Seq<char>> {
    let name = trimmed(config.name@);
    if name.len() == 0 {
        Some("Ein Track ohne Namen geht nicht."@)
    } else if config.input_channel == 0 {
        Some(
            "Track "@ + quoted(name)
                + ": Eingaenge werden ab 1 gezaehlt, wie am Geraet beschriftet."@,
        )
    } else if config.input_channel > input_channels {
        Some(
            "Track "@ + quoted(name) + " soll auf Eingang "@ + decimal(config.input_channel as nat)
                + " hoeren, das Geraet liefert aber nur "@ + decimal(input_channels as nat)
                + " Eingangskanaele (also Eingang 1 bis "@ + decimal(input_channels as nat)
                + ")."@,
        )
    } else if earlier.contains(name) {
        Some(
            "Der Trackname "@ + quoted(name)
                + " kommt zweimal vor. Namen muessen eindeutig sein."@,
        )
    } else {
        None
    }
}

/// The names of the first `n` entries.
pub open spec fn entry_names(configs: Seq<TrackConfig>, n: int) -> Seq<Seq<char>> {
    Seq::new(n as nat, |i: int| trimmed(configs[i].name@))
}

/// The first sentence about the first `n` entries.
pub open spec fn entries_error(
    configs: Seq<TrackConfig>,
    n: nat,
    input_channels: int,
) -> Option<Seq<char>>
    decreases n,
{
    if n == 0 {
        None
    } else {
        match entries_error(configs, (n - 1) as nat, input_channels) {
            Some(text) => Some(text),
            None => entry_error(configs[n - 1], entry_names(configs, n - 1), input_channels),
        }
    }
}

/// The first sentence about a whole track list.
pub open spec fn track_list_error(configs: Seq<TrackConfig>, input_channels: int) -> Option<
    Seq<char>,
> {
    if input_channels == 0 {
        Some("Das Geraet meldet keinen einzigen Eingangskanal."@)
    } else if configs.len() == 0 {
        Some("Kein Track angelegt. Es braucht mindestens einen."@)
    } else if configs.len() > MAX_TRACKS {
        Some(
            decimal(configs.len()) + " Tracks angefragt, moeglich sind hoechstens "@ + decimal(
                MAX_TRACKS as nat,
            ) + "."@,
        )
    } else {
        entries_error(configs, configs.len(), input_channels)
    }
}

/// Once an entry is wrong, so is every longer list that begins with it.
proof fn lemma_error_stays(configs: Seq<TrackConfig>, n: nat, m: nat, input_channels: int)
    requires
        n <= m,
        entries_error(configs, n, input_channels) is Some,
    ensures
        entries_error(configs, m, input_channels) == entries_error(configs, n, input_channels),
    decreases m,
{
    if n < m {
        lemma_error_stays(configs, n, (m - 1) as nat, input_channels);
    }
}

fn channel_sentence(name: &str, channel: u32, input_channels: usize) -> (r: String)
    ensures
        r@ == "Track "@ + quoted(name@) + " soll auf Eingang "@ + decimal(channel as nat)
            + " hoeren, das Geraet liefert aber nur "@ + decimal(input_channels as nat)
            + " Eingangskanaele (also Eingang 1 bis "@ + decimal(input_channels as nat) + ")."@,
{
    let mut r = String::new();
    r.append("Track ");
    push_quoted(&mut r, name);
    r.append(" soll auf Eingang ");
    push_decimal(&mut r, channel as u64);
    r.append(" hoeren, das Geraet liefert aber nur ");
    push_decimal(&mut r, input_channels as u64);
    r.append(" Eingangskanaele (also Eingang 1 bis ");
    push_decimal(&mut r, input_channels as u64);
    r.append(").");
    r
}

/// Whether a name is among the tracks defined so far.
fn name_is_taken(defs: &Vec<TrackDef>, name: &String) -> (r: bool)
    ensures
        r == (exists|i: int| 0 <= i < defs@.len() && #[trigger] defs@[i].name@ == name@),
{
    let mut i: usize = 0;
    while i < defs.len()
        invariant
            i <= defs.len(),
            forall|j: int| 0 <= j < i ==> #[trigger] defs@[j].name@ != name@,
        decreases defs.len() - i,
    {
        if defs[i].name == *name {
            return true;
        }
        i = i + 1;
    }
    false
}

/// Turn the track list of a start configuration into engine track definitions.
///
/// Four rules: at least one track, an input the device actually has, unique names, and the track
/// ceiling of the status snapshot.
pub fn resolve_tracks(configs: &Vec<TrackConfig>, input_channels: usize) -> (r: Result<
    Vec<TrackDef>,
    String,
>)
    ensures
        match track_list_error(configs@, input_channels as int) {
            Some(text) => r matches Err(e) && e@ == text,
            None => {
                &&& r is Ok
                &&& r->Ok_0@.len() == configs@.len()
                &&& forall|i: int|
                    0 <= i < configs@.len() ==> {
                        &&& (#[trigger] r->Ok_0@[i]).name@ == trimmed(configs@[i].name@)
                        &&& r->Ok_0@[i].channel == configs@[i].input_channel - 1
                    }
            },
        },
{
    if input_channels == 0 {
        return Err("Das Geraet meldet keinen einzigen Eingangskanal.".to_owned());
    }
    if configs.len() == 0 {
        return Err("Kein Track angelegt. Es braucht mindestens einen.".to_owned());
    }
    if configs.len() > MAX_TRACKS {
        let mut text = String::new();
        push_decimal(&mut text, configs.len() as u64);
        text.append(" Tracks angefragt, moeglich sind hoechstens ");
        push_decimal(&mut text, MAX_TRACKS as u64);
        text.append(".");
        assert(text@ =~= track_list_error(configs@, input_channels as int)->0);
        return Err(text);
    }
    let mut defs: Vec<TrackDef> = Vec::new();
    let mut i: usize = 0;
    while i < configs.len()
        invariant
            i <= configs.len(),
            input_channels > 0,
            0 < configs@.len() <= MAX_TRACKS,
            defs@.len() == i,
            entries_error(configs@, i as nat, input_channels as int) is None,
            forall|j: int|
                0 <= j < i ==> {
                    &&& (#[trigger] defs@[j]).name@ == trimmed(configs@[j].name@)
                    &&& defs@[j].channel == configs@[j].input_channel - 1
                },
        decreases configs.len() - i,
    {
        let config: &TrackConfig = &configs[i];
        let name: String = trim(config.name.as_str()).to_owned();
        let ghost earlier = entry_names(configs@, i as int);
        let ghost wrong = entry_error(*config, earlier, input_channels as int);
        let ghost so_far = entries_error(configs@, (i + 1) as nat, input_channels as int);
        assert(so_far == wrong);
        let taken: bool = name_is_taken(&defs, &name);
        proof {
            assert(taken == earlier.contains(name@)) by {
                if taken {
                    let j = choose|j: int|
                        0 <= j < defs@.len() && #[trigger] defs@[j].name@ == name@;
                    assert(earlier[j] == name@);
                }
                if earlier.contains(name@) {
                    let j = choose|j: int| 0 <= j < earlier.len() && earlier[j] == name@;
                    assert(defs@[j].name@ == name@);
                }
            }
            if wrong is Some {
                lemma_error_stays(
                    configs@,
                    (i + 1) as nat,
                    configs@.len(),
                    input_channels as int,
                );
            }
        }
        if name.as_str().is_empty() {
            return Err("Ein Track ohne Namen geht nicht.".to_owned());
        }
        if config.input_channel == 0 {
            let mut text = String::new();
            text.append("Track ");
            push_quoted(&mut text, name.as_str());
            text.append(": Eingaenge werden ab 1 gezaehlt, wie am Geraet beschriftet.");
            assert(text@ =~= wrong->0);
            return Err(text);
        }
        if config.input_channel as usize > input_channels {
            return Err(channel_sentence(name.as_str(), config.input_channel, input_channels));
        }
        if taken {
            let mut text = String::new();
            text.append("Der Trackname ");
            push_quoted(&mut text, name.as_str());
            text.append(" kommt zweimal vor. Namen muessen eindeutig sein.");
            assert(text@ =~= wrong->0);
            return Err(text);
        }
        defs.push(TrackDef { name, channel: config.input_channel as usize - 1 });
        i = i + 1;
    }
    Ok(defs)
}

// ---------------------------------------------------------------------------------------------
// Laws
// ---------------------------------------------------------------------------------------------

/// Every musical action lands on a bar boundary, at least the head start ahead of where the engine
/// is, and on no later one than necessary.
pub proof fn an_action_lands_on_the_first_boundary_ahead(s: Scheduler, est: u64, bar: int)
    requires
        s.timeline.wf(),
    ensures
        s.grid_from(est) >= est + s.guard,
        s.timeline.bar_at(s.first_bar(est)) == s.grid_from(est),
        s.timeline.bar_at(bar) >= est + s.guard ==> s.grid_from(est) <= s.timeline.bar_at(bar),
{
    the_next_boundary_is_the_first_one(s.timeline, est + s.guard, bar);
}

/// A recording lasts exactly as long as the configured number of bars does from the bar it starts
/// in, and is heard from its end on.
pub proof fn a_recording_lasts_the_configured_bars(s: Scheduler, track: usize, est: u64)
    requires
        s.timeline.wf(),
        s.reaches_end(est),
    ensures
        ({
            let plan = s.record_plan(track, est);
            let first = s.first_bar(est);
            &&& plan[0].due() == s.timeline.bar_at(first)
            &&& plan[1].due() - plan[0].due() == s.timeline.bar_at(first + s.bars)
                - s.timeline.bar_at(first)
            &&& plan[2].due() == plan[1].due()
        }),
{
    an_action_lands_on_the_first_boundary_ahead(s, est, 0);
    bars_are_ordered(s.timeline, s.first_bar(est), s.first_bar(est) + s.bars);
}

/// One early press is enough: on the loop grid a recording starts where a loop of the configured
/// length begins, never too early to be caught, and on no later such place than necessary.
pub proof fn a_loop_take_starts_on_a_loop_boundary(s: Scheduler, est: u64, k: int)
    requires
        s.timeline.wf(),
        s.bars > 0,
        k >= 0,
    ensures
        s.take_bar(Quantize::Loop, est) % (s.bars as int) == 0,
        s.take_from(Quantize::Loop, est) >= est + s.guard,
        s.timeline.bar_at(k * s.bars) >= est + s.guard ==> s.take_bar(Quantize::Loop, est) <= k
            * s.bars,
{
    let first = s.first_bar(est);
    let bars = s.bars as int;
    an_action_lands_on_the_first_boundary_ahead(s, est, k * bars);
    a_position_lies_in_its_bar(s.timeline, s.grid_from(est));
    lemma_next_multiple(first, bars);
    bars_are_ordered(s.timeline, first, s.take_bar(Quantize::Loop, est));
    if s.timeline.bar_at(k * bars) >= est + s.guard {
        assert(0 <= k * bars) by (nonlinear_arith)
            requires
                k >= 0,
                bars > 0,
        ;
        if k * bars < first {
            bars_are_ordered(s.timeline, k * bars, first);
        }
        let x = first + bars - 1;
        vstd::arithmetic::div_mod::lemma_fundamental_div_mod(x, bars);
        vstd::arithmetic::div_mod::lemma_mod_bound(x, bars);
        assert(x / bars <= k) by (nonlinear_arith)
            requires
                bars * (x / bars) <= x,
                x == first + bars - 1,
                first <= k * bars,
                bars > 0,
        ;
        assert(x / bars * bars <= k * bars) by (nonlinear_arith)
            requires
                x / bars <= k,
                bars > 0,
        ;
    }
}

/// On the bar grid a take starts on the next bar that can still be caught.
pub proof fn a_bar_take_starts_on_the_next_bar(s: Scheduler, track: usize, est: u64)
    requires
        s.timeline.wf(),
    ensures
        s.take_plan(Quantize::Bar, track, est) == s.record_plan(track, est),
{
    an_action_lands_on_the_first_boundary_ahead(s, est, 0);
}

/// A further layer on the loop grid lies over the loop it joins: it starts a whole number of passes
/// after the loop began, not before it can be caught, and less than a pass later than that, and it
/// covers one pass.
pub proof fn a_layer_lies_over_its_loop(s: Scheduler, est: u64, origin: u64, loop_len: u64)
    requires
        loop_len > 0,
    ensures
        ({
            let from = s.layer_from(Quantize::Loop, est, origin, loop_len);
            &&& (from - origin) % (loop_len as int) == 0
            &&& from >= est + s.guard
            &&& from >= origin
            &&& from < est + s.guard + loop_len || from == origin
            &&& s.layer_end(Quantize::Loop, est, origin, loop_len) - from == loop_len
        }),
{
    if est + s.guard > origin {
        lemma_next_multiple(est + s.guard - origin, loop_len as int);
    } else {
        vstd::arithmetic::div_mod::lemma_small_mod(0, loop_len as nat);
    }
}

/// An overdub covers exactly one pass of the existing loop, whatever length is configured.
pub proof fn an_overdub_covers_one_pass(s: Scheduler, est: u64, loop_len: u64)
    requires
        loop_len > 0,
    ensures
        s.overdub_end(est, loop_len) - s.grid_from(est) == loop_len,
{
}

/// A resolved track list has no two tracks of the same name and only inputs the device has.
pub proof fn resolved_tracks_are_distinct(configs: Seq<TrackConfig>, input_channels: int, i: int, j: int)
    requires
        track_list_error(configs, input_channels) is None,
        0 <= i < j < configs.len(),
    ensures
        trimmed(configs[i].name@) != trimmed(configs[j].name@),
        1 <= configs[j].input_channel <= input_channels,
        trimmed(configs[j].name@).len() > 0,
{
    lemma_entry_was_fine(configs, configs.len(), j, input_channels);
    let names = entry_names(configs, j);
    assert(names[i] == trimmed(configs[i].name@));
}

proof fn lemma_entry_was_fine(configs: Seq<TrackConfig>, n: nat, j: int, input_channels: int)
    requires
        entries_error(configs, n, input_channels) is None,
        0 <= j < n,
    ensures
        entry_error(configs[j], entry_names(configs, j), input_channels) is None,
    decreases n,
{
    if j < n - 1 {
        lemma_entry_was_fine(configs, (n - 1) as nat, j, input_channels);
    }
}

/// Stopping a track that records closes the take on the first bar boundary that can still be caught
/// and lets the track play from there on, whether the take is the first of the loop or a further
/// layer.
pub proof fn a_stopped_take_plays_on_from_a_boundary(
    s: Scheduler,
    track: usize,
    est: u64,
    state: TrackState,
    bar: int,
)
    requires
        s.timeline.wf(),
        s.grid_from(est) <= u64::MAX,
        state == TrackState::Recording || state == TrackState::Overdub,
    ensures
        ({
            let plan = s.stop_plan(track, est, state);
            &&& plan.len() == 2
            &&& plan[0] matches Command::StopRecord { track: closed, at: end }
            &&& plan[1] matches Command::StartPlay { track: heard, at: from }
            &&& closed == track && heard == track
            &&& end == from
            &&& end >= est + s.guard
            &&& s.timeline.bar_at(s.timeline.bar_of(end as int)) == end
            &&& s.timeline.bar_at(bar) >= est + s.guard ==> s.timeline.bar_at(bar) >= end
        }),
{
    the_next_boundary_is_the_first_one(s.timeline, est + s.guard, bar);
}

/// Stopping throws a track away only where nothing has been recorded yet: a take that is still
/// armed is cancelled, and a track in any other state is not cleared.
pub proof fn a_stop_clears_only_an_armed_track(
    s: Scheduler,
    track: usize,
    est: u64,
    state: TrackState,
    i: int,
)
    requires
        0 <= i < s.stop_plan(track, est, state).len(),
    ensures
        s.stop_plan(track, est, state)[i].target() == Some(track),
        s.stop_plan(track, est, state)[i] is ClearTrack <==> state == TrackState::Armed,
        !(s.stop_plan(track, est, state)[i] is StartRecord),
        !(s.stop_plan(track, est, state)[i] is StartOverdub),
        !(s.stop_plan(track, est, state)[i] is ClearAll),
{
}

/// Stopping a track that does not record silences it, and cancelling an armed take clears it, both
/// as soon as a command can arrive in time.
pub proof fn an_idle_track_is_silenced_at_once(
    s: Scheduler,
    track: usize,
    est: u64,
    state: TrackState,
)
    requires
        est + s.guard <= u64::MAX,
        state != TrackState::Recording,
        state != TrackState::Overdub,
    ensures
        s.stop_plan(track, est, state).len() == 1,
        s.stop_plan(track, est, state)[0].due() == est + s.guard,
        state != TrackState::Armed ==> s.stop_plan(track, est, state)[0] is StopPlay,
{
}

/// Playback starts on the first bar boundary that can still be caught, and a track or all of them
/// are cleared as soon as a command can arrive in time; nothing else is planned.
pub proof fn playing_and_clearing_are_one_command(s: Scheduler, track: usize, est: u64, bar: int)
    requires
        s.timeline.wf(),
        s.grid_from(est) <= u64::MAX,
    ensures
        ({
            let plan = s.play_plan(track, est);
            &&& plan.len() == 1
            &&& plan[0] matches Command::StartPlay { track: heard, at: from }
            &&& heard == track
            &&& from >= est + s.guard
            &&& s.timeline.bar_at(s.timeline.bar_of(from as int)) == from
            &&& s.timeline.bar_at(bar) >= est + s.guard ==> s.timeline.bar_at(bar) >= from
        }),
        ({
            let plan = s.clear_plan(track, est);
            &&& plan.len() == 1
            &&& plan[0] matches Command::ClearTrack { track: gone, at }
            &&& gone == track
            &&& at == est + s.guard
        }),
        ({
            let plan = s.clear_all_plan(est);
            &&& plan.len() == 1
            &&& plan[0] matches Command::ClearAll { at }
            &&& at == est + s.guard
        }),
{
    the_next_boundary_is_the_first_one(s.timeline, est + s.guard, bar);
}

/// A new loop is recorded for the configured number of bars from a bar boundary on, closed there,
/// and heard from the same position on. It never starts before a command can arrive in time.
pub proof fn a_take_is_recorded_closed_and_heard(
    s: Scheduler,
    grid: Quantize,
    track: usize,
    est: u64,
)
    requires
        s.timeline.wf(),
        s.take_end(grid, est) <= u64::MAX,
    ensures
        ({
            let plan = s.take_plan(grid, track, est);
            &&& plan.len() == 3
            &&& plan[0] matches Command::StartRecord { track: recorded, at: from }
            &&& plan[1] matches Command::StopRecord { track: closed, at: end }
            &&& plan[2] matches Command::StartPlay { track: heard, at: again }
            &&& recorded == track && closed == track && heard == track
            &&& from >= est + s.guard
            &&& from == s.timeline.bar_at(s.timeline.bar_of(from as int))
            &&& end == s.timeline.bar_at(s.timeline.bar_of(from as int) + s.bars)
            &&& again == end
        }),
{
    let first = s.first_bar(est);
    an_action_lands_on_the_first_boundary_ahead(s, est, 0);
    a_position_lies_in_its_bar(s.timeline, s.grid_from(est));
    if grid == Quantize::Loop && s.bars > 0 {
        lemma_next_multiple(first, s.bars as int);
    }
    let bar = s.take_bar(grid, est);
    bars_are_ordered(s.timeline, first, bar);
    bars_are_ordered(s.timeline, bar, bar + s.bars);
    a_bar_start_lies_in_that_bar(s.timeline, bar);
}

/// A further layer is opened as one, closed after its pass and heard from there on. It never starts
/// a new loop.
pub proof fn a_layer_is_opened_closed_and_heard(
    s: Scheduler,
    grid: Quantize,
    track: usize,
    est: u64,
    origin: u64,
    loop_len: u64,
)
    requires
        s.timeline.wf(),
        0 <= s.layer_from(grid, est, origin, loop_len) <= u64::MAX,
        0 <= s.layer_end(grid, est, origin, loop_len) <= u64::MAX,
    ensures
        ({
            let plan = s.layer_plan(grid, track, est, origin, loop_len);
            &&& plan.len() == 3
            &&& plan[0] matches Command::StartOverdub { track: recorded, at: from }
            &&& plan[1] matches Command::StopRecord { track: closed, at: end }
            &&& plan[2] matches Command::StartPlay { track: heard, at: again }
            &&& recorded == track && closed == track && heard == track
            &&& from >= est + s.guard
            &&& loop_len > 0 ==> end == from + loop_len
            &&& again == end
        }),
{
    an_action_lands_on_the_first_boundary_ahead(s, est, 0);
    a_position_lies_in_its_bar(s.timeline, s.grid_from(est));
    if grid == Quantize::Loop && s.bars > 0 {
        lemma_next_multiple(s.first_bar(est), s.bars as int);
    }
    bars_are_ordered(s.timeline, s.first_bar(est), s.take_bar(grid, est));
    if loop_len > 0 {
        a_layer_lies_over_its_loop(s, est, origin, loop_len);
    }
}

/// On the bar grid a further layer starts on the next bar that can still be caught, and over a track
/// without a loop it starts and ends as a new loop would.
pub proof fn a_layer_keeps_to_its_grid(
    s: Scheduler,
    grid: Quantize,
    est: u64,
    origin: u64,
    loop_len: u64,
    bar: int,
)
    requires
        s.timeline.wf(),
    ensures
        s.timeline.bar_at(bar) >= est + s.guard ==> s.timeline.bar_at(bar) >= s.layer_from(
            Quantize::Bar,
            est,
            origin,
            loop_len,
        ),
        s.layer_from(Quantize::Bar, est, origin, loop_len) >= est + s.guard,
        s.layer_from(grid, est, origin, 0) == s.take_from(grid, est),
        s.layer_end(grid, est, origin, 0) == s.take_end(grid, est),
{
    an_action_lands_on_the_first_boundary_ahead(s, est, bar);
}

/// An overdub without a choice of grid is a further layer on the bar grid.
pub proof fn a_plain_overdub_is_a_layer_on_the_bar_grid(
    s: Scheduler,
    track: usize,
    est: u64,
    origin: u64,
    loop_len: u64,
)
    requires
        s.timeline.wf(),
    ensures
        s.overdub_plan(track, est, loop_len) == s.layer_plan(
            Quantize::Bar,
            track,
            est,
            origin,
            loop_len,
        ),
{
    an_action_lands_on_the_first_boundary_ahead(s, est, 0);
}

/// In a second pass as many samples as the rate says, in any time no more than that share of them,
/// and never a whole sample less.
pub proof fn samples_pass_at_the_rate(nanos: int, sample_rate: int, seconds: int)
    requires
        nanos >= 0,
        sample_rate >= 0,
        seconds >= 0,
    ensures
        samples_in(seconds * 1_000_000_000, sample_rate) == seconds * sample_rate,
        samples_in(nanos, sample_rate) * 1_000_000_000 <= nanos * sample_rate,
        nanos * sample_rate < (samples_in(nanos, sample_rate) + 1) * 1_000_000_000,
{
    let whole = seconds * 1_000_000_000 * sample_rate;
    assert(whole == 1_000_000_000 * (seconds * sample_rate)) by (nonlinear_arith)
        requires
            whole == seconds * 1_000_000_000 * sample_rate,
    ;
}

/// The first multiple that is not below a number: it is one, it is not below, and the one before
/// it is.
pub proof fn the_next_multiple_is_the_first(n: int, k: int, i: int)
    requires
        n >= 0,
        k > 0,
    ensures
        next_multiple(n, k) % k == 0,
        n <= next_multiple(n, k) < n + k,
        i * k >= n ==> i * k >= next_multiple(n, k),
{
    lemma_next_multiple(n, k);
    let q = (n + k - 1) / k;
    if i * k >= n && i * k < q * k {
        assert(false) by (nonlinear_arith)
            requires
                n <= i * k,
                i * k < q * k,
                q * k < n + k,
                k > 0,
        ;
    }
}

/// Another tempo is accepted exactly where it can be counted, the loop is neither too long for the
/// machine nor outlasted by the compensation; the layers are then longer than the loop by the
/// margin.
pub proof fn a_grid_is_accepted_where_it_carries_the_loop(
    sample_rate: u32,
    bpm: Bpm,
    shown: Seq<char>,
    signature: TimeSignature,
    bars: u32,
    latency: u64,
)
    ensures
        ({
            let r = regridded(sample_rate, bpm, shown, signature, bars, latency);
            let len = grid_length(sample_rate, bpm, signature, bars);
            let fine = tempo_error(sample_rate, bpm, signature) is None;
            let countable = bars * signature.beats_per_bar < 1152921504606846976 && len + 64
                <= i64::MAX;
            &&& r is Ok <==> fine && countable && bars > 0 && len > latency
            &&& r matches Ok(capacity) ==> capacity == len + 64
        }),
{
}

/// The length of a loop in samples is that of its beats, to within half a sample: `bars` times the
/// beats of a bar, each four quarters over the beat unit, at as many quarters a minute as the tempo
/// says.
pub proof fn a_loop_is_as_long_as_its_beats(
    sample_rate: u32,
    bpm: Bpm,
    signature: TimeSignature,
    bars: u32,
)
    requires
        tempo_error(sample_rate, bpm, signature) is None,
    ensures
        ({
            let len = grid_length(sample_rate, bpm, signature, bars);
            let beats = bars * signature.beats_per_bar;
            let per = bpm.scaled() * signature.beat_unit;
            let exact = beats * (sample_rate * 240 * 4503599627370496);
            -per < 2 * (len * per - exact) <= per
        }),
{
    rounding_is_to_the_nearest(
        bars * signature.beats_per_bar,
        beat_numerator(sample_rate as int),
        beat_denominator(bpm, signature),
    );
}

/// A track list is accepted exactly where it is not empty and not too long, every track has a name of
/// its own and an input the device has.
pub proof fn a_track_list_that_fits_is_accepted(configs: Seq<TrackConfig>, input_channels: int)
    requires
        0 < configs.len() <= 8,
        forall|i: int|
            0 <= i < configs.len() ==> 1 <= (#[trigger] configs[i]).input_channel
                <= input_channels,
        forall|i: int|
            0 <= i < configs.len() ==> trimmed((#[trigger] configs[i]).name@).len() > 0,
        forall|i: int, j: int|
            0 <= i < j < configs.len() ==> trimmed((#[trigger] configs[i]).name@) != trimmed(
                (#[trigger] configs[j]).name@,
            ),
    ensures
        track_list_error(configs, input_channels) is None,
{
    assert(1 <= configs[0].input_channel <= input_channels);
    lemma_entries_fit(configs, configs.len(), input_channels);
}

proof fn lemma_entries_fit(configs: Seq<TrackConfig>, n: nat, input_channels: int)
    requires
        n <= configs.len(),
        forall|i: int|
            0 <= i < configs.len() ==> 1 <= (#[trigger] configs[i]).input_channel
                <= input_channels,
        forall|i: int|
            0 <= i < configs.len() ==> trimmed((#[trigger] configs[i]).name@).len() > 0,
        forall|i: int, j: int|
            0 <= i < j < configs.len() ==> trimmed((#[trigger] configs[i]).name@) != trimmed(
                (#[trigger] configs[j]).name@,
            ),
    ensures
        entries_error(configs, n, input_channels) is None,
    decreases n,
{
    if n > 0 {
        lemma_entries_fit(configs, (n - 1) as nat, input_channels);
        let names = entry_names(configs, n - 1);
        let name = trimmed(configs[n - 1].name@);
        if names.contains(name) {
            let k = choose|k: int| 0 <= k < names.len() && names[k] == name;
            assert(trimmed(configs[k].name@) != trimmed(configs[n - 1].name@));
        }
    }
}

/// A list with no track or with more than eight is refused, whatever stands in it.
pub proof fn a_track_list_has_one_to_eight_tracks(
    configs: Seq<TrackConfig>,
    input_channels: int,
)
    requires
        track_list_error(configs, input_channels) is None,
    ensures
        1 <= configs.len() <= 8,
        input_channels != 0,
{
}

/// The head start is longer than one round through both callbacks: four buffers, and a fiftieth of a
/// second on top, rounded down.
pub proof fn the_head_start_outlasts_a_round(buffer_frames: u32, rate: int)
    requires
        rate >= 0,
    ensures
        head_start(buffer_frames, rate) >= 4 * buffer_frames,
        50 * (head_start(buffer_frames, rate) - 4 * buffer_frames) <= rate,
        rate < 50 * (head_start(buffer_frames, rate) - 4 * buffer_frames + 1),
{
}

/// What is said about a plan names its numbers, counted from one: the bar a take starts in and how
/// many bars it lasts, the number of the new layer, the bar playback starts in.
pub proof fn a_plan_names_its_bars(
    s: Scheduler,
    grid: Quantize,
    name: Seq<char>,
    est: u64,
    origin: u64,
    loop_len: u64,
    layers: u8,
)
    ensures
        holds(s.take_text(grid, name, est), decimal((s.take_bar(grid, est) + 1) as nat)),
        holds(s.take_text(grid, name, est), decimal(s.bars as nat)),
        holds(
            s.layer_text(grid, name, est, origin, loop_len, layers),
            decimal((layers + 1) as nat),
        ),
        holds(
            s.layer_text(grid, name, est, origin, loop_len, layers),
            decimal(
                (s.timeline.bar_of(s.layer_from(grid, est, origin, loop_len)) + 1) as nat,
            ),
        ),
        holds(s.play_text(name, est), decimal((s.first_bar(est) + 1) as nat)),
        holds(s.play_text(name, est), name),
        holds(s.stop_text(name, est, TrackState::Recording), decimal(s.first_bar(est) as nat)),
        s.stop_text(name, est, TrackState::Overdub) == s.stop_text(
            name,
            est,
            TrackState::Recording,
        ),
{
    let bar = decimal((s.take_bar(grid, est) + 1) as nat);
    let bars = decimal(s.bars as nat);
    let head = quoted(name) + ": neuer Loop ab Takt "@;
    what_is_put_between_stands_there(head, bar, " ueber "@ + bars + " Takte."@);
    assert(head + bar + (" ueber "@ + bars + " Takte."@) =~= s.take_text(grid, name, est));
    what_is_put_between_stands_there(head + bar + " ueber "@, bars, " Takte."@);
    assert((head + bar + " ueber "@) + bars + " Takte."@ =~= s.take_text(grid, name, est));
    let layer = decimal((layers + 1) as nat);
    let at = decimal((s.timeline.bar_of(s.layer_from(grid, est, origin, loop_len)) + 1) as nat);
    let text = s.layer_text(grid, name, est, origin, loop_len, layers);
    what_is_put_between_stands_there(
        quoted(name) + ": Ebene "@,
        layer,
        " ab Takt "@ + at + "."@,
    );
    assert((quoted(name) + ": Ebene "@) + layer + (" ab Takt "@ + at + "."@) =~= text);
    what_is_put_between_stands_there(
        quoted(name) + ": Ebene "@ + layer + " ab Takt "@,
        at,
        "."@,
    );
    let first = decimal((s.first_bar(est) + 1) as nat);
    what_is_put_between_stands_there(quoted(name) + ": Wiedergabe ab Takt "@, first, "."@);
    what_is_put_between_stands_there("\""@, name, "\""@ + (": Wiedergabe ab Takt "@ + first + "."@));
    assert("\""@ + name + ("\""@ + (": Wiedergabe ab Takt "@ + first + "."@)) =~= s.play_text(
        name,
        est,
    ));
    what_is_put_between_stands_there(
        "Aufnahme endet mit Takt "@,
        decimal(s.first_bar(est) as nat),
        "."@,
    );
}

} // verus!
