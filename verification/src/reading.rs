//! Where a parameter stands: what a knob has to catch up with and what a toggle flips.
//!
//! Everything here is read out of the same snapshot the screen is drawn from, so the knob and the
//! number agree.
use vstd::prelude::*;
use vstd::string::*;
use crate::bus::{Bus, BusSend, TrackSource};
use crate::command::{Status, TrackStatus};
use crate::fx::{turned, ChainSettings, FxParam, FxSlot, Knobs, EQ_BANDS};
use crate::host::{send_seen, Session, SessionModel, UiModel};
use crate::midi::{FxKnob, Target, TrackRef};
use crate::single::Single;
use crate::text::same_text;
use crate::timeline::Bpm;
use crate::track::{is_muted, mask_bit};

verus! {

/// A value, in the terms of the parameter it belongs to.
#[derive(Clone, Copy, Debug, PartialEq, Eq, Structural)]
pub enum Reading {
    Number(Single),
    Tempo(Bpm),
    Frames(i32),
}

/// The first track of that name.
pub open spec fn first_named(tracks: Seq<UiModel>, name: Seq<char>) -> Option<int>
    decreases tracks.len(),
{
    if tracks.len() == 0 {
        None
    } else {
        match first_named(tracks.drop_last(), name) {
            Some(t) => Some(t),
            None => if tracks.last().name == name {
                Some(tracks.len() - 1)
            } else {
                None
            },
        }
    }
}

/// The track a binding means. A profile says `track.1`, a score `track.stimme`.
pub open spec fn track_meant(tracks: Seq<UiModel>, reference: TrackRef) -> Option<int> {
    match reference {
        TrackRef::Index(index) => if index < tracks.len() {
            Some(index as int)
        } else {
            None
        },
        TrackRef::Name(name) => first_named(tracks, name@),
    }
}

/// What the newest snapshot shows of one track, if it shows it.
pub open spec fn shown_of(last: Option<Status>, track: int) -> Option<TrackStatus> {
    match last {
        Some(status) => if 0 <= track < status.shown().len() {
            Some(status.shown()[track])
        } else {
            None
        },
        None => None,
    }
}

impl FxKnob {
    /// Whether the band it turns, if it turns one, exists.
    pub open spec fn exists_on_a_chain(self) -> bool {
        match self {
            FxKnob::BandHz(band) => band < EQ_BANDS,
            FxKnob::BandQ(band) => band < EQ_BANDS,
            FxKnob::BandGainDb(band) => band < EQ_BANDS,
            _ => true,
        }
    }
}

/// Where one effect knob stands.
pub open spec fn knob_shown(knobs: Knobs, knob: FxKnob) -> Single {
    match knob {
        FxKnob::HighPassHz => knobs.high_pass_hz,
        FxKnob::BandHz(band) => knobs.bands[band as int].hz,
        FxKnob::BandQ(band) => knobs.bands[band as int].q,
        FxKnob::BandGainDb(band) => knobs.bands[band as int].gain_db,
        FxKnob::CompThresholdDb => knobs.comp.threshold_db,
        FxKnob::CompRatio => knobs.comp.ratio,
        FxKnob::CompAttackMs => knobs.comp.attack_ms,
        FxKnob::CompReleaseMs => knobs.comp.release_ms,
        FxKnob::CompKneeDb => knobs.comp.knee_db,
        FxKnob::CompMakeupDb => knobs.comp.makeup_db,
        FxKnob::DelayFeedback => knobs.delay_feedback,
        FxKnob::DelayMix => knobs.delay_mix,
        FxKnob::ReverbSize => knobs.reverb_size,
        FxKnob::ReverbDamping => knobs.reverb_damping,
        FxKnob::ReverbMix => knobs.reverb_mix,
    }
}

/// Where one effect knob currently stands.
pub fn knob_value(settings: &ChainSettings, knob: FxKnob) -> (r: Single)
    requires
        knob.exists_on_a_chain(),
    ensures
        r == knob_shown(settings@, knob),
{
    match knob {
        FxKnob::HighPassHz => settings.high_pass_hz,
        FxKnob::BandHz(band) => settings.bands[band].hz,
        FxKnob::BandQ(band) => settings.bands[band].q,
        FxKnob::BandGainDb(band) => settings.bands[band].gain_db,
        FxKnob::CompThresholdDb => settings.comp.threshold_db,
        FxKnob::CompRatio => settings.comp.ratio,
        FxKnob::CompAttackMs => settings.comp.attack_ms,
        FxKnob::CompReleaseMs => settings.comp.release_ms,
        FxKnob::CompKneeDb => settings.comp.knee_db,
        FxKnob::CompMakeupDb => settings.comp.makeup_db,
        FxKnob::DelayFeedback => settings.delay_feedback,
        FxKnob::DelayMix => settings.delay_mix,
        FxKnob::ReverbSize => settings.reverb_size,
        FxKnob::ReverbDamping => settings.reverb_damping,
        FxKnob::ReverbMix => settings.reverb_mix,
    }
}

impl SessionModel {
    /// The value of a parameter that has one.
    pub open spec fn reading(self, target: Target) -> Option<Reading> {
        match target {
            Target::Tempo => Some(Reading::Tempo(self.scheduler.timeline.tempo())),
            Target::Pan(track) => match track_meant(self.tracks, track) {
                Some(t) => match shown_of(self.last, t) {
                    Some(ts) => Some(Reading::Number(ts.pan)),
                    None => Some(Reading::Number(Single { bits: 0 })),
                },
                None => None,
            },
            Target::LatencyTrim(track) => match track_meant(self.tracks, track) {
                Some(t) => Some(Reading::Frames(self.tracks[t].latency.trim)),
                None => None,
            },
            Target::LayerGain(track, layer) => match track_meant(self.tracks, track) {
                Some(t) => if layer < self.tracks[t].gains.len() {
                    Some(Reading::Number(self.tracks[t].gains[layer as int]))
                } else {
                    None
                },
                None => None,
            },
            Target::FxKnob(track, knob) => match track_meant(self.tracks, track) {
                Some(t) => match shown_of(self.last, t) {
                    Some(ts) => Some(Reading::Number(knob_shown(ts.fx.settings@, knob))),
                    None => None,
                },
                None => None,
            },
            Target::BusGain(bus) => match self.last {
                Some(status) => Some(
                    Reading::Number(
                        match bus {
                            Bus::Main => status.main_gain,
                            Bus::Monitor => status.monitor_gain,
                        },
                    ),
                ),
                None => None,
            },
            _ => None,
        }
    }

    /// The position of a switch.
    pub open spec fn position(self, target: Target) -> Option<bool> {
        match target {
            Target::Click => match self.last {
                Some(status) => Some(status.click),
                None => None,
            },
            Target::Monitor(track) => match track_meant(self.tracks, track) {
                Some(t) => match shown_of(self.last, t) {
                    Some(ts) => Some(ts.monitor),
                    None => Some(false),
                },
                None => None,
            },
            Target::LayerMute(track, layer) => match track_meant(self.tracks, track) {
                Some(t) => match shown_of(self.last, t) {
                    Some(ts) => if layer < ts.layers {
                        Some(mask_bit(ts.muted_mask as nat, layer as nat))
                    } else {
                        None
                    },
                    None => None,
                },
                None => None,
            },
            Target::FxBypass(track) => match track_meant(self.tracks, track) {
                Some(t) => match shown_of(self.last, t) {
                    Some(ts) => Some(ts.fx.bypass),
                    None => None,
                },
                None => None,
            },
            Target::FxEnabled(track, slot) => match track_meant(self.tracks, track) {
                Some(t) => match shown_of(self.last, t) {
                    Some(ts) => Some(ts.fx.settings@.enabled[slot.place()]),
                    None => None,
                },
                None => None,
            },
            Target::Send(track, source, bus) => match track_meant(self.tracks, track) {
                Some(t) => Some(self.sent_to(t, source).feeds(bus)),
                None => None,
            },
            _ => None,
        }
    }

    /// The buses one source of a track is heard on. A track nobody has seen yet goes everywhere.
    pub open spec fn sent_to(self, track: int, source: TrackSource) -> BusSend {
        match shown_of(self.last, track) {
            Some(ts) => send_seen(ts, source),
            None => BusSend::Both,
        }
    }
}

proof fn lemma_named(tracks: Seq<UiModel>, name: Seq<char>, n: int)
    requires
        0 <= n < tracks.len(),
        tracks[n].name == name,
        forall|j: int| 0 <= j < n ==> (#[trigger] tracks[j]).name != name,
    ensures
        first_named(tracks, name) == Some(n),
    decreases tracks.len(),
{
    if n == tracks.len() - 1 {
        lemma_unnamed(tracks.drop_last(), name);
    } else {
        assert forall|j: int| 0 <= j < n implies (#[trigger] tracks.drop_last()[j]).name != name by {
            assert(tracks.drop_last()[j] == tracks[j]);
        }
        lemma_named(tracks.drop_last(), name, n);
    }
}

proof fn lemma_unnamed(tracks: Seq<UiModel>, name: Seq<char>)
    requires
        forall|j: int| 0 <= j < tracks.len() ==> (#[trigger] tracks[j]).name != name,
    ensures
        first_named(tracks, name) is None,
    decreases tracks.len(),
{
    if tracks.len() > 0 {
        assert forall|j: int| 0 <= j < tracks.len() - 1 implies (
        #[trigger] tracks.drop_last()[j]).name != name by {
            assert(tracks.drop_last()[j] == tracks[j]);
        }
        lemma_unnamed(tracks.drop_last(), name);
    }
}

impl Session {
    /// A binding's track reference as an index.
    pub fn index(&self, reference: &TrackRef) -> (r: Option<usize>)
        ensures
            match track_meant(self@.tracks, *reference) {
                Some(t) => r matches Some(n) && n == t && t < self.tracks@.len(),
                None => r is None,
            },
    {
        match reference {
            TrackRef::Index(index) => if *index < self.tracks.len() {
                Some(*index)
            } else {
                None
            },
            TrackRef::Name(name) => {
                let mut i: usize = 0;
                while i < self.tracks.len()
                    invariant
                        i <= self.tracks.len(),
                        *reference == TrackRef::Name(*name),
                        forall|j: int| 0 <= j < i ==> (#[trigger] self@.tracks[j]).name != name@,
                    decreases self.tracks.len() - i,
                {
                    assert(self@.tracks[i as int] == self.tracks@[i as int]@);
                    if same_text(self.tracks[i].name.as_str(), name.as_str()) {
                        proof {
                            lemma_named(self@.tracks, name@, i as int);
                        }
                        return Some(i);
                    }
                    i = i + 1;
                }
                proof {
                    lemma_unnamed(self@.tracks, name@);
                }
                None
            },
        }
    }

    /// What the newest snapshot shows of the track a binding means.
    fn shown(&self, reference: &TrackRef) -> (r: Option<(usize, Option<TrackStatus>)>)
        ensures
            match track_meant(self@.tracks, *reference) {
                Some(t) => r matches Some((n, ts)) && n == t && t < self.tracks@.len() && ts
                    == shown_of(self.last, t),
                None => r is None,
            },
    {
        let index: usize = match self.index(reference) {
            Some(index) => index,
            None => {
                return None;
            },
        };
        let ts: Option<TrackStatus> = match self.last {
            Some(status) => {
                assert(status.tracks@.len() == 8);
                if index < status.track_count as usize && index < 8 {
                    assert(index < status.shown().len());
                    Some(status.track(index))
                } else {
                    assert(index >= status.shown().len());
                    None
                }
            },
            None => None,
        };
        Some((index, ts))
    }

    /// The whole bus assignment of one source of a track, as the engine last reported it.
    fn send_of(&self, index: usize, source: TrackSource) -> (r: BusSend)
        ensures
            r == self@.sent_to(index as int, source),
    {
        let status: TrackStatus = self.status_of(index);
        match source {
            TrackSource::Loop => status.loop_send,
            TrackSource::Monitor => status.monitor_send,
        }
    }

    /// The value of a parameter, where it has one.
    pub fn value(&self, target: &Target) -> (r: Option<Reading>)
        requires
            target matches Target::FxKnob(_, knob) ==> knob.exists_on_a_chain(),
        ensures
            r == self@.reading(*target),
    {
        assert(forall|t: int|
            0 <= t < self.tracks@.len() ==> self@.tracks[t] == (#[trigger] self.tracks@[t])@);
        match target {
            Target::Tempo => Some(Reading::Tempo(self.scheduler.timeline.bpm())),
            Target::Pan(track) => match self.shown(track) {
                Some((_, Some(ts))) => Some(Reading::Number(ts.pan)),
                Some((_, None)) => Some(Reading::Number(Single { bits: 0 })),
                None => None,
            },
            Target::LatencyTrim(track) => match self.index(track) {
                Some(index) => Some(Reading::Frames(self.tracks[index].latency.trim)),
                None => None,
            },
            Target::LayerGain(track, layer) => match self.index(track) {
                Some(index) => if *layer < self.tracks[index].gains.len() {
                    Some(Reading::Number(self.tracks[index].gains[*layer]))
                } else {
                    None
                },
                None => None,
            },
            Target::FxKnob(track, knob) => match self.shown(track) {
                Some((_, Some(ts))) => Some(Reading::Number(knob_value(&ts.fx.settings, *knob))),
                _ => None,
            },
            Target::BusGain(bus) => match self.last {
                Some(status) => Some(Reading::Number(status.bus_gain(*bus))),
                None => None,
            },
            _ => None,
        }
    }

    /// The position of a switch, where the target is one.
    pub fn switch(&self, target: &Target) -> (r: Option<bool>)
        ensures
            r == self@.position(*target),
    {
        match target {
            Target::Click => match self.last {
                Some(status) => Some(status.click),
                None => None,
            },
            Target::Monitor(track) => match self.shown(track) {
                Some((_, Some(ts))) => Some(ts.monitor),
                Some((_, None)) => Some(false),
                None => None,
            },
            Target::LayerMute(track, layer) => match self.shown(track) {
                Some((_, Some(ts))) => if *layer < ts.layers as usize {
                    Some(is_muted(ts.muted_mask, *layer))
                } else {
                    None
                },
                _ => None,
            },
            Target::FxBypass(track) => match self.shown(track) {
                Some((_, Some(ts))) => Some(ts.fx.bypass),
                _ => None,
            },
            Target::FxEnabled(track, slot) => match self.shown(track) {
                Some((_, Some(ts))) => Some(ts.fx.settings.enabled[slot.index()]),
                _ => None,
            },
            Target::Send(track, source, bus) => match self.index(track) {
                Some(index) => Some(self.send_of(index, *source).on(*bus)),
                None => None,
            },
            _ => None,
        }
    }

    /// The buses one source of a track is heard on, once there is a snapshot.
    pub fn send(&self, track: usize, source: TrackSource) -> (r: Option<BusSend>)
        ensures
            r == (match self.last {
                Some(_) => Some(self@.sent_to(track as int, source)),
                None => None,
            }),
    {
        if self.last.is_none() {
            return None;
        }
        Some(self.send_of(track, source))
    }
}

/// A knob that was turned to a value in its range stands there, and no other knob is read instead.
pub proof fn a_turned_knob_reads_back(knobs: Knobs, at: usize, value: Single)
    requires
        knobs.shaped(),
        at < 3,
    ensures
        knob_shown(turned(knobs, FxParam::HighPassHz(value)), FxKnob::HighPassHz) == value.clamped(
            Single { bits: 0x41a0_0000 },
            Single { bits: 0x447a_0000 },
        ),
        knob_shown(turned(knobs, FxParam::BandHz { band: at, hz: value }), FxKnob::BandHz(at))
            == value.clamped(Single { bits: 0x41a0_0000 }, Single { bits: 0x469c_4000 }),
        knob_shown(turned(knobs, FxParam::BandQ { band: at, q: value }), FxKnob::BandQ(at))
            == value.clamped(Single { bits: 0x3dcc_cccd }, Single { bits: 0x4140_0000 }),
        knob_shown(
            turned(knobs, FxParam::BandGainDb { band: at, db: value }),
            FxKnob::BandGainDb(at),
        ) == value.clamped(Single { bits: 0xc1c0_0000 }, Single { bits: 0x41c0_0000 }),
        knob_shown(turned(knobs, FxParam::CompThresholdDb(value)), FxKnob::CompThresholdDb)
            == value.clamped(Single { bits: 0xc270_0000 }, Single { bits: 0 }),
        knob_shown(turned(knobs, FxParam::CompRatio(value)), FxKnob::CompRatio) == value.clamped(
            Single { bits: 0x3f80_0000 },
            Single { bits: 0x41a0_0000 },
        ),
        knob_shown(turned(knobs, FxParam::CompAttackMs(value)), FxKnob::CompAttackMs)
            == value.clamped(Single { bits: 0x3dcc_cccd }, Single { bits: 0x4348_0000 }),
        knob_shown(turned(knobs, FxParam::CompReleaseMs(value)), FxKnob::CompReleaseMs)
            == value.clamped(Single { bits: 0x40a0_0000 }, Single { bits: 0x44fa_0000 }),
        knob_shown(turned(knobs, FxParam::CompKneeDb(value)), FxKnob::CompKneeDb) == value.clamped(
            Single { bits: 0 },
            Single { bits: 0x41c0_0000 },
        ),
        knob_shown(turned(knobs, FxParam::CompMakeupDb(value)), FxKnob::CompMakeupDb)
            == value.clamped(Single { bits: 0xc1c0_0000 }, Single { bits: 0x41c0_0000 }),
        knob_shown(turned(knobs, FxParam::DelayFeedback(value)), FxKnob::DelayFeedback)
            == value.clamped(Single { bits: 0 }, Single { bits: 0x3f73_3333 }),
        knob_shown(turned(knobs, FxParam::DelayMix(value)), FxKnob::DelayMix) == value.clamped(
            Single { bits: 0 },
            Single { bits: 0x3f80_0000 },
        ),
        knob_shown(turned(knobs, FxParam::ReverbSize(value)), FxKnob::ReverbSize) == value.clamped(
            Single { bits: 0 },
            Single { bits: 0x3f80_0000 },
        ),
        knob_shown(turned(knobs, FxParam::ReverbDamping(value)), FxKnob::ReverbDamping)
            == value.clamped(Single { bits: 0 }, Single { bits: 0x3f80_0000 }),
        knob_shown(turned(knobs, FxParam::ReverbMix(value)), FxKnob::ReverbMix) == value.clamped(
            Single { bits: 0 },
            Single { bits: 0x3f80_0000 },
        ),
{
}

/// A name means the first track that has it, and no track where none has; a number means the track
/// in that place.
pub proof fn a_reference_means_one_track(tracks: Seq<UiModel>, reference: TrackRef, i: int)
    requires
        0 <= i < tracks.len(),
    ensures
        reference matches TrackRef::Index(index) ==> (index < tracks.len() ==> track_meant(
            tracks,
            reference,
        ) == Some(index as int)) && (index >= tracks.len() ==> track_meant(tracks, reference)
            is None),
        reference matches TrackRef::Name(name) ==> (tracks[i].name == name@ ==> (track_meant(
            tracks,
            reference,
        ) matches Some(t) && 0 <= t <= i && tracks[t].name == name@)),
        reference matches TrackRef::Name(name) ==> (track_meant(tracks, reference) matches Some(t)
            ==> 0 <= t < tracks.len() && tracks[t].name == name@),
    decreases tracks.len(),
{
    if let TrackRef::Name(name) = reference {
        lemma_first_named(tracks, name@, i);
    }
}

proof fn lemma_first_named(tracks: Seq<UiModel>, name: Seq<char>, i: int)
    ensures
        first_named(tracks, name) matches Some(t) ==> 0 <= t < tracks.len() && tracks[t].name
            == name,
        0 <= i < tracks.len() && tracks[i].name == name ==> (first_named(tracks, name)
            matches Some(t) && t <= i),
    decreases tracks.len(),
{
    if tracks.len() > 0 {
        lemma_first_named(tracks.drop_last(), name, i);
    }
}

/// A control reads what the newest snapshot shows of the track it means: the place between the
/// speakers, the monitoring, the mute of a layer, the effects and the buses. The gains and the
/// surcharge are those the session has set itself.
pub proof fn a_control_reads_what_is_shown(
    session: SessionModel,
    t: usize,
    layer: usize,
    slot: FxSlot,
    knob: FxKnob,
    source: TrackSource,
    bus: Bus,
    ts: TrackStatus,
)
    requires
        t < session.tracks.len(),
        shown_of(session.last, t as int) == Some(ts),
    ensures
        session.reading(Target::Pan(TrackRef::Index(t))) == Some(Reading::Number(ts.pan)),
        session.reading(Target::LatencyTrim(TrackRef::Index(t))) == Some(
            Reading::Frames(session.tracks[t as int].latency.trim),
        ),
        layer < session.tracks[t as int].gains.len() ==> session.reading(
            Target::LayerGain(TrackRef::Index(t), layer),
        ) == Some(Reading::Number(session.tracks[t as int].gains[layer as int])),
        session.reading(Target::FxKnob(TrackRef::Index(t), knob)) == Some(
            Reading::Number(knob_shown(ts.fx.settings@, knob)),
        ),
        session.reading(Target::Tempo) == Some(
            Reading::Tempo(session.scheduler.timeline.tempo()),
        ),
        session.position(Target::Monitor(TrackRef::Index(t))) == Some(ts.monitor),
        layer < ts.layers ==> session.position(Target::LayerMute(TrackRef::Index(t), layer))
            == Some(mask_bit(ts.muted_mask as nat, layer as nat)),
        session.position(Target::FxBypass(TrackRef::Index(t))) == Some(ts.fx.bypass),
        session.position(Target::FxEnabled(TrackRef::Index(t), slot)) == Some(
            ts.fx.settings@.enabled[slot.place()],
        ),
        source == TrackSource::Loop ==> session.position(
            Target::Send(TrackRef::Index(t), source, bus),
        ) == Some(ts.loop_send.feeds(bus)),
        source == TrackSource::Monitor ==> session.position(
            Target::Send(TrackRef::Index(t), source, bus),
        ) == Some(ts.monitor_send.feeds(bus)),
{
}

/// A control on a bus or on the metronome reads the newest snapshot.
pub proof fn a_control_reads_the_engine(session: SessionModel, status: Status)
    requires
        session.last == Some(status),
    ensures
        session.reading(Target::BusGain(Bus::Main)) == Some(Reading::Number(status.main_gain)),
        session.reading(Target::BusGain(Bus::Monitor)) == Some(
            Reading::Number(status.monitor_gain),
        ),
        session.position(Target::Click) == Some(status.click),
{
}

} // verus!
