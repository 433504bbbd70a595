//! The bridge between a controller and the window: the open port, the mapping in effect, the learn
//! mode, and the queue of reports.
use vstd::prelude::*;
use vstd::string::*;
use crate::mapping::{
    bound_models,
    increasing,
    mapped,
    takeovers,
    Binding,
    BindingModel,
    Bound,
    BoundModel,
    MidiMap,
};
use crate::midi::{
    id_of,
    text_model,
    unknown_id_text,
    MidiBindingView,
    MidiEvent,
    MidiEventReport,
    MidiFeed,
    MidiId,
    MidiIdKind,
    MidiOutcome,
    MidiSaved,
    MidiView,
    ReportModel,
};
use crate::schedule::{push_quoted, quoted};
use crate::text::{decimal, push_decimal, same_text, texts};

verus! {

/// Reports kept while waiting for the next emit window. A knob sweep coalesces, so this is only ever
/// reached by something genuinely pathological.
pub const PENDING_MAX: usize = 64;

// ---------------------------------------------------------------------------------------------
// The queue of reports
// ---------------------------------------------------------------------------------------------

/// Where the newest waiting report of a swept control stands.
pub open spec fn newest_of(pending: Seq<ReportModel>, id: Seq<char>) -> Option<int>
    decreases pending.len(),
{
    if pending.len() == 0 {
        None
    } else if pending.last().id == id && pending.last().continuous {
        Some(pending.len() - 1)
    } else {
        newest_of(pending.drop_last(), id)
    }
}

/// The waiting reports with one more. A knob that is being swept coalesces: the newest value of a
/// control takes the place of the one before it. A full queue loses its oldest report.
pub open spec fn pushed(pending: Seq<ReportModel>, report: ReportModel) -> Seq<ReportModel> {
    match newest_of(pending, report.id) {
        Some(at) if report.continuous => pending.update(at, report),
        _ => if pending.len() >= PENDING_MAX {
            pending.remove(0).push(report)
        } else {
            pending.push(report)
        },
    }
}

/// The report of one event.
pub open spec fn report_of(
    seq: u64,
    event: MidiEvent,
    outcome: MidiOutcome,
    target: Option<Seq<char>>,
    label: Option<Seq<char>>,
    note: Option<Seq<char>>,
) -> ReportModel {
    ReportModel {
        seq,
        id: event.control().key(),
        short: event.control().badge(),
        channel: event.control().channel,
        what: event.word(),
        number: if event is PitchBend {
            None
        } else {
            Some(event.control().number)
        },
        value: event.amount() as i32,
        target,
        target_label: label,
        outcome,
        note,
        continuous: event.streams(),
    }
}

pub open spec fn report_models(reports: Seq<MidiEventReport>) -> Seq<ReportModel> {
    reports.map_values(|r: MidiEventReport| r@)
}

// ---------------------------------------------------------------------------------------------
// The bridge
// ---------------------------------------------------------------------------------------------

/// A controller profile: the device it belongs to, and what its controls do.
#[derive(Debug)]
pub struct Profile {
    pub device: String,
    pub map: MidiMap,
}

/// A profile, as mathematics.
#[verifier::ext_equal]
pub struct ProfileModel {
    pub device: Seq<char>,
    pub map: Map<MidiId, BindingModel>,
}

impl View for Profile {
    type V = ProfileModel;

    open spec fn view(&self) -> ProfileModel {
        ProfileModel { device: self.device@, map: self.map@ }
    }
}

/// A port that was opened, and the profile belonging to it. No profile yet is the normal state
/// before the first learn: an empty one named after the port stands for it.
#[derive(Debug)]
pub struct OpenedPort {
    pub port: String,
    /// Where the profile is (or would be) saved.
    pub path: String,
    pub profile: Profile,
}

/// The open port, the mapping in effect, the learn mode, and what waits to be told to the window.
#[derive(Debug)]
pub struct MidiBridge {
    /// The open port as the system names it.
    pub port: Option<String>,
    /// Events lost between the driver and the bridge, as of the last time anyone looked.
    pub dropped: u64,
    /// The controller profile, as loaded and as edited by the learn mode.
    pub profile: Option<Profile>,
    /// Where that profile is written. Known from the moment a port is open, even when there is no
    /// file yet.
    pub path: Option<String>,
    /// The bindings of the loaded score, laid over the profile.
    pub score: MidiMap,
    /// The mapping in effect: the profile with the score over it.
    pub map: MidiMap,
    /// One German line per control the score took over from the profile.
    pub notes: Vec<String>,
    /// What the next control that arrives becomes.
    pub learning: Option<Binding>,
    /// Learned or unbound since the last save.
    pub dirty: bool,
    pub message: Option<String>,
    pub seq: u64,
    pub pending: Vec<MidiEventReport>,
    /// Set when the connection, the mapping or the learn mode changed and the window has not been
    /// told yet.
    pub view_changed: bool,
}

/// The bridge, as mathematics.
#[verifier::ext_equal]
pub struct BridgeModel {
    pub port: Option<Seq<char>>,
    pub dropped: u64,
    pub profile: Option<ProfileModel>,
    pub path: Option<Seq<char>>,
    pub score: Seq<BoundModel>,
    pub learning: Option<BindingModel>,
    pub dirty: bool,
    pub message: Option<Seq<char>>,
    pub seq: u64,
    pub pending: Seq<ReportModel>,
    pub view_changed: bool,
}

pub open spec fn profile_model(profile: Option<Profile>) -> Option<ProfileModel> {
    match profile {
        Some(profile) => Some(profile@),
        None => None,
    }
}

pub open spec fn binding_model(binding: Option<Binding>) -> Option<BindingModel> {
    match binding {
        Some(binding) => Some(binding@),
        None => None,
    }
}

impl MidiBridge {
    /// The bridge, as mathematics.
    pub open spec fn model(&self) -> BridgeModel {
        BridgeModel {
            port: text_model(self.port),
            dropped: self.dropped,
            profile: profile_model(self.profile),
            path: text_model(self.path),
            score: bound_models(self.score.entries@),
            learning: binding_model(self.learning),
            dirty: self.dirty,
            message: text_model(self.message),
            seq: self.seq,
            pending: report_models(self.pending@),
            view_changed: self.view_changed,
        }
    }
}

impl BridgeModel {
    /// What the profile alone says. No profile says nothing.
    pub open spec fn learned(self) -> Map<MidiId, BindingModel> {
        match self.profile {
            Some(profile) => profile.map,
            None => Map::empty(),
        }
    }

    /// The mapping in effect: the profile says what the box does, the score adds what this one piece
    /// needs.
    pub open spec fn in_effect(self) -> Map<MidiId, BindingModel> {
        self.learned().union_prefer_right(mapped(self.score))
    }

    /// The lines about what the score took over.
    pub open spec fn taken_over(self) -> Seq<Seq<char>> {
        takeovers(self.learned(), self.score)
    }

    /// Whether a binding in effect comes from the score.
    pub open spec fn is_from_score(self, entry: BoundModel) -> bool {
        mapped(self.score).contains_key(entry.id) && mapped(self.score)[entry.id] == entry.binding
    }

    /// What the window is told with a changed sentence.
    pub open spec fn saying(self, message: Seq<char>) -> BridgeModel {
        BridgeModel { message: Some(message), view_changed: true, ..self }
    }

    /// The bridge with an opened port and the profile that belongs to it.
    pub open spec fn connected(
        self,
        port: Seq<char>,
        profile: ProfileModel,
        path: Seq<char>,
    ) -> BridgeModel {
        BridgeModel {
            port: Some(port),
            dropped: 0,
            profile: Some(profile),
            path: Some(path),
            dirty: false,
            ..self.saying(
                opened_text(port, profile.device, profile.map.dom().len(), self.dirty),
            )
        }
    }

    /// The bridge without its port, whether it was closed or went away.
    pub open spec fn disconnected(self, message: Seq<char>) -> BridgeModel {
        BridgeModel { port: None, dropped: 0, learning: None, ..self.saying(message) }
    }

    /// The bridge with the bindings of a score laid over the profile.
    pub open spec fn overlaid(self, score: Seq<BoundModel>) -> BridgeModel {
        BridgeModel { score, view_changed: true, ..self }
    }

    /// The bridge waiting for a control to learn.
    pub open spec fn waiting_for(self, binding: BindingModel, message: Seq<char>) -> BridgeModel {
        BridgeModel { learning: Some(binding), ..self.saying(message) }
    }

    /// The bridge with one control of its profile freed.
    pub open spec fn freed(self, key: MidiId, message: Seq<char>) -> BridgeModel {
        BridgeModel {
            profile: match self.profile {
                Some(profile) => Some(ProfileModel { map: profile.map.remove(key), ..profile }),
                None => None,
            },
            dirty: true,
            ..self.saying(message)
        }
    }

    /// The bridge whose profile has been written to its file.
    pub open spec fn stored(self, message: Seq<char>) -> BridgeModel {
        BridgeModel { dirty: false, ..self.saying(message) }
    }

    /// The bridge that has told everything.
    pub open spec fn flushed(self) -> BridgeModel {
        BridgeModel { pending: Seq::empty(), view_changed: false, ..self }
    }

    /// The number the next report gets.
    pub open spec fn next_seq(self) -> u64 {
        if self.seq < u64::MAX {
            (self.seq + 1) as u64
        } else {
            u64::MAX
        }
    }
}

impl MidiBridge {
    /// The mapping in effect is always the profile with the score over it.
    pub open spec fn wf(&self) -> bool {
        &&& self.profile is Some ==> self.profile->0.map.wf()
        &&& self.score.wf()
        &&& self.map.wf()
        &&& self.map@ == self.model().in_effect()
        &&& texts(self.notes@) == self.model().taken_over()
    }
}

/// The sentence about an opened port.
pub open spec fn opened_text(
    port: Seq<char>,
    device: Seq<char>,
    bindings: nat,
    dirty: bool,
) -> Seq<char> {
    let lost = if dirty {
        " Achtung: die ungespeicherten Bindungen des vorigen Profils sind damit weg."@
    } else {
        ""@
    };
    if bindings == 0 {
        "MIDI-Eingang "@ + quoted(port)
            + " offen. Noch keine Bindungen - \"MIDI lernen\" einschalten und ein Bedienelement anklicken."@
            + lost
    } else {
        "MIDI-Eingang "@ + quoted(port) + " offen, Profil "@ + quoted(device) + " mit "@ + decimal(
            bindings,
        ) + " Bindungen."@ + lost
    }
}

/// The sentence about a closed port.
pub open spec fn closed_text(port: Option<Seq<char>>) -> Seq<char> {
    match port {
        Some(name) => "MIDI-Eingang "@ + quoted(name) + " geschlossen."@,
        None => "Es war kein MIDI-Eingang offen."@,
    }
}

/// The sentence about a port that went away.
pub open spec fn vanished_text(name: Seq<char>) -> Seq<char> {
    "Der MIDI-Eingang "@ + quoted(name)
        + " ist verschwunden - Kabel ab, oder ein anderes Programm hat ihn genommen. Die Bindungen bleiben; nach dem Anstecken wieder verbinden."@
}

/// The sentence about a control that cannot be taken out of the profile.
pub open spec fn not_bound_text(id: Seq<char>, from_score: bool) -> Seq<char> {
    if from_score {
        id
            + " kommt aus der Partitur, nicht aus dem Profil. Diese Bindung steht im 'midi:'-Block der Partitur und geht mit ihr wieder weg."@
    } else {
        id + " ist gar nicht belegt."@
    }
}

/// The sentence about a saved profile.
pub open spec fn saved_text(device: Seq<char>, bindings: nat, path: Seq<char>) -> Seq<char> {
    "Profil "@ + quoted(device) + " mit "@ + decimal(bindings) + " Bindungen gespeichert: "@ + path
}

/// The sentence about a control that lost its job.
pub open spec fn freed_text(id: Seq<char>, label: Seq<char>) -> Seq<char> {
    id + " ist wieder frei (war "@ + quoted(label) + ")."@
}

/// What is added where nothing can arrive that could be learned.
pub open spec fn armed_text(message: Seq<char>, open: bool) -> Seq<char> {
    if open {
        message
    } else {
        message
            + " Es ist allerdings kein MIDI-Eingang offen - erst verbinden, dann kommt hier etwas an."@
    }
}

pub open spec fn kind_word(kind: MidiIdKind) -> Seq<char> {
    match kind {
        MidiIdKind::Note => "note"@,
        MidiIdKind::Cc => "cc"@,
        MidiIdKind::Bend => "bend"@,
    }
}

/// Whether an entry of the overview shows a binding.
pub open spec fn entry_shows(shown: MidiBindingView, entry: BoundModel, from_score: bool) -> bool {
    &&& shown.id@ == entry.id.key()
    &&& shown.short@ == entry.id.badge()
    &&& shown.channel == entry.id.channel
    &&& shown.kind@ == kind_word(entry.id.kind)
    &&& shown.number == entry.id.number
    &&& shown.address@ == entry.binding.address
    &&& shown.label@ == entry.binding.label
    &&& shown.describe@ == entry.binding.describe
    &&& shown.from_score == from_score
}

/// Whether the overview shows a mapping: every binding in effect once, in order.
pub open spec fn overview_shows(shown: Seq<MidiBindingView>, bridge: BridgeModel) -> bool {
    exists|entries: Seq<BoundModel>|
        {
            &&& increasing(entries)
            &&& #[trigger] mapped(entries) == bridge.in_effect()
            &&& shown.len() == entries.len()
            &&& forall|i: int|
                0 <= i < entries.len() ==> entry_shows(
                    #[trigger] shown[i],
                    entries[i],
                    bridge.is_from_score(entries[i]),
                )
        }
}

/// Whether the window is shown the bridge as it is.
pub open spec fn view_shows(view: MidiView, bridge: BridgeModel) -> bool {
    &&& view.connected == (bridge.port is Some)
    &&& text_model(view.port) == bridge.port
    &&& text_model(view.device) == (match bridge.profile {
        Some(profile) => Some(profile.device),
        None => None,
    })
    &&& text_model(view.path) == bridge.path
    &&& view.dirty == bridge.dirty
    &&& text_model(view.learning) == (match bridge.learning {
        Some(binding) => Some(binding.address),
        None => None,
    })
    &&& text_model(view.learning_label) == (match bridge.learning {
        Some(binding) => Some(binding.label),
        None => None,
    })
    &&& overview_shows(view.bindings@, bridge)
    &&& texts(view.notes@) == bridge.taken_over()
    &&& text_model(view.message) == bridge.message
    &&& view.dropped == bridge.dropped
}

/// One entry of the overview.
pub fn binding_view(id: MidiId, binding: &Binding, from_score: bool) -> (r: MidiBindingView)
    ensures
        entry_shows(r, BoundModel { id, binding: binding@ }, from_score),
{
    MidiBindingView {
        id: id.name(),
        short: id.short(),
        channel: id.channel,
        kind: (match id.kind {
            MidiIdKind::Note => "note",
            MidiIdKind::Cc => "cc",
            MidiIdKind::Bend => "bend",
        }).to_owned(),
        number: id.number,
        address: binding.address.as_str().to_owned(),
        label: binding.label.as_str().to_owned(),
        describe: binding.describe.as_str().to_owned(),
        from_score,
    }
}

fn text_copied(text: &Option<String>) -> (r: Option<String>)
    ensures
        text_model(r) == text_model(*text),
{
    match text {
        Some(text) => Some(text.as_str().to_owned()),
        None => None,
    }
}

fn texts_copied(list: &Vec<String>) -> (r: Vec<String>)
    ensures
        texts(r@) == texts(list@),
{
    let mut r: Vec<String> = Vec::new();
    let mut i: usize = 0;
    while i < list.len()
        invariant
            i <= list.len(),
            r@.len() == i,
            forall|j: int| 0 <= j < i ==> (#[trigger] r@[j])@ == list@[j]@,
        decreases list.len() - i,
    {
        r.push(list[i].as_str().to_owned());
        i = i + 1;
    }
    assert(texts(r@) =~= texts(list@));
    r
}

impl MidiEventReport {
    pub fn copied(&self) -> (r: Self)
        ensures
            r@ == self@,
    {
        MidiEventReport {
            seq: self.seq,
            id: self.id.as_str().to_owned(),
            short: self.short.as_str().to_owned(),
            channel: self.channel,
            what: self.what.as_str().to_owned(),
            number: self.number,
            value: self.value,
            target: text_copied(&self.target),
            target_label: text_copied(&self.target_label),
            outcome: self.outcome,
            note: text_copied(&self.note),
            continuous: self.continuous,
        }
    }
}

/// Whether a learning bridge has learnt a control from an event, with the report about it. The note
/// off of a pad teaches nothing.
pub open spec fn learnt(
    before: MidiBridge,
    after: MidiBridge,
    event: MidiEvent,
    binding: BindingModel,
    message: Seq<char>,
    path: Seq<char>,
    r: Option<MidiEventReport>,
) -> bool {
    let was = before.model();
    let report = report_of(
        was.next_seq(),
        event,
        MidiOutcome::Learned,
        Some(binding.address),
        Some(binding.label),
        Some(message),
    );
    if event is NoteOff {
        r is None && after == before
    } else {
        &&& r matches Some(told) && told@ == report
        &&& after.model() == (BridgeModel {
            profile: Some(
                ProfileModel {
                    device: match was.profile {
                        Some(profile) => profile.device,
                        None => match was.port {
                            Some(name) => name,
                            None => "Controller"@,
                        },
                    },
                    map: was.learned().insert(event.control(), binding),
                },
            ),
            path: match was.path {
                Some(known) => Some(known),
                None => Some(path),
            },
            learning: None,
            dirty: true,
            seq: was.next_seq(),
            pending: pushed(was.pending, report),
            ..was.saying(message)
        })
    }
}

impl MidiBridge {
    pub fn new() -> (r: Self)
        ensures
            r.wf(),
            r.model() == (BridgeModel {
                port: None,
                dropped: 0,
                profile: None,
                path: None,
                score: Seq::empty(),
                learning: None,
                dirty: false,
                message: None,
                seq: 0,
                pending: Seq::empty(),
                view_changed: false,
            }),
    {
        let r = MidiBridge {
            port: None,
            dropped: 0,
            profile: None,
            path: None,
            score: MidiMap::new(),
            map: MidiMap::new(),
            notes: Vec::new(),
            learning: None,
            dirty: false,
            message: None,
            seq: 0,
            pending: Vec::new(),
            view_changed: false,
        };
        proof {
            assert(r.model().pending =~= Seq::<ReportModel>::empty());
            if bound_models(r.score.entries@).len() > 0 {
                assert(r.score@.contains_key(bound_models(r.score.entries@).last().id));
            }
            assert(r.model().score =~= Seq::<BoundModel>::empty());
            assert(r.map@ =~= r.model().in_effect());
            assert(texts(r.notes@) =~= r.model().taken_over());
        }
        r
    }

    pub fn is_open(&self) -> (r: bool)
        ensures
            r == (self.model().port is Some),
    {
        self.port.is_some()
    }

    /// True while the learn mode waits for a control. Events go there instead of into the session.
    pub fn is_learning(&self) -> (r: bool)
        ensures
            r == (self.model().learning is Some),
    {
        self.learning.is_some()
    }

    /// Say something in the next feed.
    pub fn say(&mut self, message: String)
        ensures
            final(self).model() == old(self).model().saying(message@),
            old(self).wf() ==> final(self).wf(),
    {
        self.message = Some(message);
        self.view_changed = true;
    }

    // ---- the overview ----------------------------------------------------------------------

    fn overview(&self) -> (r: Vec<MidiBindingView>)
        requires
            self.wf(),
        ensures
            overview_shows(r@, self.model()),
    {
        let ghost entries = bound_models(self.map.entries@);
        let mut r: Vec<MidiBindingView> = Vec::new();
        let mut i: usize = 0;
        while i < self.map.entries.len()
            invariant
                self.wf(),
                entries == bound_models(self.map.entries@),
                i <= self.map.entries.len(),
                r@.len() == i,
                forall|j: int|
                    0 <= j < i ==> entry_shows(
                        #[trigger] r@[j],
                        entries[j],
                        self.model().is_from_score(entries[j]),
                    ),
            decreases self.map.entries.len() - i,
        {
            let entry: &Bound = &self.map.entries[i];
            let from_score: bool = match self.score.get(entry.id) {
                Some(binding) => binding.is_same(&entry.binding),
                None => false,
            };
            assert(entries[i as int] == entry@);
            r.push(binding_view(entry.id, &entry.binding, from_score));
            i = i + 1;
        }
        assert(mapped(entries) == self.model().in_effect());
        r
    }

    /// Everything about the MIDI side that is not a single event.
    pub fn view(&self) -> (r: MidiView)
        requires
            self.wf(),
        ensures
            view_shows(r, self.model()),
    {
        MidiView {
            connected: self.port.is_some(),
            port: text_copied(&self.port),
            device: match &self.profile {
                Some(profile) => Some(profile.device.as_str().to_owned()),
                None => None,
            },
            path: text_copied(&self.path),
            dirty: self.dirty,
            learning: match &self.learning {
                Some(binding) => Some(binding.address.as_str().to_owned()),
                None => None,
            },
            learning_label: match &self.learning {
                Some(binding) => Some(binding.label.as_str().to_owned()),
                None => None,
            },
            bindings: self.overview(),
            notes: texts_copied(&self.notes),
            message: text_copied(&self.message),
            dropped: self.dropped,
        }
    }

    /// What is bound to the control of an event, for a report that wants to name it.
    pub fn target_of(&self, event: &MidiEvent) -> (r: Option<&Binding>)
        requires
            self.wf(),
        ensures
            self.model().in_effect().contains_key(event.control()) ==> (r matches Some(found) && found@
                == self.model().in_effect()[event.control()]),
            !self.model().in_effect().contains_key(event.control()) ==> r is None,
    {
        self.map.get(event.id())
    }

    // ---- the mapping -----------------------------------------------------------------------

    /// Profile plus score into the mapping in effect, and what the score took over.
    fn rebuild(&mut self)
        requires
            old(self).profile is Some ==> old(self).profile->0.map.wf(),
            old(self).score.wf(),
        ensures
            final(self).wf(),
            final(self).model() == (BridgeModel { view_changed: true, ..old(self).model() }),
            final(self).profile == old(self).profile,
    {
        let mut map: MidiMap = match &self.profile {
            Some(profile) => profile.map.copied(),
            None => MidiMap::new(),
        };
        assert(map@ == self.model().learned());
        self.notes = map.overlay(&self.score);
        self.map = map;
        self.view_changed = true;
    }

    /// The bindings of a score, laid over the profile. `score` is what the score says, or what is
    /// wrong with it; no score says nothing. The answer is one German line per control it took over.
    pub fn set_score(&mut self, score: Result<MidiMap, Vec<String>>) -> (r: Result<
        Vec<String>,
        Vec<String>,
    >)
        requires
            old(self).wf(),
            score matches Ok(map) ==> map.wf(),
        ensures
            final(self).wf(),
            match score {
                Ok(map) => {
                    &&& final(self).model() == (BridgeModel {
                        score: bound_models(map.entries@),
                        view_changed: true,
                        ..old(self).model()
                    })
                    &&& final(self).model() == old(self).model().overlaid(
                        bound_models(map.entries@),
                    )
                    &&& r matches Ok(notes) && texts(notes@) == final(self).model().taken_over()
                },
                Err(issues) => r == Err::<Vec<String>, Vec<String>>(issues) && *final(self) == *old(
                    self,
                ),
            },
    {
        match score {
            Ok(map) => {
                self.score = map;
                self.rebuild();
                Ok(texts_copied(&self.notes))
            },
            Err(issues) => Err(issues),
        }
    }

    // ---- the connection --------------------------------------------------------------------

    /// A port was asked for, after the old one had been given back. `opened` is what came of it. What
    /// was learned before and never saved is gone with the old profile, and the sentence says so.
    pub fn open(&mut self, opened: Result<OpenedPort, String>) -> (r: Result<MidiView, String>)
        requires
            old(self).wf(),
            opened matches Ok(found) ==> found.profile.map.wf(),
        ensures
            final(self).wf(),
            match opened {
                Ok(found) => {
                    &&& final(self).model() == (BridgeModel {
                        port: Some(found.port@),
                        dropped: 0,
                        profile: Some(found.profile@),
                        path: Some(found.path@),
                        dirty: false,
                        ..old(self).model().saying(
                            opened_text(
                                found.port@,
                                found.profile@.device,
                                found.profile@.map.dom().len(),
                                old(self).model().dirty,
                            ),
                        )
                    })
                    &&& final(self).model() == old(self).model().connected(
                        found.port@,
                        found.profile@,
                        found.path@,
                    )
                    &&& r matches Ok(view) && view_shows(view, final(self).model())
                },
                Err(text) => {
                    &&& final(self).model() == (BridgeModel { port: None, dropped: 0, ..old(self).model() })
                    &&& r == Err::<MidiView, String>(text)
                },
            },
    {
        self.port = None;
        self.dropped = 0;
        match opened {
            Ok(found) => {
                let bindings: usize = found.profile.map.len();
                let mut text = String::new();
                text.append("MIDI-Eingang ");
                push_quoted(&mut text, found.port.as_str());
                if bindings == 0 {
                    text.append(
                        " offen. Noch keine Bindungen - \"MIDI lernen\" einschalten und ein Bedienelement anklicken.",
                    );
                } else {
                    text.append(" offen, Profil ");
                    push_quoted(&mut text, found.profile.device.as_str());
                    text.append(" mit ");
                    push_decimal(&mut text, bindings as u64);
                    text.append(" Bindungen.");
                }
                text.append(
                    if self.dirty {
                        " Achtung: die ungespeicherten Bindungen des vorigen Profils sind damit weg."
                    } else {
                        ""
                    },
                );
                assert(text@ =~= opened_text(
                    found.port@,
                    found.profile@.device,
                    bindings as nat,
                    self.dirty,
                ));
                self.message = Some(text);
                self.port = Some(found.port);
                self.profile = Some(found.profile);
                self.path = Some(found.path);
                self.dirty = false;
                self.rebuild();
                Ok(self.view())
            },
            Err(text) => Err(text),
        }
    }

    /// The port is given back. Whatever was learned and not saved stays in memory, so closing by
    /// accident does not cost the work.
    pub fn close(&mut self) -> (r: MidiView)
        requires
            old(self).wf(),
        ensures
            final(self).wf(),
            final(self).model() == (BridgeModel {
                port: None,
                dropped: 0,
                learning: None,
                ..old(self).model().saying(closed_text(old(self).model().port))
            }),
            final(self).model() == old(self).model().disconnected(
                closed_text(old(self).model().port),
            ),
            view_shows(r, final(self).model()),
    {
        let text: String = match &self.port {
            Some(name) => {
                let mut text = String::new();
                text.append("MIDI-Eingang ");
                push_quoted(&mut text, name.as_str());
                text.append(" geschlossen.");
                assert(text@ =~= closed_text(Some(name@)));
                text
            },
            None => "Es war kein MIDI-Eingang offen.".to_owned(),
        };
        self.port = None;
        self.dropped = 0;
        self.learning = None;
        self.say(text);
        self.view()
    }

    /// Whether the open port is still there. `ports` is the list of ports, or None where it is not
    /// due or could not be read: that is no evidence that the device is gone. The answer is the German
    /// sentence about a device that went away.
    pub fn check_alive(&mut self, ports: Option<&Vec<String>>) -> (r: Option<String>)
        requires
            old(self).wf(),
        ensures
            final(self).wf(),
            match old(self).model().port {
                Some(name) if ports matches Some(list) && !texts(list@).contains(name) => {
                    &&& r matches Some(text) && text@ == vanished_text(name)
                    &&& final(self).model() == (BridgeModel {
                        port: None,
                        dropped: 0,
                        learning: None,
                        ..old(self).model().saying(vanished_text(name))
                    })
                    &&& final(self).model() == old(self).model().disconnected(vanished_text(name))
                },
                _ => r is None && final(self).model() == old(self).model(),
            },
    {
        let list: &Vec<String> = match ports {
            Some(list) => list,
            None => {
                return None;
            },
        };
        let text: String = match &self.port {
            Some(name) => {
                let mut i: usize = 0;
                while i < list.len()
                    invariant
                        i <= list.len(),
                        *self == *old(self),
                        self.wf(),
                        ports == Some(list),
                        text_model(self.port) == Some(name@),
                        forall|j: int| 0 <= j < i ==> (#[trigger] texts(list@)[j]) != name@,
                    decreases list.len() - i,
                {
                    assert(texts(list@)[i as int] == list@[i as int]@);
                    if same_text(list[i].as_str(), name.as_str()) {
                        assert(texts(list@).contains(name@));
                        return None;
                    }
                    i = i + 1;
                }
                let mut text = String::new();
                text.append("Der MIDI-Eingang ");
                push_quoted(&mut text, name.as_str());
                text.append(
                    " ist verschwunden - Kabel ab, oder ein anderes Programm hat ihn genommen. Die Bindungen bleiben; nach dem Anstecken wieder verbinden.",
                );
                assert(text@ =~= vanished_text(name@));
                text
            },
            None => {
                return None;
            },
        };
        self.port = None;
        self.dropped = 0;
        self.learning = None;
        self.say(text.as_str().to_owned());
        Some(text)
    }

    /// How many events the driver has lost by now.
    pub fn count_dropped(&mut self, dropped: u64)
        ensures
            final(self).model() == (BridgeModel {
                dropped: if old(self).model().port is Some {
                    dropped
                } else {
                    old(self).model().dropped
                },
                ..old(self).model()
            }),
            old(self).wf() ==> final(self).wf(),
    {
        if self.port.is_some() {
            self.dropped = dropped;
        }
    }

    // ---- learn -----------------------------------------------------------------------------

    /// The next control that arrives becomes what is asked for. `asked` is what the address of the
    /// clicked element stands for, with the sentence that says so, or the sentence about an address
    /// that stands for nothing.
    pub fn arm(&mut self, asked: Result<(Binding, String), String>) -> (r: Result<MidiView, String>)
        requires
            old(self).wf(),
        ensures
            final(self).wf(),
            match asked {
                Ok((binding, message)) => {
                    &&& final(self).model() == (BridgeModel {
                        learning: Some(binding@),
                        ..old(self).model().saying(armed_text(message@, old(self).model().port is Some))
                    })
                    &&& final(self).model() == old(self).model().waiting_for(
                        binding@,
                        armed_text(message@, old(self).model().port is Some),
                    )
                    &&& r matches Ok(view) && view_shows(view, final(self).model())
                },
                Err(text) => r == Err::<MidiView, String>(text) && *final(self) == *old(self),
            },
    {
        match asked {
            Ok((binding, message)) => {
                let mut text: String = message;
                if self.port.is_none() {
                    text.append(
                        " Es ist allerdings kein MIDI-Eingang offen - erst verbinden, dann kommt hier etwas an.",
                    );
                }
                self.learning = Some(binding);
                self.say(text);
                Ok(self.view())
            },
            Err(text) => Err(text),
        }
    }

    /// Stop waiting for a control. `message` is said where anything was waiting.
    pub fn cancel_learn(&mut self, message: String) -> (r: MidiView)
        requires
            old(self).wf(),
        ensures
            final(self).wf(),
            final(self).model() == (BridgeModel {
                learning: None,
                message: if old(self).model().learning is Some {
                    Some(message@)
                } else {
                    old(self).model().message
                },
                view_changed: true,
                ..old(self).model()
            }),
            view_shows(r, final(self).model()),
    {
        if self.learning.is_some() {
            self.learning = None;
            self.message = Some(message);
        }
        self.view_changed = true;
        self.view()
    }

    /// One event while the learn mode waits: its control is bound, in the profile as well as in the
    /// mapping in effect, and the mode is over. `message` is the sentence about it, `path` where a
    /// profile that has no file yet is to be saved. The note off of a pad is the other half of one
    /// press and is not learned.
    pub fn feed_learn(&mut self, event: &MidiEvent, message: String, path: &str) -> (r: Option<
        MidiEventReport,
    >)
        requires
            old(self).wf(),
        ensures
            final(self).wf(),
            match old(self).model().learning {
                Some(binding) => learnt(
                    *old(self),
                    *final(self),
                    *event,
                    binding,
                    message@,
                    path@,
                    r,
                ),
                None => r is None && *final(self) == *old(self),
            },
    {
        if matches!(*event, MidiEvent::NoteOff { .. }) {
            return None;
        }
        let binding: Binding = match &self.learning {
            Some(binding) => binding.copied(),
            None => {
                return None;
            },
        };
        self.learning = None;
        let ghost before = *self;
        let mut profile: Profile = match self.profile.take() {
            Some(profile) => profile,
            None => Profile {
                device: match &self.port {
                    Some(name) => name.as_str().to_owned(),
                    None => "Controller".to_owned(),
                },
                map: MidiMap::new(),
            },
        };
        assert(profile.map@ == old(self).model().learned());
        profile.map.insert(event.id(), binding.copied());
        self.profile = Some(profile);
        if self.path.is_none() {
            self.path = Some(path.to_owned());
        }
        self.dirty = true;
        self.rebuild();
        self.message = Some(message.as_str().to_owned());
        let report: MidiEventReport = self.make_report(
            event,
            MidiOutcome::Learned,
            Some(&binding),
            Some(message),
        );
        self.push(report.copied());
        Some(report)
    }

    /// Take a control's job away. The id is the one the overview shows.
    pub fn unbind(&mut self, id: &str) -> (r: Result<MidiView, String>)
        requires
            old(self).wf(),
        ensures
            final(self).wf(),
            match id_of(id@) {
                None => {
                    &&& r matches Err(e) && e@ == unknown_id_text(id@)
                    &&& final(self).model() == old(self).model()
                },
                Some(key) => match old(self).model().profile {
                    None => {
                        &&& r matches Err(e) && e@
                            == "Es ist kein Profil geladen - erst einen MIDI-Eingang verbinden."@
                        &&& final(self).model() == old(self).model()
                    },
                    Some(profile) => if profile.map.contains_key(key) {
                        &&& final(self).model() == (BridgeModel {
                            profile: Some(ProfileModel { map: profile.map.remove(key), ..profile }),
                            dirty: true,
                            ..old(self).model().saying(freed_text(id@, profile.map[key].label))
                        })
                        &&& final(self).model() == old(self).model().freed(
                            key,
                            freed_text(id@, profile.map[key].label),
                        )
                        &&& r matches Ok(view) && view_shows(view, final(self).model())
                    } else {
                        // The score's own bindings are not in the profile and cannot be taken away
                        // from here.
                        &&& r matches Err(e) && e@ == not_bound_text(
                            id@,
                            mapped(old(self).model().score).contains_key(key),
                        )
                        &&& final(self).model() == old(self).model()
                    },
                },
            },
    {
        let key: MidiId = match MidiId::parse(id) {
            Ok(key) => key,
            Err(text) => {
                return Err(text);
            },
        };
        match self.profile.take() {
            None => Err(
                "Es ist kein Profil geladen - erst einen MIDI-Eingang verbinden.".to_owned(),
            ),
            Some(taken) => {
                let mut profile: Profile = taken;
                match profile.map.remove(key) {
                    Some(removed) => {
                        self.profile = Some(profile);
                        self.dirty = true;
                        self.rebuild();
                        let mut text = String::new();
                        text.append(id);
                        text.append(" ist wieder frei (war ");
                        push_quoted(&mut text, removed.label.as_str());
                        text.append(").");
                        assert(text@ =~= freed_text(id@, removed@.label));
                        self.say(text);
                        Ok(self.view())
                    },
                    None => {
                        self.profile = Some(profile);
                        let mut text = String::new();
                        text.append(id);
                        if self.score.get(key).is_some() {
                            text.append(
                                " kommt aus der Partitur, nicht aus dem Profil. Diese Bindung steht im 'midi:'-Block der Partitur und geht mit ihr wieder weg.",
                            );
                        } else {
                            text.append(" ist gar nicht belegt.");
                        }
                        assert(text@ =~= not_bound_text(
                            id@,
                            mapped(self.model().score).contains_key(key),
                        ));
                        Err(text)
                    },
                }
            },
        }
    }

    /// The profile is to be written. `path` is where it goes when no place is known yet, `written` is
    /// what came of writing it there.
    pub fn save(&mut self, path: &str, written: Result<(), String>) -> (r: Result<MidiSaved, String>)
        requires
            old(self).wf(),
        ensures
            final(self).wf(),
            match old(self).model().profile {
                None => {
                    &&& r matches Err(e) && e@
                        == "Es ist kein Profil zum Speichern da - erst einen MIDI-Eingang verbinden."@
                    &&& *final(self) == *old(self)
                },
                Some(profile) => match written {
                    Err(text) => r == Err::<MidiSaved, String>(text) && *final(self) == *old(self),
                    Ok(()) => {
                        let place = match old(self).model().path {
                            Some(known) => known,
                            None => path@,
                        };
                        let text = saved_text(profile.device, profile.map.dom().len(), place);
                        &&& final(self).model() == (BridgeModel {
                            dirty: false,
                            ..old(self).model().saying(text)
                        })
                        &&& final(self).model() == old(self).model().stored(text)
                        &&& r matches Ok(saved) && {
                            &&& saved.path@ == place
                            &&& saved.message@ == text
                            &&& view_shows(saved.view, final(self).model())
                        }
                    },
                },
            },
    {
        let mut text = String::new();
        let place: String = match &self.path {
            Some(known) => known.as_str().to_owned(),
            None => path.to_owned(),
        };
        match &self.profile {
            None => {
                return Err(
                    "Es ist kein Profil zum Speichern da - erst einen MIDI-Eingang verbinden.".to_owned(),
                );
            },
            Some(profile) => {
                if let Err(text) = written {
                    return Err(text);
                }
                text.append("Profil ");
                push_quoted(&mut text, profile.device.as_str());
                text.append(" mit ");
                push_decimal(&mut text, profile.map.len() as u64);
                text.append(" Bindungen gespeichert: ");
                text.append(place.as_str());
                assert(text@ =~= saved_text(
                    profile@.device,
                    profile@.map.dom().len(),
                    place@,
                ));
            },
        }
        self.dirty = false;
        self.say(text.as_str().to_owned());
        Ok(MidiSaved { path: place, message: text, view: self.view() })
    }

    // ---- the stream ------------------------------------------------------------------------

    fn push(&mut self, report: MidiEventReport)
        ensures
            final(self).model() == (BridgeModel {
                pending: pushed(old(self).model().pending, report@),
                ..old(self).model()
            }),
            old(self).wf() ==> final(self).wf(),
    {
        let ghost before = self.pending@;
        let ghost all = report_models(before);
        if report.continuous {
            let mut i: usize = self.pending.len();
            assert(all.subrange(0, i as int) =~= all);
            while i > 0
                invariant
                    self.pending@ == before,
                    *self == *old(self),
                    all == report_models(before),
                    i <= before.len(),
                    report.continuous,
                    newest_of(all, report@.id) == newest_of(all.subrange(0, i as int), report@.id),
                decreases i,
            {
                assert(all[i - 1] == before[i - 1]@);
                assert(all.subrange(0, i as int).drop_last() =~= all.subrange(0, i - 1));
                assert(all.subrange(0, i as int).last() == all[i - 1]);
                if self.pending[i - 1].continuous && same_text(
                    self.pending[i - 1].id.as_str(),
                    report.id.as_str(),
                ) {
                    self.pending[i - 1] = report;
                    assert(report_models(self.pending@) =~= all.update(i - 1, report@));
                    return;
                }
                i = i - 1;
            }
        }
        if self.pending.len() >= PENDING_MAX {
            self.pending.remove(0);
            assert(report_models(self.pending@) =~= all.remove(0));
        }
        let ghost kept = self.pending@;
        self.pending.push(report);
        assert(report_models(self.pending@) =~= report_models(kept).push(report@));
    }

    fn make_report(
        &mut self,
        event: &MidiEvent,
        outcome: MidiOutcome,
        target: Option<&Binding>,
        note: Option<String>,
    ) -> (r: MidiEventReport)
        ensures
            final(self).model() == (BridgeModel { seq: old(self).model().next_seq(), ..old(self).model() }),
            old(self).wf() ==> final(self).wf(),
            r@ == report_of(
                old(self).model().next_seq(),
                *event,
                outcome,
                target_text(target),
                target_label(target),
                text_model(note),
            ),
    {
        self.seq = self.seq.saturating_add(1);
        let id: MidiId = event.id();
        let (address, label): (Option<String>, Option<String>) = match target {
            Some(binding) => (
                Some(binding.address.as_str().to_owned()),
                Some(binding.label.as_str().to_owned()),
            ),
            None => (None, None),
        };
        MidiEventReport {
            seq: self.seq,
            id: id.name(),
            short: id.short(),
            channel: id.channel,
            what: event.what().to_owned(),
            number: match id.kind {
                MidiIdKind::Bend => None,
                _ => Some(id.number),
            },
            value: event.value(),
            target: address,
            target_label: label,
            outcome,
            note,
            continuous: event.is_continuous(),
        }
    }

    /// Put the report of one event in the queue to the window. `target` is what the control is bound
    /// to.
    pub fn report(
        &mut self,
        event: &MidiEvent,
        outcome: MidiOutcome,
        target: Option<&Binding>,
        note: Option<String>,
    )
        ensures
            final(self).model() == (BridgeModel {
                seq: old(self).model().next_seq(),
                pending: pushed(
                    old(self).model().pending,
                    report_of(
                        old(self).model().next_seq(),
                        *event,
                        outcome,
                        target_text(target),
                        target_label(target),
                        text_model(note),
                    ),
                ),
                ..old(self).model()
            }),
            old(self).wf() ==> final(self).wf(),
    {
        let report: MidiEventReport = self.make_report(event, outcome, target, note);
        self.push(report);
    }

    /// Whether something waits that the eye is waiting for.
    fn has_discrete(&self) -> (r: bool)
        ensures
            r == (exists|i: int| 0 <= i < self.model().pending.len() && !self.model().pending[i].continuous),
    {
        let mut i: usize = 0;
        while i < self.pending.len()
            invariant
                i <= self.pending.len(),
                forall|j: int| 0 <= j < i ==> (#[trigger] self.model().pending[j]).continuous,
            decreases self.pending.len() - i,
        {
            assert(self.model().pending[i as int] == self.pending@[i as int]@);
            if !self.pending[i].continuous {
                return true;
            }
            i = i + 1;
        }
        false
    }

    /// The batch to emit, if it is time. `window_over` says that enough time has passed since the
    /// last one; anything discrete and anything about the mapping does not wait for that.
    pub fn take_feed(&mut self, window_over: bool) -> (r: Option<MidiFeed>)
        requires
            old(self).wf(),
        ensures
            final(self).wf(),
            due_now(old(self).model(), window_over) ==> {
                &&& r is Some
                &&& report_models(r->0.events@) == old(self).model().pending
                &&& match r->0.view {
                    Some(view) => old(self).model().view_changed && view_shows(view, old(self).model()),
                    None => !old(self).model().view_changed,
                }
                &&& final(self).model() == (BridgeModel {
                    pending: Seq::empty(),
                    view_changed: false,
                    ..old(self).model()
                })
                &&& final(self).model() == old(self).model().flushed()
            },
            !due_now(old(self).model(), window_over) ==> r is None && final(self).model() == old(self).model(),
    {
        if self.pending.len() == 0 && !self.view_changed {
            return None;
        }
        if !self.has_discrete() && !self.view_changed && !window_over {
            return None;
        }
        let view: Option<MidiView> = if self.view_changed {
            Some(self.view())
        } else {
            None
        };
        self.view_changed = false;
        let mut events: Vec<MidiEventReport> = Vec::new();
        std::mem::swap(&mut events, &mut self.pending);
        assert(self.model().pending =~= Seq::<ReportModel>::empty());
        Some(MidiFeed { events, view })
    }
}

pub open spec fn target_text(target: Option<&Binding>) -> Option<Seq<char>> {
    match target {
        Some(binding) => Some(binding@.address),
        None => None,
    }
}

pub open spec fn target_label(target: Option<&Binding>) -> Option<Seq<char>> {
    match target {
        Some(binding) => Some(binding@.label),
        None => None,
    }
}

/// Whether a batch goes out: there is something to say, and it is discrete, about the mapping, or
/// its window is over.
pub open spec fn due_now(bridge: BridgeModel, window_over: bool) -> bool {
    &&& bridge.pending.len() > 0 || bridge.view_changed
    &&& bridge.view_changed || window_over || exists|i: int|
        0 <= i < bridge.pending.len() && !bridge.pending[i].continuous
}

// ---------------------------------------------------------------------------------------------
// Laws
// ---------------------------------------------------------------------------------------------

/// A knob sweep is one entry: pushing a second value of a swept control keeps the number of waiting
/// reports and the newest value.
pub proof fn a_sweep_coalesces(pending: Seq<ReportModel>, report: ReportModel, at: int)
    requires
        report.continuous,
        newest_of(pending, report.id) == Some(at),
    ensures
        pushed(pending, report).len() == pending.len(),
        0 <= at < pending.len(),
        pushed(pending, report)[at] == report,
{
    lemma_newest_is_there(pending, report.id);
}

proof fn lemma_newest_is_there(pending: Seq<ReportModel>, id: Seq<char>)
    ensures
        newest_of(pending, id) matches Some(at) ==> 0 <= at < pending.len() && pending[at].id == id
            && pending[at].continuous,
    decreases pending.len(),
{
    if pending.len() > 0 && !(pending.last().id == id && pending.last().continuous) {
        lemma_newest_is_there(pending.drop_last(), id);
    }
}

/// The queue never holds more than it may.
pub proof fn the_queue_stays_bounded(pending: Seq<ReportModel>, report: ReportModel)
    requires
        pending.len() <= PENDING_MAX,
    ensures
        pushed(pending, report).len() <= PENDING_MAX,
{
    lemma_newest_is_there(pending, report.id);
}

/// A report of something discrete is never replaced and never replaces anything: it stands last.
pub proof fn a_discrete_report_is_kept(pending: Seq<ReportModel>, report: ReportModel)
    requires
        !report.continuous,
    ensures
        pushed(pending, report).last() == report,
{
}

/// A pad goes out at once, whatever the window says.
pub proof fn a_pad_is_emitted_at_once(bridge: BridgeModel, report: ReportModel)
    requires
        !report.continuous,
    ensures
        due_now(BridgeModel { pending: pushed(bridge.pending, report), ..bridge }, false),
{
    let after = pushed(bridge.pending, report);
    assert(!after[after.len() - 1].continuous);
}

/// What was learned is in effect, unless the score has its own idea of that control.
pub proof fn what_is_learned_is_in_effect(
    bridge: BridgeModel,
    device: Seq<char>,
    id: MidiId,
    binding: BindingModel,
)
    requires
        !mapped(bridge.score).contains_key(id),
    ensures
        ({
            let after = BridgeModel {
                profile: Some(
                    ProfileModel { device, map: bridge.learned().insert(id, binding) },
                ),
                ..bridge
            };
            &&& after.in_effect() == bridge.in_effect().insert(id, binding)
        }),
{
    let after = BridgeModel {
        profile: Some(ProfileModel { device, map: bridge.learned().insert(id, binding) }),
        ..bridge
    };
    assert(after.in_effect() =~= bridge.in_effect().insert(id, binding));
}

/// Unloading a score gives every control back to the profile.
pub proof fn unloading_gives_the_pads_back(bridge: BridgeModel)
    ensures
        (BridgeModel { score: Seq::empty(), ..bridge }).in_effect() == bridge.learned(),
        (BridgeModel { score: Seq::empty(), ..bridge }).taken_over() == Seq::<Seq<char>>::empty(),
{
    let after = BridgeModel { score: Seq::empty(), ..bridge };
    assert(after.in_effect() =~= bridge.learned());
}

/// The newest waiting report of a swept control is one of its reports, and no later one is. Where
/// there is none, no report of a sweep of that control waits.
pub proof fn the_newest_report_is_the_last(pending: Seq<ReportModel>, id: Seq<char>, i: int)
    requires
        0 <= i < pending.len(),
        pending[i].id == id,
        pending[i].continuous,
    ensures
        newest_of(pending, id) matches Some(at) && i <= at < pending.len() && pending[at].id == id
            && pending[at].continuous,
    decreases pending.len(),
{
    lemma_newest_is_there(pending, id);
    if i < pending.len() - 1 {
        the_newest_report_is_the_last(pending.drop_last(), id, i);
    }
}

/// A further report leaves the others as they are: a sweep replaces only its own last value, and
/// anything else is added behind; only a full queue loses one, its oldest.
pub proof fn a_report_leaves_the_others_alone(
    pending: Seq<ReportModel>,
    report: ReportModel,
    i: int,
)
    requires
        0 <= i < pending.len(),
    ensures
        ({
            let after = pushed(pending, report);
            let swept = report.continuous && newest_of(pending, report.id) is Some;
            &&& swept && newest_of(pending, report.id) != Some(i) ==> after[i] == pending[i]
            &&& !swept && pending.len() < 64 ==> after.len() == pending.len() + 1 && after[i]
                == pending[i] && after.last() == report
            &&& !swept && pending.len() >= 64 ==> after.len() == pending.len() && after.last()
                == report && (i > 0 ==> after[i - 1] == pending[i])
        }),
{
    lemma_newest_is_there(pending, report.id);
}

/// While a score is loaded, a control it names does what the score says, whatever the profile says.
pub proof fn the_score_overrules_the_profile(bridge: BridgeModel, id: MidiId)
    ensures
        bridge.in_effect().contains_key(id) <==> bridge.learned().contains_key(id) || mapped(
            bridge.score,
        ).contains_key(id),
        mapped(bridge.score).contains_key(id) ==> bridge.in_effect()[id] == mapped(
            bridge.score,
        )[id],
        !mapped(bridge.score).contains_key(id) && bridge.learned().contains_key(id)
            ==> bridge.in_effect()[id] == bridge.learned()[id],
{
}

/// A control that arrives in the learn mode gets the binding that was waiting, and no other control
/// changes. The learn mode is then over and the profile unsaved. The release of a pad teaches
/// nothing.
pub proof fn one_control_is_learnt_at_a_time(
    before: MidiBridge,
    after: MidiBridge,
    event: MidiEvent,
    binding: BindingModel,
    message: Seq<char>,
    path: Seq<char>,
    r: Option<MidiEventReport>,
    other: MidiId,
)
    requires
        learnt(before, after, event, binding, message, path, r),
    ensures
        event is NoteOff ==> after == before && r is None,
        !(event is NoteOff) ==> {
            &&& after.model().learned().contains_key(event.control())
            &&& after.model().learned()[event.control()] == binding
            &&& other != event.control() ==> after.model().learned().contains_key(other)
                == before.model().learned().contains_key(other)
            &&& other != event.control() && before.model().learned().contains_key(other)
                ==> after.model().learned()[other] == before.model().learned()[other]
            &&& after.model().learning is None
            &&& after.model().dirty
            &&& after.model().message == Some(message)
            &&& after.model().score == before.model().score
            &&& r matches Some(told) && told@.outcome == MidiOutcome::Learned && told@.target
                == Some(binding.address)
        },
{
}

/// Nothing goes out where there is nothing to say, a sweep alone waits for its window, and a changed
/// mapping or a finished window lets everything out.
pub proof fn a_sweep_waits_for_its_window(bridge: BridgeModel)
    ensures
        bridge.pending.len() == 0 && !bridge.view_changed ==> !due_now(bridge, true) && !due_now(
            bridge,
            false,
        ),
        bridge.view_changed ==> due_now(bridge, false),
        bridge.pending.len() > 0 ==> due_now(bridge, true),
        !bridge.view_changed && (forall|i: int|
            0 <= i < bridge.pending.len() ==> (#[trigger] bridge.pending[i]).continuous)
            ==> !due_now(bridge, false),
{
}

/// Reports are numbered one after the other, and say which control moved, how far and what became of
/// it.
pub proof fn a_report_says_what_came_in(
    bridge: BridgeModel,
    event: MidiEvent,
    outcome: MidiOutcome,
    target: Option<Seq<char>>,
    label: Option<Seq<char>>,
    note: Option<Seq<char>>,
)
    ensures
        bridge.seq < u64::MAX ==> bridge.next_seq() == bridge.seq + 1,
        ({
            let report = report_of(bridge.next_seq(), event, outcome, target, label, note);
            &&& report.seq == bridge.next_seq()
            &&& report.id == event.control().key()
            &&& report.channel == event.control().channel
            &&& report.outcome == outcome
            &&& report.target == target
            &&& report.target_label == label
            &&& report.note == note
            &&& report.value == event.amount() as i32
            &&& event is PitchBend <==> report.number is None
            &&& report.number matches Some(n) ==> n == event.control().number
            &&& report.continuous <==> event is ControlChange || event is PitchBend
        }),
{
}

/// A port that is closed or goes away takes nothing with it but the learn mode: the profile, the
/// bindings of the score, what is unsaved and what waits to be told stay.
pub proof fn a_lost_port_keeps_the_bindings(bridge: BridgeModel, message: Seq<char>)
    ensures
        ({
            let after = bridge.disconnected(message);
            &&& after.port is None
            &&& after.learning is None
            &&& after.in_effect() == bridge.in_effect()
            &&& after.profile == bridge.profile
            &&& after.path == bridge.path
            &&& after.score == bridge.score
            &&& after.dirty == bridge.dirty
            &&& after.pending == bridge.pending
            &&& after.message == Some(message)
            &&& after.view_changed
        }),
{
}

/// An opened port brings its profile: that is what is learned from then on, with the score still over
/// it, and nothing of it is unsaved.
pub proof fn an_opened_port_brings_its_profile(
    bridge: BridgeModel,
    port: Seq<char>,
    profile: ProfileModel,
    path: Seq<char>,
    id: MidiId,
)
    ensures
        ({
            let after = bridge.connected(port, profile, path);
            &&& after.port == Some(port)
            &&& after.path == Some(path)
            &&& after.learned() == profile.map
            &&& after.score == bridge.score
            &&& !after.dirty
            &&& after.dropped == 0
            &&& after.learning == bridge.learning
            &&& mapped(bridge.score).contains_key(id) ==> after.in_effect()[id] == mapped(
                bridge.score,
            )[id]
            &&& !mapped(bridge.score).contains_key(id) && profile.map.contains_key(id)
                ==> after.in_effect()[id] == profile.map[id]
        }),
{
}

/// Loading a score, arming the learn mode, saving and telling change nothing about what was learned,
/// and each does its own part: the score is laid over, the binding waits, the profile is saved, and
/// nothing is left to tell.
pub proof fn the_profile_is_left_alone(
    bridge: BridgeModel,
    score: Seq<BoundModel>,
    binding: BindingModel,
    message: Seq<char>,
)
    ensures
        bridge.overlaid(score).learned() == bridge.learned(),
        bridge.overlaid(score).score == score,
        bridge.overlaid(score).view_changed,
        bridge.overlaid(score).dirty == bridge.dirty,
        bridge.waiting_for(binding, message).learned() == bridge.learned(),
        bridge.waiting_for(binding, message).in_effect() == bridge.in_effect(),
        bridge.waiting_for(binding, message).learning == Some(binding),
        bridge.waiting_for(binding, message).message == Some(message),
        bridge.stored(message).learned() == bridge.learned(),
        bridge.stored(message).in_effect() == bridge.in_effect(),
        !bridge.stored(message).dirty,
        bridge.flushed().learned() == bridge.learned(),
        bridge.flushed().in_effect() == bridge.in_effect(),
        bridge.flushed().pending.len() == 0,
        !bridge.flushed().view_changed,
        bridge.flushed().seq == bridge.seq,
{
}

/// A freed control does nothing any more unless the score has a job for it, every other control keeps
/// its own, and the profile is unsaved.
pub proof fn a_freed_control_is_free(
    bridge: BridgeModel,
    key: MidiId,
    other: MidiId,
    message: Seq<char>,
)
    ensures
        ({
            let after = bridge.freed(key, message);
            &&& !after.learned().contains_key(key)
            &&& after.in_effect().contains_key(key) <==> mapped(bridge.score).contains_key(key)
            &&& other != key ==> after.learned().contains_key(other)
                == bridge.learned().contains_key(other)
            &&& other != key && bridge.learned().contains_key(other) ==> after.learned()[other]
                == bridge.learned()[other]
            &&& after.dirty
            &&& after.score == bridge.score
        }),
{
}

/// The view shows the bridge as it is: the port that is open, the profile that is loaded, the control
/// that is being learnt, and whether there is something left to save.
pub proof fn the_view_shows_the_bridge(view: MidiView, bridge: BridgeModel)
    requires
        view_shows(view, bridge),
    ensures
        view.connected <==> bridge.port is Some,
        view.dirty <==> bridge.dirty,
        view.dropped == bridge.dropped,
        view.port is Some <==> bridge.port is Some,
        view.port matches Some(port) ==> bridge.port == Some(port@),
        view.device is Some <==> bridge.profile is Some,
        view.device matches Some(device) ==> device@ == bridge.profile->0.device,
        view.learning is Some <==> bridge.learning is Some,
        view.learning matches Some(address) ==> address@ == bridge.learning->0.address,
        view.learning_label matches Some(label) ==> label@ == bridge.learning->0.label,
        view.path matches Some(path) ==> bridge.path == Some(path@),
        view.message matches Some(message) ==> bridge.message == Some(message@),
{
}

} // verus!
