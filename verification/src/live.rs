//! The looper at the keyboard: track arguments, what a typed line means, and what the screen shows.
//!
//! One line is one action on the selected track. Everything musical goes through the [`Scheduler`];
//! this file is only the keyboard in front of it.
use vstd::prelude::*;
use vstd::string::*;
use crate::command::{
    accepted_of,
    all_offered,
    Command,
    CommandSender,
    Status,
    TrackState,
    TrackStatus,
    MAX_TRACKS,
};
use crate::fx::{
    note_label,
    note_of_word,
    preset_label,
    preset_of_word,
    slot_label,
    slots,
    status_letters,
    DelayNote,
    FxParam,
    FxPreset,
    FxSlot,
    FxStatus,
    FX_SLOTS,
};
use crate::queue::as_room_allows;
use crate::schedule::{
    push_quoted,
    quoted,
    regrid,
    regridded,
    samples_in,
    Quantize,
    Scheduled,
    Scheduler,
};
use crate::single::{push_hundredths, shown_hundredths, Single};
use crate::text::{
    decimal,
    decimal_reads_back,
    is_digit,
    is_white_space,
    last_place,
    lemma_decimal_digits,
    lower,
    parse_unsigned,
    push_decimal,
    same_text,
    split_at_last,
    texts,
    the_last_place_is_the_last,
    to_lowercase,
    trim,
    trimmed,
    trimmed_leaves_words,
    unsigned_value,
    words,
    words_of,
};
use crate::timeline::{Bpm, TimeSignature, Timeline};
use crate::track::{is_muted, mask_bit, UNITY};

verus! {

/// One track as the user asked for it.
#[derive(Debug, PartialEq, Eq)]
pub struct TrackDef {
    pub name: String,
    /// Zero-based channel index inside an input frame.
    pub channel: usize,
}

// ---------------------------------------------------------------------------------------------
// Track arguments
// ---------------------------------------------------------------------------------------------

/// A track definition, as mathematics.
#[verifier::ext_equal]
pub struct DefModel {
    pub name: Seq<char>,
    pub channel: int,
}

impl View for TrackDef {
    type V = DefModel;

    open spec fn view(&self) -> DefModel {
        DefModel { name: self.name@, channel: self.channel as int }
    }
}

/// What one `NAME:KANAL` argument stands for, or the German sentence that says why it stands for
/// nothing. The last colon counts, so a name may contain one.
pub open spec fn track_arg(text: Seq<char>) -> Result<DefModel, Seq<char>> {
    let spec_text = trimmed(text);
    match last_place(spec_text, ':') {
        None => Err(
            "--track "@ + quoted(spec_text)
                + " ist unvollstaendig. Erwartet wird NAME:KANAL, z.B. --track stimme:1"@,
        ),
        Some(at) => {
            let name = trimmed(spec_text.subrange(0, at));
            let channel = trimmed(spec_text.subrange(at + 1, spec_text.len() as int));
            if name.len() == 0 {
                Err("--track "@ + quoted(spec_text) + ": vor dem Doppelpunkt fehlt der Name."@)
            } else {
                match unsigned_value(channel, usize::MAX as nat) {
                    None => Err(
                        "--track "@ + quoted(spec_text) + ": "@ + quoted(channel)
                            + " ist keine Kanalnummer. Erwartet wird eine ganze Zahl ab 1."@,
                    ),
                    Some(n) => if n == 0 {
                        Err(
                            "--track "@ + quoted(spec_text)
                                + ": Kanaele werden ab 1 gezaehlt, wie am Geraet beschriftet."@,
                        )
                    } else {
                        Ok(DefModel { name, channel: n - 1 })
                    },
                }
            }
        },
    }
}

/// Whether an outcome is the one described.
pub open spec fn is_outcome(r: Result<TrackDef, String>, wanted: Result<DefModel, Seq<char>>) -> bool {
    match wanted {
        Ok(def) => r matches Ok(d) && d@ == def,
        Err(text) => r matches Err(e) && e@ == text,
    }
}

fn about_arg(spec_text: &str) -> (r: String)
    ensures
        r@ == "--track "@ + quoted(spec_text@),
{
    let mut r = String::new();
    r.append("--track ");
    push_quoted(&mut r, spec_text);
    r
}

/// Parse one `--track name:channel` argument. The channel is 1-based here, as printed on the
/// interface, and zero-based everywhere inside the engine.
pub fn parse_track_arg(text: &str) -> (r: Result<TrackDef, String>)
    ensures
        is_outcome(r, track_arg(text@)),
{
    let arg: &str = trim(text);
    match split_at_last(arg, ':') {
        None => {
            let mut e: String = about_arg(arg);
            e.append(" ist unvollstaendig. Erwartet wird NAME:KANAL, z.B. --track stimme:1");
            Err(e)
        },
        Some((front, back)) => {
            let name: &str = trim(front);
            let channel: &str = trim(back);
            if name.is_empty() {
                let mut e: String = about_arg(arg);
                e.append(": vor dem Doppelpunkt fehlt der Name.");
                return Err(e);
            }
            match parse_unsigned(channel, usize::MAX as u64) {
                None => {
                    let mut e: String = about_arg(arg);
                    e.append(": ");
                    push_quoted(&mut e, channel);
                    e.append(" ist keine Kanalnummer. Erwartet wird eine ganze Zahl ab 1.");
                    Err(e)
                },
                Some(n) => {
                    if n == 0 {
                        let mut e: String = about_arg(arg);
                        e.append(": Kanaele werden ab 1 gezaehlt, wie am Geraet beschriftet.");
                        return Err(e);
                    }
                    Ok(TrackDef { name: name.to_owned(), channel: n as usize - 1 })
                },
            }
        },
    }
}

/// The definitions the first `n` arguments stand for, or the first sentence.
pub open spec fn args_read(specs: Seq<Seq<char>>, n: nat) -> Result<Seq<DefModel>, Seq<char>>
    decreases n,
{
    if n == 0 {
        Ok(Seq::empty())
    } else {
        match args_read(specs, (n - 1) as nat) {
            Err(text) => Err(text),
            Ok(defs) => match track_arg(specs[n - 1]) {
                Err(text) => Err(text),
                Ok(def) => Ok(defs.push(def)),
            },
        }
    }
}

/// The setup this looper was built for: voice on input 1, guitar on input 2, reduced to what the
/// device can deliver.
pub open spec fn usual_tracks(in_channels: int) -> Seq<DefModel> {
    if in_channels >= 2 {
        seq![DefModel { name: "stimme"@, channel: 0 }, DefModel { name: "gitarre"@, channel: 1 }]
    } else {
        seq![DefModel { name: "stimme"@, channel: 0 }]
    }
}

/// The sentence about an input the device does not have.
pub open spec fn channel_text(def: DefModel, in_channels: int) -> Seq<char> {
    "Track "@ + quoted(def.name) + " soll auf Eingang "@ + decimal((def.channel + 1) as nat)
        + " hoeren, das Geraet liefert aber nur "@ + decimal(in_channels as nat)
        + " Eingangskanaele (also Eingang 1 bis "@ + decimal(in_channels as nat)
        + ").\n  - anderen Kanal waehlen: --track "@ + def.name
        + ":1\n  - oder mehr Kanaele oeffnen: --in-channels "@ + decimal((def.channel + 1) as nat)
}

/// The sentence about a name that was given twice.
pub open spec fn twice_text(name: Seq<char>) -> Seq<char> {
    "Der Trackname "@ + quoted(name) + " kommt zweimal vor. Namen muessen eindeutig sein."@
}

/// Whether one of the first `i` definitions has the name of definition `i`.
pub open spec fn named_before(defs: Seq<DefModel>, i: int) -> bool {
    exists|j: int| 0 <= j < i && (#[trigger] defs[j]).name == defs[i].name
}

/// The first definition with an input the device does not have.
pub open spec fn first_unheard(defs: Seq<DefModel>, in_channels: int, i: int) -> bool {
    &&& 0 <= i < defs.len()
    &&& defs[i].channel >= in_channels
    &&& forall|j: int| 0 <= j < i ==> (#[trigger] defs[j]).channel < in_channels
}

/// The first definition whose name was given before.
pub open spec fn first_repeated(defs: Seq<DefModel>, i: int) -> bool {
    &&& 0 <= i < defs.len()
    &&& named_before(defs, i)
    &&& forall|j: int| 0 <= j < i ==> !#[trigger] named_before(defs, j)
}

/// What is wrong with a list of definitions: more than there can be, then the first input that does
/// not exist, then the first name that occurs twice.
pub open spec fn defs_error(defs: Seq<DefModel>, in_channels: int) -> Option<Seq<char>> {
    if defs.len() > MAX_TRACKS {
        Some(
            decimal(defs.len()) + " Tracks angefragt, moeglich sind hoechstens "@ + decimal(
                MAX_TRACKS as nat,
            ) + "."@,
        )
    } else if exists|i: int| first_unheard(defs, in_channels, i) {
        Some(channel_text(defs[choose|i: int| first_unheard(defs, in_channels, i)], in_channels))
    } else if exists|i: int| first_repeated(defs, i) {
        Some(twice_text(defs[choose|i: int| first_repeated(defs, i)].name))
    } else {
        None
    }
}

/// The tracks a list of arguments stands for, or the German sentence that says why not.
pub open spec fn tracks_of(specs: Seq<Seq<char>>, in_channels: int) -> Result<
    Seq<DefModel>,
    Seq<char>,
> {
    if in_channels == 0 {
        Err("Das Geraet meldet keinen einzigen Eingangskanal."@)
    } else {
        let read = if specs.len() == 0 {
            Ok(usual_tracks(in_channels))
        } else {
            args_read(specs, specs.len())
        };
        match read {
            Err(text) => Err(text),
            Ok(defs) => match defs_error(defs, in_channels) {
                Some(text) => Err(text),
                None => Ok(defs),
            },
        }
    }
}

pub open spec fn def_models(defs: Seq<TrackDef>) -> Seq<DefModel> {
    defs.map_values(|d: TrackDef| d@)
}

proof fn lemma_args_error_stays(specs: Seq<Seq<char>>, n: nat, m: nat)
    requires
        n <= m,
        args_read(specs, n) is Err,
    ensures
        args_read(specs, m) == args_read(specs, n),
    decreases m,
{
    if n < m {
        lemma_args_error_stays(specs, n, (m - 1) as nat);
    }
}

fn read_args(specs: &Vec<String>) -> (r: Result<Vec<TrackDef>, String>)
    ensures
        match args_read(texts(specs@), specs@.len()) {
            Ok(defs) => r matches Ok(d) && def_models(d@) == defs,
            Err(text) => r matches Err(e) && e@ == text,
        },
{
    let mut defs: Vec<TrackDef> = Vec::new();
    let mut i: usize = 0;
    assert(def_models(defs@) =~= Seq::<DefModel>::empty());
    while i < specs.len()
        invariant
            i <= specs.len(),
            args_read(texts(specs@), i as nat) == Ok::<Seq<DefModel>, Seq<char>>(
                def_models(defs@),
            ),
        decreases specs.len() - i,
    {
        let ghost before = defs@;
        assert(texts(specs@)[i as int] == specs@[i as int]@);
        match parse_track_arg(specs[i].as_str()) {
            Ok(def) => {
                defs.push(def);
                assert(def_models(defs@) =~= def_models(before).push(def@));
            },
            Err(e) => {
                proof {
                    lemma_args_error_stays(texts(specs@), (i + 1) as nat, specs@.len());
                }
                return Err(e);
            },
        }
        i = i + 1;
    }
    Ok(defs)
}

fn usual_defs(in_channels: usize) -> (r: Vec<TrackDef>)
    requires
        in_channels > 0,
    ensures
        def_models(r@) == usual_tracks(in_channels as int),
{
    let mut r: Vec<TrackDef> = Vec::new();
    r.push(TrackDef { name: "stimme".to_owned(), channel: 0 });
    if in_channels >= 2 {
        r.push(TrackDef { name: "gitarre".to_owned(), channel: 1 });
    }
    assert(def_models(r@) =~= usual_tracks(in_channels as int));
    r
}

fn unheard_sentence(def: &TrackDef, in_channels: usize) -> (r: String)
    requires
        def.channel < usize::MAX,
    ensures
        r@ == channel_text(def@, in_channels as int),
{
    let mut r = String::new();
    r.append("Track ");
    push_quoted(&mut r, def.name.as_str());
    r.append(" soll auf Eingang ");
    push_decimal(&mut r, def.channel as u64 + 1);
    r.append(" hoeren, das Geraet liefert aber nur ");
    push_decimal(&mut r, in_channels as u64);
    r.append(" Eingangskanaele (also Eingang 1 bis ");
    push_decimal(&mut r, in_channels as u64);
    r.append(").\n  - anderen Kanal waehlen: --track ");
    r.append(def.name.as_str());
    r.append(":1\n  - oder mehr Kanaele oeffnen: --in-channels ");
    push_decimal(&mut r, def.channel as u64 + 1);
    r
}

/// Check a list of definitions against what the device has.
fn check_defs(defs: &Vec<TrackDef>, in_channels: usize) -> (r: Result<(), String>)
    requires
        forall|i: int| 0 <= i < defs@.len() ==> (#[trigger] defs@[i]).channel < usize::MAX,
    ensures
        match defs_error(def_models(defs@), in_channels as int) {
            Some(text) => r matches Err(e) && e@ == text,
            None => r is Ok,
        },
{
    let ghost all = def_models(defs@);
    if defs.len() > MAX_TRACKS {
        let mut text = String::new();
        push_decimal(&mut text, defs.len() as u64);
        text.append(" Tracks angefragt, moeglich sind hoechstens ");
        push_decimal(&mut text, MAX_TRACKS as u64);
        text.append(".");
        assert(text@ =~= defs_error(all, in_channels as int)->0);
        return Err(text);
    }
    let mut i: usize = 0;
    while i < defs.len()
        invariant
            i <= defs.len() <= MAX_TRACKS,
            all == def_models(defs@),
            forall|j: int| 0 <= j < defs@.len() ==> (#[trigger] defs@[j]).channel < usize::MAX,
            forall|j: int| 0 <= j < i ==> (#[trigger] all[j]).channel < in_channels,
        decreases defs.len() - i,
    {
        assert(all[i as int] == defs@[i as int]@);
        if defs[i].channel >= in_channels {
            proof {
                assert(first_unheard(all, in_channels as int, i as int));
                let k = choose|k: int| first_unheard(all, in_channels as int, k);
                assert(k == i) by {
                    if k < i {
                        assert(all[k].channel < in_channels);
                    } else if i < k {
                        assert(all[i as int].channel < in_channels);
                    }
                }
            }
            return Err(unheard_sentence(&defs[i], in_channels));
        }
        i = i + 1;
    }
    assert(!exists|k: int| first_unheard(all, in_channels as int, k));
    let mut i: usize = 0;
    while i < defs.len()
        invariant
            i <= defs.len() <= MAX_TRACKS,
            all == def_models(defs@),
            !exists|k: int| first_unheard(all, in_channels as int, k),
            forall|j: int| 0 <= j < i ==> !#[trigger] named_before(all, j),
        decreases defs.len() - i,
    {
        let mut j: usize = 0;
        assert(all[i as int] == defs@[i as int]@);
        while j < i
            invariant
                j <= i < defs.len() <= MAX_TRACKS,
                all == def_models(defs@),
                all[i as int] == defs@[i as int]@,
                !exists|k: int| first_unheard(all, in_channels as int, k),
                forall|k: int| 0 <= k < i ==> !#[trigger] named_before(all, k),
                forall|k: int| 0 <= k < j ==> (#[trigger] all[k]).name != all[i as int].name,
            decreases i - j,
        {
            assert(all[j as int] == defs@[j as int]@);
            if defs[j].name == defs[i].name {
                proof {
                    assert(named_before(all, i as int));
                    assert(first_repeated(all, i as int));
                    let k = choose|k: int| first_repeated(all, k);
                    assert(k == i) by {
                        if k < i {
                            assert(!named_before(all, k));
                        } else if i < k {
                            assert(!named_before(all, i as int));
                        }
                    }
                }
                let mut text = String::new();
                text.append("Der Trackname ");
                push_quoted(&mut text, defs[j].name.as_str());
                text.append(" kommt zweimal vor. Namen muessen eindeutig sein.");
                assert(text@ =~= twice_text(all[i as int].name));
                return Err(text);
            }
            j = j + 1;
        }
        assert(!named_before(all, i as int));
        i = i + 1;
    }
    assert(!exists|k: int| first_repeated(all, k));
    Ok(())
}

proof fn lemma_channels_are_machine_words(specs: Seq<Seq<char>>, n: nat, i: int)
    requires
        args_read(specs, n) is Ok,
        0 <= i < args_read(specs, n)->Ok_0.len(),
    ensures
        args_read(specs, n)->Ok_0[i].channel < usize::MAX,
    decreases n,
{
    let before = args_read(specs, (n - 1) as nat)->Ok_0;
    if i < before.len() {
        lemma_channels_are_machine_words(specs, (n - 1) as nat, i);
    }
}

/// Turn the `--track` arguments into track definitions, or produce a German error.
///
/// Without any argument the setup this looper was built for is assumed: voice on input 1, guitar on
/// input 2, reduced to what the device can actually deliver.
pub fn resolve_tracks(specs: &Vec<String>, in_channels: usize) -> (r: Result<Vec<TrackDef>, String>)
    ensures
        match tracks_of(texts(specs@), in_channels as int) {
            Ok(defs) => r matches Ok(d) && def_models(d@) == defs,
            Err(text) => r matches Err(e) && e@ == text,
        },
{
    if in_channels == 0 {
        return Err("Das Geraet meldet keinen einzigen Eingangskanal.".to_owned());
    }
    let defs: Vec<TrackDef> = if specs.len() == 0 {
        usual_defs(in_channels)
    } else {
        match read_args(specs) {
            Ok(defs) => defs,
            Err(e) => {
                return Err(e);
            },
        }
    };
    proof {
        assert forall|i: int| 0 <= i < defs@.len() implies (#[trigger] defs@[i]).channel
            < usize::MAX by {
            assert(def_models(defs@)[i] == defs@[i]@);
            if specs@.len() > 0 {
                lemma_channels_are_machine_words(texts(specs@), specs@.len(), i);
            }
        }
    }
    match check_defs(&defs, in_channels) {
        Ok(()) => Ok(defs),
        Err(e) => Err(e),
    }
}

// ---------------------------------------------------------------------------------------------
// The screen
// ---------------------------------------------------------------------------------------------

/// A switch, padded to one width.
pub fn on_off(v: bool) -> (r: &'static str)
    ensures
        r@ == (if v {
            "an "@
        } else {
            "aus"@
        }),
{
    if v {
        "an "
    } else {
        "aus"
    }
}

/// Whether a gain differs from one by more than a thousandth. The neighbours of one are a
/// `2^-24`th apart below it and a `2^-23`th above it.
pub open spec fn is_off_unity(gain: Single) -> bool {
    !gain.nan() && (gain.key() < UNITY - 16777 || gain.key() > UNITY + 8388)
}

fn off_unity(gain: Single) -> (r: bool)
    ensures
        r == is_off_unity(gain),
{
    !gain.is_nan() && (gain.below(Single { bits: UNITY - 16777 }) || (Single {
        bits: UNITY + 8388,
    }).below(gain))
}

/// A gain a layer can have.
pub open spec fn is_layer_gain(gain: Single) -> bool {
    (Single { bits: 0 }).le(gain) && gain.le(Single { bits: FOUR })
}

/// Bit pattern of the number 4.
pub const FOUR: u32 = 0x4080_0000;

/// One layer in the list: its number, a star where it is muted, its gain where that is not one.
pub open spec fn layer_text(mask: u32, gains: Seq<Single>, layer: int) -> Seq<char> {
    let number = decimal((layer + 1) as nat);
    let marked = if mask_bit(mask as nat, layer as nat) {
        number + "*"@
    } else {
        number
    };
    if layer < gains.len() && is_off_unity(gains[layer]) {
        marked + "("@ + shown_hundredths(gains[layer]) + ")"@
    } else {
        marked
    }
}

/// The first `n` layers, with a blank between any two.
pub open spec fn layers_joined(mask: u32, gains: Seq<Single>, n: int) -> Seq<char>
    decreases n,
{
    if n <= 0 {
        Seq::empty()
    } else if n == 1 {
        layer_text(mask, gains, 0)
    } else {
        layers_joined(mask, gains, n - 1) + " "@ + layer_text(mask, gains, n - 1)
    }
}

/// Append one layer of the list.
fn push_layer(out: &mut String, mask: u32, gains: &Vec<Single>, layer: usize)
    requires
        layer < 256,
        layer < gains@.len() ==> is_layer_gain(gains@[layer as int]),
    ensures
        final(out)@ == old(out)@ + layer_text(mask, gains@, layer as int),
{
    push_decimal(out, layer as u64 + 1);
    if is_muted(mask, layer) {
        out.append("*");
    }
    if layer < gains.len() && off_unity(gains[layer]) {
        out.append("(");
        push_hundredths(out, gains[layer]);
        out.append(")");
    }
    assert(out@ =~= old(out)@ + layer_text(mask, gains@, layer as int));
}

/// `[1 2* 3]`, with `*` for muted and the gain appended where it is not 1.
pub fn layer_list(ts: &TrackStatus, gains: &Vec<Single>) -> (r: String)
    requires
        forall|i: int| 0 <= i < gains@.len() ==> is_layer_gain(#[trigger] gains@[i]),
    ensures
        r@ == (if ts.layers == 0 {
            "-"@
        } else {
            "["@ + layers_joined(ts.muted_mask, gains@, ts.layers as int) + "]"@
        }),
{
    if ts.layers == 0 {
        return "-".to_owned();
    }
    let mut list = String::new();
    let mut i: u8 = 0;
    assert(list@ =~= layers_joined(ts.muted_mask, gains@, 0));
    while i < ts.layers
        invariant
            i <= ts.layers,
            forall|j: int| 0 <= j < gains@.len() ==> is_layer_gain(#[trigger] gains@[j]),
            list@ == layers_joined(ts.muted_mask, gains@, i as int),
        decreases ts.layers - i,
    {
        let ghost so_far = list@;
        if i > 0 {
            list.append(" ");
        }
        push_layer(&mut list, ts.muted_mask, gains, i as usize);
        proof {
            let one = layer_text(ts.muted_mask, gains@, i as int);
            if i == 0 {
                assert(list@ =~= one);
            } else {
                assert(list@ =~= so_far + " "@ + one);
            }
        }
        i = i + 1;
    }
    let mut r = String::new();
    r.append("[");
    r.append(list.as_str());
    r.append("]");
    assert(r@ =~= "["@ + list@ + "]"@);
    r
}

/// The effect column: which preset, which effects are on, and, when the delay is one of them, the
/// note value it is locked to.
pub open spec fn fx_column(fx: FxStatus) -> Seq<char> {
    if fx.bypass {
        "aus"@
    } else {
        let head = preset_label(fx.preset) + " "@ + status_letters(fx.settings@.enabled);
        if fx.settings@.enabled[3] {
            head + " "@ + note_label(fx.settings@.delay_note)
        } else {
            head
        }
    }
}

/// The effect column of a track line: `stimme HEK-R 1/8.`.
pub fn fx_text(fx: &FxStatus) -> (r: String)
    ensures
        r@ == fx_column(*fx),
{
    if fx.bypass {
        return "aus".to_owned();
    }
    let mut text = String::new();
    text.append(fx.preset.label());
    text.append(" ");
    text.append(fx.letters().as_str());
    if fx.settings.enabled[3] {
        text.append(" ");
        text.append(fx.settings.delay_note.label());
    }
    assert(text@ =~= fx_column(*fx));
    text
}

// ---------------------------------------------------------------------------------------------
// The keyboard
// ---------------------------------------------------------------------------------------------

/// The control side's view of one track: what the user calls it, and the layer gains it set.
///
/// The engine is the authority on how many layers exist; the gains are mirrored here because they
/// are the one piece of layer state the status snapshot does not carry.
#[derive(Debug)]
pub struct TrackUi {
    pub name: String,
    pub channel: usize,
    pub gains: Vec<Single>,
}

/// A tempo as it was typed: the number it stands for and how it is written.
#[derive(Debug)]
pub struct Tempo {
    pub bpm: Bpm,
    pub shown: String,
}

pub open spec fn tempo_model(tempo: Option<Tempo>) -> Option<(Bpm, Seq<char>)> {
    match tempo {
        Some(tempo) => Some((tempo.bpm, tempo.shown@)),
        None => None,
    }
}

/// What a typed line changes on the control side.
#[derive(Clone, Copy, Debug, PartialEq, Eq, Structural)]
pub enum Effect {
    Nothing,
    /// Another track is selected.
    Select(usize),
    /// The layers of one track are gone, and with them their gains.
    ForgetGains(usize),
    /// The layers of all tracks are gone; the first track is selected.
    ForgetAll,
    /// One layer of the selected track is gone.
    DropGain(usize),
    /// One layer of the selected track has another gain.
    SetGain(usize, Single),
    /// Another tempo, and layers of another length.
    Retime { timeline: Timeline, layer_capacity: u64 },
    /// The program ends.
    Quit,
}

/// The answer to a typed line: the commands to send, the sentence to show (None leaves the last one
/// standing), and what changes on the control side.
#[derive(Debug)]
pub struct Reply {
    pub commands: Vec<Command>,
    pub message: Option<String>,
    pub effect: Effect,
}

/// An answer, as mathematics.
#[verifier::ext_equal]
pub struct Answer {
    pub commands: Seq<Command>,
    pub message: Option<Seq<char>>,
    pub effect: Effect,
}

pub open spec fn message_model(message: Option<String>) -> Option<Seq<char>> {
    match message {
        Some(text) => Some(text@),
        None => None,
    }
}

impl View for Reply {
    type V = Answer;

    open spec fn view(&self) -> Answer {
        Answer {
            commands: self.commands@,
            message: message_model(self.message),
            effect: self.effect,
        }
    }
}

/// Only a sentence.
pub open spec fn said(text: Seq<char>) -> Answer {
    Answer { commands: Seq::empty(), message: Some(text), effect: Effect::Nothing }
}

fn say(message: String) -> (r: Reply)
    ensures
        r@ == said(message@),
{
    let r = Reply { commands: Vec::new(), message: Some(message), effect: Effect::Nothing };
    assert(r@ =~= said(message@));
    r
}

/// One command, a sentence and a change.
pub open spec fn ordered(command: Command, text: Seq<char>, effect: Effect) -> Answer {
    Answer { commands: seq![command], message: Some(text), effect }
}

fn order(command: Command, message: String, effect: Effect) -> (r: Reply)
    ensures
        r@ == ordered(command, message@, effect),
{
    let r = Reply { commands: vec![command], message: Some(message), effect };
    assert(r@ =~= ordered(command, message@, effect));
    r
}

/// A plan and a change.
pub open spec fn planned(plan: Seq<Command>, text: Seq<char>, effect: Effect) -> Answer {
    Answer { commands: plan, message: Some(text), effect }
}

fn follow(plan: Scheduled, effect: Effect) -> (r: Reply)
    ensures
        r@ == planned(plan.commands@, plan.message@, effect),
{
    Reply { commands: plan.commands, message: Some(plan.message), effect }
}

/// Word `i` of a line, if there is one.
pub open spec fn word_at(line: Seq<Seq<char>>, i: int) -> Option<Seq<char>> {
    if i < line.len() {
        Some(line[i])
    } else {
        None
    }
}

/// `"name": ` with a sentence behind it.
pub open spec fn about(name: Seq<char>, text: Seq<char>) -> Seq<char> {
    quoted(name) + ": "@ + text
}

fn tell(name: &str) -> (r: String)
    ensures
        r@ == quoted(name@) + ": "@,
{
    let mut r = String::new();
    push_quoted(&mut r, name);
    r.append(": ");
    r
}

pub open spec fn usage(text: Seq<char>) -> Seq<char> {
    "Aufruf: "@ + text
}

fn explain(text: &str) -> (r: String)
    ensures
        r@ == usage(text@),
{
    let mut r = String::new();
    r.append("Aufruf: ");
    r.append(text);
    assert(r@ =~= usage(text@));
    r
}

pub open spec fn switched(on: bool) -> Seq<char> {
    if on {
        "an"@
    } else {
        "aus"@
    }
}

fn switch_word(on: bool) -> (r: &'static str)
    ensures
        r@ == switched(on),
{
    if on {
        "an"
    } else {
        "aus"
    }
}

/// The layer a one-based number names, against how many the engine says exist, or the sentence that
/// says why it names none.
pub open spec fn layer_choice(
    arg: Option<Seq<char>>,
    layers: u8,
    name: Seq<char>,
    call: Seq<char>,
) -> Result<int, Seq<char>> {
    let number = match arg {
        Some(word) => unsigned_value(word, usize::MAX as nat),
        None => None,
    };
    match number {
        None => Err(usage(call)),
        Some(n) => if n == 0 || n > layers {
            if layers == 0 {
                Err(quoted(name) + " hat keine Ebenen."@)
            } else {
                Err(quoted(name) + " hat die Ebenen 1 bis "@ + decimal(layers as nat) + "."@)
            }
        } else {
            Ok(n - 1)
        },
    }
}

pub open spec fn mute_call() -> Seq<char> {
    "e <nr>  (Ebene stumm/laut)"@
}

pub open spec fn remove_call() -> Seq<char> {
    "w <nr>  (Ebene weg)"@
}

pub open spec fn gain_call() -> Seq<char> {
    "l <nr> <wert>  (Lautstaerke einer Ebene, 0.0 bis 4.0)"@
}

/// A number that was typed, or one that stays where none was. None where what was typed is none.
pub open spec fn number_or(arg: Option<Seq<char>>, otherwise: u32) -> Option<u32> {
    match arg {
        Some(word) => match unsigned_value(word, u32::MAX as nat) {
            Some(n) => Some(n as u32),
            None => None,
        },
        None => Some(otherwise),
    }
}

/// Everything the keyboard needs to know.
pub struct Control {
    pub cmd: CommandSender,
    pub sched: Scheduler,
    /// Grid a recording and an overdub snap to.
    pub quantize: Quantize,
    pub latency: u64,
    /// Length the layers are allocated in.
    pub layer_len: u64,
    pub tracks: Vec<TrackUi>,
    pub active: usize,
    pub message: String,
    pub running: bool,
}

impl Control {
    /// The selected track exists, and every gain is one a layer can have.
    pub open spec fn wf(self) -> bool {
        &&& self.active < self.tracks@.len() <= MAX_TRACKS
        &&& forall|t: int, i: int|
            0 <= t < self.tracks@.len() && 0 <= i < self.tracks@[t].gains@.len() ==> is_layer_gain(
                #[trigger] self.tracks@[t].gains@[i],
            )
    }

    pub open spec fn name(self) -> Seq<char> {
        self.tracks@[self.active as int].name@
    }

    /// Whether everything a key can plan lies where positions can be counted.
    pub open spec fn plannable(self, est: u64, origin: u64, loop_len: u64) -> bool {
        self.sched.plannable(self.quantize, est, origin, loop_len)
    }

    pub open spec fn muting(self, arg: Option<Seq<char>>, ts: TrackStatus) -> Answer {
        let track = self.active;
        match layer_choice(arg, ts.layers, self.name(), mute_call()) {
            Err(text) => said(text),
            Ok(layer) => {
                let muted = !mask_bit(ts.muted_mask as nat, layer as nat);
                ordered(
                    Command::SetLayerMute { track, layer: layer as usize, muted },
                    about(
                        self.name(),
                        "Ebene "@ + decimal((layer + 1) as nat) + " "@ + (if muted {
                            "stumm"@
                        } else {
                            "wieder hoerbar"@
                        }) + "."@,
                    ),
                    Effect::Nothing,
                )
            },
        }
    }

    pub open spec fn removing(self, arg: Option<Seq<char>>, ts: TrackStatus) -> Answer {
        match layer_choice(arg, ts.layers, self.name(), remove_call()) {
            Err(text) => said(text),
            Ok(layer) => ordered(
                Command::RemoveLayer { track: self.active, layer: layer as usize },
                about(self.name(), "Ebene "@ + decimal((layer + 1) as nat) + " entfernt."@),
                Effect::DropGain(layer as usize),
            ),
        }
    }

    pub open spec fn gaining(
        self,
        arg: Option<Seq<char>>,
        gain: Option<Single>,
        ts: TrackStatus,
    ) -> Answer {
        match layer_choice(arg, ts.layers, self.name(), gain_call()) {
            Err(text) => said(text),
            Ok(layer) => match gain {
                None => said(usage(gain_call())),
                Some(gain) => if !is_layer_gain(gain) {
                    said("Die Lautstaerke muss zwischen 0.0 und 4.0 liegen."@)
                } else {
                    ordered(
                        Command::SetLayerGain { track: self.active, layer: layer as usize, gain },
                        about(
                            self.name(),
                            "Ebene "@ + decimal((layer + 1) as nat) + " auf "@ + shown_hundredths(
                                gain,
                            ) + "."@,
                        ),
                        Effect::SetGain(layer as usize, gain),
                    )
                },
            },
        }
    }

    /// One effect in or out.
    pub open spec fn effecting(self, arg: Option<Seq<char>>, ts: TrackStatus) -> Answer {
        let number = match arg {
            Some(word) => unsigned_value(word, usize::MAX as nat),
            None => None,
        };
        match number {
            Some(n) if 1 <= n <= FX_SLOTS => {
                let slot = slots()[n - 1];
                let on = !ts.fx.settings@.enabled[slot.place()];
                ordered(
                    Command::SetFxEnabled { track: self.active, slot, on },
                    about(
                        self.name(),
                        slot_label(slot) + " "@ + switched(on) + (if ts.fx.bypass {
                            " (die ganze Kette ist noch umgangen - f druecken)"@
                        } else {
                            ""@
                        }) + "."@,
                    ),
                    Effect::Nothing,
                )
            },
            _ => said(
                usage("x <1-5>  (1 Hochpass, 2 EQ, 3 Kompressor, 4 Delay, 5 Hall)"@),
            ),
        }
    }

    /// A ready-made chain.
    pub open spec fn presetting(self, arg: Option<Seq<char>>) -> Answer {
        let preset = match arg {
            Some(word) => preset_of_word(lower(trimmed(word))),
            None => None,
        };
        match preset {
            Some(preset) => ordered(
                Command::LoadFxPreset { track: self.active, preset },
                about(self.name(), "Preset "@ + quoted(preset_label(preset)) + " geladen."@),
                Effect::Nothing,
            ),
            None => said(usage("v <trocken|stimme|gitarre>"@)),
        }
    }

    /// A note value for the delay.
    pub open spec fn delaying(self, arg: Option<Seq<char>>) -> Answer {
        let note = match arg {
            Some(word) => note_of_word(lower(trimmed(word))),
            None => None,
        };
        match note {
            Some(note) => ordered(
                Command::SetFxParam { track: self.active, param: FxParam::DelayNote(note) },
                about(
                    self.name(),
                    "Delay auf "@ + note_label(note) + " (aus dem Tempo gerechnet)."@,
                ),
                Effect::Nothing,
            ),
            None => said(usage("d <1/4|1/8.|1/8|1/8T>"@)),
        }
    }

    /// Another tempo, for a metre that has been read.
    pub open spec fn retiming(self, bpm: Bpm, shown: Seq<char>, signature: TimeSignature) -> Answer {
        match regridded(
            self.sched.timeline.rate() as u32,
            bpm,
            shown,
            signature,
            self.sched.bars,
            self.latency,
        ) {
            Err(text) => said(text),
            Ok(layer_capacity) => ordered(
                Command::SetTempo { bpm, signature, layer_capacity },
                "Tempo "@ + shown + " BPM, "@ + decimal(signature.beats_per_bar as nat) + "/"@
                    + decimal(signature.beat_unit as nat) + "."@,
                Effect::Retime {
                    timeline: self.sched.timeline.retimed(bpm, signature),
                    layer_capacity,
                },
            ),
        }
    }

    /// Another tempo: only while nothing is recorded, because a new tempo redefines what every
    /// sample position means.
    pub open spec fn tempoing(
        self,
        tempo: Option<(Bpm, Seq<char>)>,
        beats: Option<Seq<char>>,
        unit: Option<Seq<char>>,
        busy: bool,
    ) -> Answer {
        let metre = self.sched.timeline.metre();
        if busy {
            said("Tempo laesst sich nur aendern, wenn alle Tracks leer sind (erst a)."@)
        } else {
            match tempo {
                None => said(usage("t <bpm> [schlaege_pro_takt] [zaehlzeit]"@)),
                Some((bpm, shown)) => match number_or(beats, metre.beats_per_bar) {
                    None => said("Schlaege pro Takt muss eine ganze Zahl sein."@),
                    Some(beats_per_bar) => match number_or(unit, metre.beat_unit) {
                        None => said("Zaehlzeit muss eine ganze Zahl sein."@),
                        Some(beat_unit) => self.retiming(
                            bpm,
                            shown,
                            TimeSignature { beats_per_bar, beat_unit },
                        ),
                    },
                },
            }
        }
    }

    /// A track chosen by its one-based number.
    pub open spec fn selecting(self, n: nat) -> Answer {
        if 1 <= n <= self.tracks@.len() {
            Answer {
                commands: Seq::empty(),
                message: Some(
                    "Track "@ + decimal(n) + " "@ + quoted(self.tracks@[n - 1].name@)
                        + " gewaehlt."@,
                ),
                effect: Effect::Select((n - 1) as usize),
            }
        } else {
            said(
                "Track "@ + decimal(n) + " gibt es nicht. Vorhanden: 1 bis "@ + decimal(
                    self.tracks@.len(),
                ) + "."@,
            )
        }
    }

    pub open spec fn bypassing(self, ts: TrackStatus) -> Answer {
        let on = !ts.fx.bypass;
        ordered(
            Command::SetFxBypass { track: self.active, on },
            about(
                self.name(),
                "Effektkette "@ + (if on {
                    "umgangen"@
                } else {
                    "aktiv"@
                }) + "."@,
            ),
            Effect::Nothing,
        )
    }

    pub open spec fn monitoring(self, ts: TrackStatus) -> Answer {
        let on = !ts.monitor;
        ordered(
            Command::SetMonitor { track: self.active, on },
            about(self.name(), "Mithoeren "@ + switched(on) + "."@),
            Effect::Nothing,
        )
    }

    /// What a line of words means, where the selected track looks like `ts`, the engine is at `est`,
    /// the metronome sounds or not, and anything is recorded or not. `gain` is the third word and
    /// `tempo` the second one, read as a number where it is one.
    pub open spec fn meaning(
        self,
        line: Seq<Seq<char>>,
        gain: Option<Single>,
        tempo: Option<(Bpm, Seq<char>)>,
        est: u64,
        ts: TrackStatus,
        click: bool,
        busy: bool,
    ) -> Answer {
        let track = self.active;
        if line.len() == 0 {
            Answer { commands: Seq::empty(), message: None, effect: Effect::Nothing }
        } else {
            let key = line[0];
            if key.len() == 1 && is_digit(key[0]) {
                self.selecting((key[0] as nat - 48) as nat)
            } else if key == "r"@ {
                planned(
                    self.sched.take_plan(self.quantize, track, est),
                    self.sched.take_text(self.quantize, self.name(), est),
                    Effect::ForgetGains(track),
                )
            } else if key == "o"@ {
                planned(
                    self.sched.layer_plan(self.quantize, track, est, ts.origin, ts.loop_len),
                    self.sched.layer_text(
                        self.quantize,
                        self.name(),
                        est,
                        ts.origin,
                        ts.loop_len,
                        ts.layers,
                    ),
                    Effect::Nothing,
                )
            } else if key == "s"@ {
                planned(
                    self.sched.stop_plan(track, est, ts.state),
                    self.sched.stop_text(self.name(), est, ts.state),
                    Effect::Nothing,
                )
            } else if key == "p"@ {
                planned(
                    self.sched.play_plan(track, est),
                    self.sched.play_text(self.name(), est),
                    Effect::Nothing,
                )
            } else if key == "c"@ {
                planned(
                    self.sched.clear_plan(track, est),
                    quoted(self.name()) + " geleert."@,
                    Effect::ForgetGains(track),
                )
            } else if key == "a"@ {
                planned(
                    self.sched.clear_all_plan(est),
                    "Alles geleert - Zustand wie frisch gestartet."@,
                    Effect::ForgetAll,
                )
            } else if key == "m"@ {
                self.monitoring(ts)
            } else if key == "k"@ {
                ordered(
                    Command::SetClick { on: !click },
                    "Klick "@ + switched(!click) + "."@,
                    Effect::Nothing,
                )
            } else if key == "f"@ {
                self.bypassing(ts)
            } else if key == "x"@ {
                self.effecting(word_at(line, 1), ts)
            } else if key == "v"@ {
                self.presetting(word_at(line, 1))
            } else if key == "d"@ {
                self.delaying(word_at(line, 1))
            } else if key == "e"@ {
                self.muting(word_at(line, 1), ts)
            } else if key == "w"@ {
                self.removing(word_at(line, 1), ts)
            } else if key == "l"@ {
                self.gaining(word_at(line, 1), gain, ts)
            } else if key == "t"@ {
                self.tempoing(tempo, word_at(line, 2), word_at(line, 3), busy)
            } else if key == "q"@ {
                ordered(Command::Stop, "Beende."@, Effect::Quit)
            } else {
                said(
                    "Unbekannte Eingabe "@ + quoted(key) + ". Tasten: 1-"@ + decimal(
                        self.tracks@.len(),
                    ) + " r o s p c a m k e w l t f x v d q"@,
                )
            }
        }
    }
}

impl Control {
    /// `1`-`8`: another track.
    fn select(&self, n: u8) -> (r: Reply)
        requires
            self.wf(),
        ensures
            r@ == self.selecting(n as nat),
    {
        let mut text = String::new();
        text.append("Track ");
        push_decimal(&mut text, n as u64);
        if n >= 1 && n as usize <= self.tracks.len() {
            text.append(" ");
            push_quoted(&mut text, self.tracks[n as usize - 1].name.as_str());
            text.append(" gewaehlt.");
            let r = Reply {
                commands: Vec::new(),
                message: Some(text),
                effect: Effect::Select(n as usize - 1),
            };
            assert(r@ =~= self.selecting(n as nat));
            r
        } else {
            text.append(" gibt es nicht. Vorhanden: 1 bis ");
            push_decimal(&mut text, self.tracks.len() as u64);
            text.append(".");
            say(text)
        }
    }

    /// `f`: whole chain of this track in or out.
    fn fx_bypass(&self, ts: &TrackStatus) -> (r: Reply)
        requires
            self.wf(),
        ensures
            r@ == self.bypassing(*ts),
    {
        let on: bool = !ts.fx.bypass;
        let mut text: String = tell(self.tracks[self.active].name.as_str());
        text.append("Effektkette ");
        text.append(
            if on {
                "umgangen"
            } else {
                "aktiv"
            },
        );
        text.append(".");
        let r = order(Command::SetFxBypass { track: self.active, on }, text, Effect::Nothing);
        assert(r@.message->0 =~= self.bypassing(*ts).message->0);
        r
    }

    /// `m`: hearing yourself through the engine.
    fn monitor(&self, ts: &TrackStatus) -> (r: Reply)
        requires
            self.wf(),
        ensures
            r@ == self.monitoring(*ts),
    {
        let on: bool = !ts.monitor;
        let mut text: String = tell(self.tracks[self.active].name.as_str());
        text.append("Mithoeren ");
        text.append(switch_word(on));
        text.append(".");
        let r = order(Command::SetMonitor { track: self.active, on }, text, Effect::Nothing);
        assert(r@.message->0 =~= self.monitoring(*ts).message->0);
        r
    }

    /// `x <1-5>`: one effect on or off.
    fn fx_slot(&self, arg: Option<&String>, ts: &TrackStatus) -> (r: Reply)
        requires
            self.wf(),
        ensures
            r@ == self.effecting(
                match arg {
                    Some(word) => Some(word@),
                    None => None,
                },
                *ts,
            ),
    {
        let n: Option<u64> = match arg {
            Some(word) => parse_unsigned(word.as_str(), usize::MAX as u64),
            None => None,
        };
        let slot: Option<FxSlot> = match n {
            Some(n) => FxSlot::from_number(n as usize),
            None => None,
        };
        match slot {
            Some(slot) => {
                let on: bool = !ts.fx.settings.enabled[slot.index()];
                let mut text: String = tell(self.tracks[self.active].name.as_str());
                text.append(slot.label());
                text.append(" ");
                text.append(switch_word(on));
                text.append(
                    if ts.fx.bypass {
                        " (die ganze Kette ist noch umgangen - f druecken)"
                    } else {
                        ""
                    },
                );
                text.append(".");
                let r = order(
                    Command::SetFxEnabled { track: self.active, slot, on },
                    text,
                    Effect::Nothing,
                );
                proof {
                    let wanted = self.effecting(Some(arg->0@), *ts);
                    assert(r@.message->0 =~= wanted.message->0);
                }
                r
            },
            None => say(explain("x <1-5>  (1 Hochpass, 2 EQ, 3 Kompressor, 4 Delay, 5 Hall)")),
        }
    }

    /// `v <name>`: load a ready-made chain.
    fn fx_preset(&self, arg: Option<&String>) -> (r: Reply)
        requires
            self.wf(),
        ensures
            r@ == self.presetting(
                match arg {
                    Some(word) => Some(word@),
                    None => None,
                },
            ),
    {
        let preset: Option<FxPreset> = match arg {
            Some(word) => FxPreset::parse(word.as_str()),
            None => None,
        };
        match preset {
            Some(preset) => {
                let mut text: String = tell(self.tracks[self.active].name.as_str());
                text.append("Preset ");
                push_quoted(&mut text, preset.label());
                text.append(" geladen.");
                let r = order(
                    Command::LoadFxPreset { track: self.active, preset },
                    text,
                    Effect::Nothing,
                );
                assert(r@.message->0 =~= self.presetting(Some(arg->0@)).message->0);
                r
            },
            None => say(explain("v <trocken|stimme|gitarre>")),
        }
    }

    /// `d <notenwert>`: the delay is tempo-synchronous, so what it takes is a note value.
    fn fx_delay_note(&self, arg: Option<&String>) -> (r: Reply)
        requires
            self.wf(),
        ensures
            r@ == self.delaying(
                match arg {
                    Some(word) => Some(word@),
                    None => None,
                },
            ),
    {
        let note: Option<DelayNote> = match arg {
            Some(word) => DelayNote::parse(word.as_str()),
            None => None,
        };
        match note {
            Some(note) => {
                let mut text: String = tell(self.tracks[self.active].name.as_str());
                text.append("Delay auf ");
                text.append(note.label());
                text.append(" (aus dem Tempo gerechnet).");
                let r = order(
                    Command::SetFxParam { track: self.active, param: FxParam::DelayNote(note) },
                    text,
                    Effect::Nothing,
                );
                assert(r@.message->0 =~= self.delaying(Some(arg->0@)).message->0);
                r
            },
            None => say(explain("d <1/4|1/8.|1/8|1/8T>")),
        }
    }

    /// Parse a 1-based layer number against what the engine says exists.
    fn layer_index(&self, arg: Option<&String>, layers: u8, call: &str) -> (r: Result<usize, String>)
        requires
            self.wf(),
        ensures
            match layer_choice(
                match arg {
                    Some(word) => Some(word@),
                    None => None,
                },
                layers,
                self.name(),
                call@,
            ) {
                Ok(layer) => r matches Ok(n) && n == layer && layer < layers,
                Err(text) => r matches Err(e) && e@ == text,
            },
    {
        let n: Option<u64> = match arg {
            Some(word) => parse_unsigned(word.as_str(), usize::MAX as u64),
            None => None,
        };
        match n {
            None => Err(explain(call)),
            Some(n) => {
                if n == 0 || n > layers as u64 {
                    let mut text = String::new();
                    push_quoted(&mut text, self.tracks[self.active].name.as_str());
                    if layers == 0 {
                        text.append(" hat keine Ebenen.");
                        assert(text@ =~= quoted(self.name()) + " hat keine Ebenen."@);
                    } else {
                        text.append(" hat die Ebenen 1 bis ");
                        push_decimal(&mut text, layers as u64);
                        text.append(".");
                        assert(text@ =~= quoted(self.name()) + " hat die Ebenen 1 bis "@ + decimal(
                            layers as nat,
                        ) + "."@);
                    }
                    Err(text)
                } else {
                    Ok(n as usize - 1)
                }
            },
        }
    }

    /// `e <nr>`: one layer silent or audible.
    fn layer_mute(&self, arg: Option<&String>, ts: &TrackStatus) -> (r: Reply)
        requires
            self.wf(),
        ensures
            r@ == self.muting(
                match arg {
                    Some(word) => Some(word@),
                    None => None,
                },
                *ts,
            ),
    {
        match self.layer_index(arg, ts.layers, "e <nr>  (Ebene stumm/laut)") {
            Err(text) => say(text),
            Ok(layer) => {
                let muted: bool = !is_muted(ts.muted_mask, layer);
                let mut text: String = tell(self.tracks[self.active].name.as_str());
                text.append("Ebene ");
                push_decimal(&mut text, layer as u64 + 1);
                text.append(" ");
                text.append(
                    if muted {
                        "stumm"
                    } else {
                        "wieder hoerbar"
                    },
                );
                text.append(".");
                let r = order(
                    Command::SetLayerMute { track: self.active, layer, muted },
                    text,
                    Effect::Nothing,
                );
                assert(r@.message->0 =~= self.muting(Some(arg->0@), *ts).message->0);
                r
            },
        }
    }

    /// `w <nr>`: one layer gone.
    fn layer_remove(&self, arg: Option<&String>, ts: &TrackStatus) -> (r: Reply)
        requires
            self.wf(),
        ensures
            r@ == self.removing(
                match arg {
                    Some(word) => Some(word@),
                    None => None,
                },
                *ts,
            ),
    {
        match self.layer_index(arg, ts.layers, "w <nr>  (Ebene weg)") {
            Err(text) => say(text),
            Ok(layer) => {
                let mut text: String = tell(self.tracks[self.active].name.as_str());
                text.append("Ebene ");
                push_decimal(&mut text, layer as u64 + 1);
                text.append(" entfernt.");
                let r = order(
                    Command::RemoveLayer { track: self.active, layer },
                    text,
                    Effect::DropGain(layer),
                );
                assert(r@.message->0 =~= self.removing(Some(arg->0@), *ts).message->0);
                r
            },
        }
    }

    /// `l <nr> <wert>`: the gain of one layer.
    fn layer_gain(&self, arg: Option<&String>, gain: Option<Single>, ts: &TrackStatus) -> (r: Reply)
        requires
            self.wf(),
        ensures
            r@ == self.gaining(
                match arg {
                    Some(word) => Some(word@),
                    None => None,
                },
                gain,
                *ts,
            ),
    {
        let call = "l <nr> <wert>  (Lautstaerke einer Ebene, 0.0 bis 4.0)";
        match self.layer_index(arg, ts.layers, call) {
            Err(text) => say(text),
            Ok(layer) => match gain {
                None => say(explain(call)),
                Some(gain) => {
                    if !gain.within(Single { bits: 0 }, Single { bits: FOUR }) {
                        return say(
                            "Die Lautstaerke muss zwischen 0.0 und 4.0 liegen.".to_owned(),
                        );
                    }
                    let mut text: String = tell(self.tracks[self.active].name.as_str());
                    text.append("Ebene ");
                    push_decimal(&mut text, layer as u64 + 1);
                    text.append(" auf ");
                    push_hundredths(&mut text, gain);
                    text.append(".");
                    let r = order(
                        Command::SetLayerGain { track: self.active, layer, gain },
                        text,
                        Effect::SetGain(layer, gain),
                    );
                    assert(r@.message->0 =~= self.gaining(
                        Some(arg->0@),
                        Some(gain),
                        *ts,
                    ).message->0);
                    r
                },
            },
        }
    }

    fn retime(&self, bpm: Bpm, shown: &str, signature: TimeSignature) -> (r: Reply)
        requires
            self.wf(),
        ensures
            r@ == self.retiming(bpm, shown@, signature),
    {
        match regrid(
            &self.sched.timeline,
            bpm,
            shown,
            signature,
            self.sched.bars,
            self.latency,
        ) {
            Err(text) => say(text),
            Ok((timeline, layer_capacity)) => {
                let mut text = String::new();
                text.append("Tempo ");
                text.append(shown);
                text.append(" BPM, ");
                push_decimal(&mut text, signature.beats_per_bar as u64);
                text.append("/");
                push_decimal(&mut text, signature.beat_unit as u64);
                text.append(".");
                let r = order(
                    Command::SetTempo { bpm, signature, layer_capacity },
                    text,
                    Effect::Retime { timeline, layer_capacity },
                );
                assert(r@.message->0 =~= self.retiming(bpm, shown@, signature).message->0);
                r
            },
        }
    }

    /// `t <bpm> [schlaege_pro_takt] [zaehlzeit]`: only while nothing is recorded.
    fn set_tempo(
        &self,
        tempo: &Option<Tempo>,
        beats: Option<&String>,
        unit: Option<&String>,
        busy: bool,
    ) -> (r: Reply)
        requires
            self.wf(),
        ensures
            r@ == self.tempoing(
                tempo_model(*tempo),
                match beats {
                    Some(word) => Some(word@),
                    None => None,
                },
                match unit {
                    Some(word) => Some(word@),
                    None => None,
                },
                busy,
            ),
    {
        if busy {
            return say(
                "Tempo laesst sich nur aendern, wenn alle Tracks leer sind (erst a).".to_owned(),
            );
        }
        match tempo {
            None => say(explain("t <bpm> [schlaege_pro_takt] [zaehlzeit]")),
            Some(tempo) => {
                let old: TimeSignature = self.sched.timeline.signature();
                let beats_per_bar: Option<u32> = read_or(beats, old.beats_per_bar);
                let beat_unit: Option<u32> = read_or(unit, old.beat_unit);
                match beats_per_bar {
                    None => say("Schlaege pro Takt muss eine ganze Zahl sein.".to_owned()),
                    Some(beats_per_bar) => match beat_unit {
                        None => say("Zaehlzeit muss eine ganze Zahl sein.".to_owned()),
                        Some(beat_unit) => self.retime(
                            tempo.bpm,
                            tempo.shown.as_str(),
                            TimeSignature::new(beats_per_bar, beat_unit),
                        ),
                    },
                }
            },
        }
    }
}

fn read_or(arg: Option<&String>, otherwise: u32) -> (r: Option<u32>)
    ensures
        r == number_or(
            match arg {
                Some(word) => Some(word@),
                None => None,
            },
            otherwise,
        ),
{
    match arg {
        Some(word) => match parse_unsigned(word.as_str(), 0xffff_ffff) {
            Some(n) => Some(n as u32),
            None => None,
        },
        None => Some(otherwise),
    }
}

/// What the newest snapshot shows of one track. Without a snapshot every track is a fresh one.
pub open spec fn track_seen(last: Option<(Status, u64)>, track: int, ts: TrackStatus) -> bool {
    match last {
        Some((status, _)) => if track < status.shown().len() {
            ts == status.shown()[track]
        } else {
            ts.fresh()
        },
        None => ts.fresh(),
    }
}

/// Where the loop of one track begins and how long it is, as the newest snapshot shows it.
pub open spec fn loop_seen(last: Option<(Status, u64)>, track: int) -> (u64, u64) {
    match last {
        Some((status, _)) => if track < status.shown().len() {
            (status.shown()[track].origin, status.shown()[track].loop_len)
        } else {
            (0, 0)
        },
        None => (0, 0),
    }
}

/// Whether the newest snapshot shows the metronome sounding. It starts that way.
pub open spec fn click_seen(last: Option<(Status, u64)>) -> bool {
    match last {
        Some((status, _)) => status.click,
        None => true,
    }
}

/// Whether the newest snapshot shows a track that holds or does something.
pub open spec fn busy_seen(last: Option<(Status, u64)>) -> bool {
    match last {
        Some((status, _)) => exists|i: int|
            0 <= i < status.shown().len() && status.shown()[i].state != TrackState::Empty,
        None => false,
    }
}

/// The gains of a track with that of one layer set. A list that is too short is filled up with ones.
pub open spec fn gains_with(gains: Seq<Single>, layer: usize, gain: Single) -> Seq<Single> {
    Seq::new(
        if gains.len() > layer {
            gains.len()
        } else {
            (layer + 1) as nat
        },
        |i: int|
            if i == layer {
                gain
            } else if i < gains.len() {
                gains[i]
            } else {
                Single { bits: UNITY }
            },
    )
}

/// The gains of one track after a change, where `active` is the selected track.
pub open spec fn gains_after(gains: Seq<Single>, track: int, active: int, effect: Effect) -> Seq<
    Single,
> {
    match effect {
        Effect::ForgetGains(t) => if t == track {
            Seq::empty()
        } else {
            gains
        },
        Effect::ForgetAll => Seq::empty(),
        Effect::DropGain(layer) => if track == active && layer < gains.len() {
            gains.remove(layer as int)
        } else {
            gains
        },
        Effect::SetGain(layer, gain) => if track == active {
            gains_with(gains, layer, gain)
        } else {
            gains
        },
        _ => gains,
    }
}

/// Whether an answer has been carried out: its commands sent, its sentence shown, its change made.
/// Whether every command found room is up to the audio thread; if not, the program ends.
pub open spec fn carried_out(before: Control, after: Control, answer: Answer, sent: bool) -> bool {
    &&& sent ==> after.cmd.sent() == before.cmd.sent() + answer.commands
    &&& all_offered(before.cmd, after.cmd, answer.commands, sent)
    &&& after.running == (before.running && sent && !(answer.effect is Quit))
    &&& after.message@ == (match answer.message {
        Some(text) => text,
        None => before.message@,
    })
    &&& after.active == (match answer.effect {
        Effect::Select(track) => track,
        Effect::ForgetAll => 0,
        _ => before.active,
    })
    &&& after.latency == before.latency
    &&& after.quantize == before.quantize
    &&& match answer.effect {
        Effect::Retime { timeline, layer_capacity } => {
            &&& after.sched == (Scheduler { timeline, ..before.sched })
            &&& after.layer_len == layer_capacity
        },
        _ => after.sched == before.sched && after.layer_len == before.layer_len,
    }
    &&& after.tracks@.len() == before.tracks@.len()
    &&& forall|t: int|
        0 <= t < before.tracks@.len() ==> {
            let track = #[trigger] after.tracks@[t];
            &&& track.name@ == before.tracks@[t].name@
            &&& track.channel == before.tracks@[t].channel
            &&& track.gains@ == gains_after(
                before.tracks@[t].gains@,
                t,
                before.active as int,
                answer.effect,
            )
        }
}

/// An effect only names tracks and gains that exist.
pub open spec fn sound(control: Control, effect: Effect) -> bool {
    match effect {
        Effect::Select(track) => track < control.tracks@.len(),
        Effect::ForgetGains(track) => track < control.tracks@.len(),
        Effect::SetGain(layer, gain) => layer < 256 && is_layer_gain(gain),
        _ => true,
    }
}

impl Control {
    /// What a line of words means. `gain` is the third word and `tempo` the second one, read as a
    /// number where it is one.
    pub fn answer(
        &self,
        line: &Vec<String>,
        gain: Option<Single>,
        tempo: &Option<Tempo>,
        est: u64,
        ts: &TrackStatus,
        click: bool,
        busy: bool,
    ) -> (r: Reply)
        requires
            self.wf(),
            self.plannable(est, ts.origin, ts.loop_len),
        ensures
            r@ == self.meaning(texts(line@), gain, tempo_model(*tempo), est, *ts, click, busy),
            sound(*self, r.effect),
    {
        let ghost typed = texts(line@);
        if line.len() == 0 {
            let r = Reply { commands: Vec::new(), message: None, effect: Effect::Nothing };
            assert(r@ =~= (Answer {
                commands: Seq::empty(),
                message: None,
                effect: Effect::Nothing,
            }));
            return r;
        }
        let track: usize = self.active;
        let name: &str = self.tracks[track].name.as_str();
        let key: &str = line[0].as_str();
        assert(typed[0] == key@);
        let first: Option<&String> = if line.len() > 1 {
            Some(&line[1])
        } else {
            None
        };
        let second: Option<&String> = if line.len() > 2 {
            Some(&line[2])
        } else {
            None
        };
        let third: Option<&String> = if line.len() > 3 {
            Some(&line[3])
        } else {
            None
        };
        assert(word_at(typed, 1) == (match first {
            Some(word) => Some(word@),
            None => None,
        }));
        assert(word_at(typed, 2) == (match second {
            Some(word) => Some(word@),
            None => None,
        }));
        assert(word_at(typed, 3) == (match third {
            Some(word) => Some(word@),
            None => None,
        }));
        if key.unicode_len() == 1 {
            let c: char = key.get_char(0);
            if '0' <= c && c <= '9' {
                return self.select(c as u8 - 48);
            }
        }
        if same_text(key, "r") {
            return follow(
                self.sched.record_on(self.quantize, track, name, est),
                Effect::ForgetGains(track),
            );
        }
        if same_text(key, "o") {
            return follow(
                self.sched.overdub_on(
                    self.quantize,
                    track,
                    name,
                    est,
                    ts.origin,
                    ts.loop_len,
                    ts.layers,
                ),
                Effect::Nothing,
            );
        }
        if same_text(key, "s") {
            return follow(self.sched.stop(track, name, est, ts.state), Effect::Nothing);
        }
        if same_text(key, "p") {
            return follow(self.sched.play(track, name, est), Effect::Nothing);
        }
        if same_text(key, "c") {
            return follow(self.sched.clear_track(track, name, est), Effect::ForgetGains(track));
        }
        if same_text(key, "a") {
            return follow(self.sched.clear_all(est), Effect::ForgetAll);
        }
        if same_text(key, "m") {
            return self.monitor(ts);
        }
        if same_text(key, "k") {
            let mut text = String::new();
            text.append("Klick ");
            text.append(switch_word(!click));
            text.append(".");
            assert(text@ =~= "Klick "@ + switched(!click) + "."@);
            return order(Command::SetClick { on: !click }, text, Effect::Nothing);
        }
        if same_text(key, "f") {
            return self.fx_bypass(ts);
        }
        if same_text(key, "x") {
            return self.fx_slot(first, ts);
        }
        if same_text(key, "v") {
            return self.fx_preset(first);
        }
        if same_text(key, "d") {
            return self.fx_delay_note(first);
        }
        if same_text(key, "e") {
            return self.layer_mute(first, ts);
        }
        if same_text(key, "w") {
            return self.layer_remove(first, ts);
        }
        if same_text(key, "l") {
            return self.layer_gain(first, gain, ts);
        }
        if same_text(key, "t") {
            return self.set_tempo(tempo, second, third, busy);
        }
        if same_text(key, "q") {
            return order(Command::Stop, "Beende.".to_owned(), Effect::Quit);
        }
        let mut text = String::new();
        text.append("Unbekannte Eingabe ");
        push_quoted(&mut text, key);
        text.append(". Tasten: 1-");
        push_decimal(&mut text, self.tracks.len() as u64);
        text.append(" r o s p c a m k e w l t f x v d q");
        assert(text@ =~= "Unbekannte Eingabe "@ + quoted(key@) + ". Tasten: 1-"@ + decimal(
            self.tracks@.len(),
        ) + " r o s p c a m k e w l t f x v d q"@);
        say(text)
    }

    /// Push a list of commands into the queue. One that finds no room is lost, the next one is tried
    /// all the same. The answer is whether every one found room.
    fn send_all(&mut self, commands: &Vec<Command>) -> (sent: bool)
        ensures
            all_offered(old(self).cmd, final(self).cmd, commands@, sent),
            sent ==> final(self).cmd.sent() == old(self).cmd.sent() + commands@,
            *final(self) == (Control { cmd: final(self).cmd, ..*old(self) }),
    {
        let mut sent: bool = true;
        let mut i: usize = 0;
        let ghost mut accepted: Seq<bool> = Seq::empty();
        let ghost start = self.cmd;
        assert(start.sent() + commands@.subrange(0, 0) =~= start.sent());
        assert(start.offered() + commands@.subrange(0, 0) =~= start.offered());
        assert(start.sent() + accepted_of(commands@.subrange(0, 0), accepted) =~= start.sent());
        while i < commands.len()
            invariant
                i <= commands.len(),
                start == old(self).cmd,
                accepted.len() == i,
                self.cmd.queue() == start.queue(),
                sent == !accepted.contains(false),
                sent ==> self.cmd.sent() == start.sent() + commands@.subrange(0, i as int),
                self.cmd.sent() == start.sent() + accepted_of(
                    commands@.subrange(0, i as int),
                    accepted,
                ),
                start.room() >= commands@.len() ==> sent && self.cmd.room() == start.room() - i,
                as_room_allows(accepted, start.room(), self.cmd.room()),
                self.cmd.offered() == start.offered() + commands@.subrange(0, i as int),
                *self == (Control { cmd: self.cmd, ..*old(self) }),
            decreases commands.len() - i,
        {
            let ghost before = commands@.subrange(0, i as int);
            let ghost now = commands@.subrange(0, i + 1);
            let found: bool = self.cmd.send(commands[i]).is_ok();
            if !found {
                sent = false;
            }
            proof {
                let longer = accepted.push(found);
                assert(now.drop_last() =~= before);
                lemma_accepted_same(before, accepted, longer);
                assert(self.cmd.sent() =~= start.sent() + accepted_of(now, longer));
                assert(start.sent() + now =~= (start.sent() + before).push(commands@[i as int]));
                assert(self.cmd.offered() =~= start.offered() + now);
                assert(longer.contains(false) == (accepted.contains(false) || !found)) by {
                    if accepted.contains(false) {
                        let k = choose|k: int| 0 <= k < accepted.len() && accepted[k] == false;
                        assert(longer[k] == false);
                    }
                    if !found {
                        assert(longer[i as int] == false);
                    }
                    if longer.contains(false) {
                        let k = choose|k: int| 0 <= k < longer.len() && longer[k] == false;
                        if k < i {
                            assert(accepted[k] == false);
                        }
                    }
                }
                accepted = longer;
            }
            i = i + 1;
        }
        assert(commands@.subrange(0, i as int) =~= commands@);
        sent
    }

    /// Change the gains of one track.
    fn change_gains(&mut self, track: usize, active: usize, effect: Effect)
        requires
            track < old(self).tracks@.len(),
            sound(*old(self), effect),
        ensures
            final(self).tracks@.len() == old(self).tracks@.len(),
            *final(self) == (Control { tracks: final(self).tracks, ..*old(self) }),
            forall|t: int|
                0 <= t < old(self).tracks@.len() && t != track ==> #[trigger] final(self).tracks@[t]
                    == old(self).tracks@[t],
            final(self).tracks@[track as int].name@ == old(self).tracks@[track as int].name@,
            final(self).tracks@[track as int].channel == old(self).tracks@[track as int].channel,
            final(self).tracks@[track as int].gains@ == gains_after(
                old(self).tracks@[track as int].gains@,
                track as int,
                active as int,
                effect,
            ),
    {
        let ghost before = self.tracks@[track as int].gains@;
        match effect {
            Effect::ForgetGains(t) => {
                if t == track {
                    self.tracks[track].gains = Vec::new();
                    assert(self.tracks@[track as int].gains@ =~= Seq::<Single>::empty());
                }
            },
            Effect::ForgetAll => {
                self.tracks[track].gains = Vec::new();
                assert(self.tracks@[track as int].gains@ =~= Seq::<Single>::empty());
            },
            Effect::DropGain(layer) => {
                if track == active && layer < self.tracks[track].gains.len() {
                    self.tracks[track].gains.remove(layer);
                }
            },
            Effect::SetGain(layer, gain) => {
                if track == active {
                    set_gain(&mut self.tracks[track].gains, layer, gain);
                }
            },
            _ => {},
        }
    }
}

proof fn lemma_accepted_same(commands: Seq<Command>, a: Seq<bool>, b: Seq<bool>)
    requires
        a.len() >= commands.len(),
        b.len() >= commands.len(),
        forall|i: int| 0 <= i < commands.len() ==> a[i] == b[i],
    ensures
        accepted_of(commands, a) == accepted_of(commands, b),
    decreases commands.len(),
{
    if commands.len() > 0 {
        lemma_accepted_same(commands.drop_last(), a, b);
    }
}

/// Set one gain. A list that is too short is filled up with ones first.
pub fn set_gain(gains: &mut Vec<Single>, layer: usize, gain: Single)
    requires
        layer < 256,
    ensures
        final(gains)@ == gains_with(old(gains)@, layer, gain),
{
    let ghost before = gains@;
    while gains.len() <= layer
        invariant
            layer < 256,
            before == old(gains)@,
            gains@.len() >= before.len(),
            gains@.len() <= layer + 1 || gains@.len() == before.len(),
            forall|i: int|
                0 <= i < gains@.len() ==> #[trigger] gains@[i] == (if i < before.len() {
                    before[i]
                } else {
                    Single { bits: UNITY }
                }),
        decreases layer + 1 - gains.len(),
    {
        gains.push(Single { bits: UNITY });
    }
    gains[layer] = gain;
    assert(gains@ =~= gains_with(before, layer, gain));
}

proof fn lemma_changed_gains_are_layer_gains(
    gains: Seq<Single>,
    track: int,
    active: int,
    effect: Effect,
    i: int,
)
    requires
        forall|j: int| 0 <= j < gains.len() ==> is_layer_gain(#[trigger] gains[j]),
        effect matches Effect::SetGain(_, gain) ==> is_layer_gain(gain),
        0 <= i < gains_after(gains, track, active, effect).len(),
    ensures
        is_layer_gain(gains_after(gains, track, active, effect)[i]),
{
    assert(is_layer_gain(Single { bits: UNITY }));
    match effect {
        Effect::DropGain(layer) => {
            if track == active && layer < gains.len() {
                if i < layer {
                    assert(gains.remove(layer as int)[i] == gains[i]);
                } else {
                    assert(gains.remove(layer as int)[i] == gains[i + 1]);
                }
            }
        },
        _ => {},
    }
}

impl Control {
    /// Carry an answer out. The result is whether every command found room in the queue.
    fn carry_out(&mut self, reply: Reply) -> (sent: bool)
        requires
            old(self).wf(),
            sound(*old(self), reply.effect),
        ensures
            final(self).wf(),
            carried_out(*old(self), *final(self), reply@, sent),
    {
        let sent: bool = self.send_all(&reply.commands);
        let active: usize = self.active;
        let ghost start = *old(self);
        let mut track: usize = 0;
        while track < self.tracks.len()
            invariant
                start == *old(self),
                start.wf(),
                sound(start, reply.effect),
                active == start.active,
                track <= self.tracks.len(),
                self.tracks@.len() == start.tracks@.len(),
                sent ==> self.cmd.sent() == start.cmd.sent() + reply.commands@,
                all_offered(start.cmd, self.cmd, reply.commands@, sent),
                *self == (Control { cmd: self.cmd, tracks: self.tracks, ..start }),
                forall|t: int|
                    track <= t < start.tracks@.len() ==> #[trigger] self.tracks@[t]
                        == start.tracks@[t],
                forall|t: int|
                    0 <= t < track ==> {
                        let now = #[trigger] self.tracks@[t];
                        &&& now.name@ == start.tracks@[t].name@
                        &&& now.channel == start.tracks@[t].channel
                        &&& now.gains@ == gains_after(
                            start.tracks@[t].gains@,
                            t,
                            start.active as int,
                            reply.effect,
                        )
                    },
            decreases self.tracks.len() - track,
        {
            assert(self.tracks@[track as int] == start.tracks@[track as int]);
            self.change_gains(track, active, reply.effect);
            track = track + 1;
        }
        if !sent {
            self.running = false;
        }
        match reply.effect {
            Effect::Select(track) => {
                self.active = track;
            },
            Effect::ForgetAll => {
                self.active = 0;
            },
            Effect::Retime { timeline, layer_capacity } => {
                self.sched.timeline = timeline;
                self.layer_len = layer_capacity;
            },
            Effect::Quit => {
                self.running = false;
            },
            _ => {},
        }
        if let Some(text) = reply.message {
            self.message = text;
        }
        proof {
            assert forall|t: int, i: int|
                0 <= t < self.tracks@.len() && 0 <= i < self.tracks@[t].gains@.len() implies
                is_layer_gain(#[trigger] self.tracks@[t].gains@[i]) by {
                let before = start.tracks@[t].gains@;
                assert forall|j: int| 0 <= j < before.len() implies is_layer_gain(
                    #[trigger] before[j],
                ) by {
                    assert(is_layer_gain(start.tracks@[t].gains@[j]));
                }
                assert(self.tracks@[t].gains@ == gains_after(
                    before,
                    t,
                    start.active as int,
                    reply.effect,
                ));
                lemma_changed_gains_are_layer_gains(
                    before,
                    t,
                    start.active as int,
                    reply.effect,
                    i,
                );
            }
        }
        sent
    }

    /// Where the audio thread is taken to be.
    pub open spec fn estimate(self, last: Option<(Status, u64)>) -> int {
        match last {
            Some((status, nanos)) => status.pos + samples_in(
                nanos as int,
                self.sched.timeline.rate(),
            ),
            None => 0,
        }
    }

    /// One typed line. `last` is the newest snapshot with the nanoseconds that have passed since it
    /// arrived. `gain` is the third word and `tempo` the second one, read as a number where it is
    /// one. The result is whether every command found room in the queue.
    pub fn handle(
        &mut self,
        line: &str,
        gain: Option<Single>,
        tempo: &Option<Tempo>,
        last: Option<(Status, u64)>,
    ) -> (sent: bool)
        requires
            old(self).wf(),
            old(self).estimate(last) <= u64::MAX,
            old(self).plannable(
                old(self).estimate(last) as u64,
                loop_seen(last, old(self).active as int).0,
                loop_seen(last, old(self).active as int).1,
            ),
        ensures
            final(self).wf(),
            exists|ts: TrackStatus|
                {
                    &&& #[trigger] track_seen(last, old(self).active as int, ts)
                    &&& carried_out(
                        *old(self),
                        *final(self),
                        old(self).meaning(
                            words(lower(trimmed(line@))),
                            gain,
                            tempo_model(*tempo),
                            old(self).estimate(last) as u64,
                            ts,
                            click_seen(last),
                            busy_seen(last),
                        ),
                        sent,
                    )
                },
    {
        let lowered: String = to_lowercase(trim(line));
        let typed: Vec<String> = words_of(lowered.as_str());
        let (ts, click, busy): (TrackStatus, bool, bool) = match last {
            Some((status, _)) => (status.track(self.active), status.click, status.any_busy()),
            None => (TrackStatus::default(), true, false),
        };
        let est: u64 = self.sched.estimated_pos(
            match last {
                Some((status, nanos)) => Some((status.pos, nanos)),
                None => None,
            },
        );
        assert(track_seen(last, self.active as int, ts));
        assert((ts.origin, ts.loop_len) == loop_seen(last, self.active as int));
        let reply: Reply = self.answer(&typed, gain, tempo, est, &ts, click, busy);
        self.carry_out(reply)
    }
}

// ---------------------------------------------------------------------------------------------
// Laws
// ---------------------------------------------------------------------------------------------

/// A line without words does nothing.
pub proof fn an_empty_line_does_nothing(
    control: Control,
    gain: Option<Single>,
    tempo: Option<(Bpm, Seq<char>)>,
    est: u64,
    ts: TrackStatus,
    click: bool,
    busy: bool,
)
    ensures
        control.meaning(Seq::empty(), gain, tempo, est, ts, click, busy) == (Answer {
            commands: Seq::empty(),
            message: None,
            effect: Effect::Nothing,
        }),
{
}

/// Whether every command of an answer addresses one track or no track at all.
pub open spec fn addresses(answer: Answer, track: usize) -> bool {
    forall|i: int|
        0 <= i < answer.commands.len() ==> {
            let target = (#[trigger] answer.commands[i]).target();
            target is None || target == Some(track)
        }
}

proof fn lemma_plans_address(control: Control, est: u64, ts: TrackStatus)
    ensures
        ({
            let track = control.active;
            let s = control.sched;
            let grid = control.quantize;
            &&& addresses(planned(s.take_plan(grid, track, est), seq![], Effect::Nothing), track)
            &&& addresses(
                planned(
                    s.layer_plan(grid, track, est, ts.origin, ts.loop_len),
                    seq![],
                    Effect::Nothing,
                ),
                track,
            )
            &&& addresses(planned(s.stop_plan(track, est, ts.state), seq![], Effect::Nothing), track)
            &&& addresses(planned(s.play_plan(track, est), seq![], Effect::Nothing), track)
            &&& addresses(planned(s.clear_plan(track, est), seq![], Effect::Nothing), track)
            &&& addresses(planned(s.clear_all_plan(est), seq![], Effect::Nothing), track)
        }),
{
}

proof fn lemma_layer_keys_address(
    control: Control,
    arg: Option<Seq<char>>,
    gain: Option<Single>,
    ts: TrackStatus,
)
    ensures
        addresses(control.muting(arg, ts), control.active),
        addresses(control.removing(arg, ts), control.active),
        addresses(control.gaining(arg, gain, ts), control.active),
{
}

proof fn lemma_effect_keys_address(control: Control, arg: Option<Seq<char>>, ts: TrackStatus)
    ensures
        addresses(control.effecting(arg, ts), control.active),
        addresses(control.presetting(arg), control.active),
        addresses(control.delaying(arg), control.active),
        addresses(control.bypassing(ts), control.active),
        addresses(control.monitoring(ts), control.active),
{
}

proof fn lemma_tempo_key_addresses(
    control: Control,
    tempo: Option<(Bpm, Seq<char>)>,
    beats: Option<Seq<char>>,
    unit: Option<Seq<char>>,
    busy: bool,
)
    ensures
        addresses(control.tempoing(tempo, beats, unit, busy), control.active),
{
}

/// Every command a line sends addresses the selected track or no track at all.
pub proof fn keys_act_on_the_selected_track(
    control: Control,
    line: Seq<Seq<char>>,
    gain: Option<Single>,
    tempo: Option<(Bpm, Seq<char>)>,
    est: u64,
    ts: TrackStatus,
    click: bool,
    busy: bool,
)
    ensures
        addresses(control.meaning(line, gain, tempo, est, ts, click, busy), control.active),
{
    if line.len() > 0 {
        let key = line[0];
        let answer = control.meaning(line, gain, tempo, est, ts, click, busy);
        if key.len() == 1 && is_digit(key[0]) {
            assert(answer == control.selecting((key[0] as nat - 48) as nat));
        } else if key == "r"@ || key == "o"@ || key == "s"@ || key == "p"@ || key == "c"@ || key
            == "a"@ {
            lemma_plans_address(control, est, ts);
        } else if key == "m"@ || key == "f"@ || key == "x"@ || key == "v"@ || key == "d"@ {
            lemma_effect_keys_address(control, word_at(line, 1), ts);
        } else if key == "e"@ || key == "w"@ || key == "l"@ {
            lemma_layer_keys_address(control, word_at(line, 1), gain, ts);
        } else if key == "t"@ {
            lemma_tempo_key_addresses(control, tempo, word_at(line, 2), word_at(line, 3), busy);
        }
    }
}

/// A tempo is only changed while every track is empty.
pub proof fn a_tempo_is_refused_while_a_track_holds_something(
    control: Control,
    tempo: Option<(Bpm, Seq<char>)>,
    beats: Option<Seq<char>>,
    unit: Option<Seq<char>>,
)
    ensures
        control.tempoing(tempo, beats, unit, true).commands.len() == 0,
        control.tempoing(tempo, beats, unit, true).effect == Effect::Nothing,
{
}

/// A resolved list has between one and the largest number of tracks, each on an input the device
/// has and no two with the same name.
pub proof fn resolved_tracks_fit_the_device(
    specs: Seq<Seq<char>>,
    in_channels: int,
    i: int,
    j: int,
)
    requires
        in_channels >= 0,
        tracks_of(specs, in_channels) is Ok,
        0 <= i < tracks_of(specs, in_channels)->Ok_0.len(),
        0 <= j < i,
    ensures
        ({
            let defs = tracks_of(specs, in_channels)->Ok_0;
            &&& defs.len() <= MAX_TRACKS
            &&& defs[i].channel < in_channels
            &&& defs[i].name != defs[j].name
        }),
{
    let defs = tracks_of(specs, in_channels)->Ok_0;
    if defs[i].channel >= in_channels {
        let k = lemma_first_unheard(defs, in_channels, i);
        assert(first_unheard(defs, in_channels, k));
    }
    if defs[i].name == defs[j].name {
        assert(named_before(defs, i));
        let k = lemma_first_repeated(defs, i);
        assert(first_repeated(defs, k));
    }
}

proof fn lemma_first_unheard(defs: Seq<DefModel>, in_channels: int, i: int) -> (k: int)
    requires
        0 <= i < defs.len(),
        defs[i].channel >= in_channels,
    ensures
        first_unheard(defs, in_channels, k),
    decreases i,
{
    if exists|j: int| 0 <= j < i && (#[trigger] defs[j]).channel >= in_channels {
        let j = choose|j: int| 0 <= j < i && (#[trigger] defs[j]).channel >= in_channels;
        lemma_first_unheard(defs, in_channels, j)
    } else {
        i
    }
}

proof fn lemma_first_repeated(defs: Seq<DefModel>, i: int) -> (k: int)
    requires
        0 <= i < defs.len(),
        named_before(defs, i),
    ensures
        first_repeated(defs, k),
    decreases i,
{
    if exists|j: int| 0 <= j < i && #[trigger] named_before(defs, j) {
        let j = choose|j: int| 0 <= j < i && #[trigger] named_before(defs, j);
        lemma_first_repeated(defs, j)
    } else {
        i
    }
}

/// Whoever asks for tracks gets some: a list that is accepted is never empty.
pub proof fn some_tracks_are_resolved(specs: Seq<Seq<char>>, in_channels: int)
    requires
        tracks_of(specs, in_channels) is Ok,
    ensures
        0 < tracks_of(specs, in_channels)->Ok_0.len() <= MAX_TRACKS,
{
    if specs.len() > 0 {
        lemma_args_read_len(specs, specs.len());
    }
}

proof fn lemma_args_read_len(specs: Seq<Seq<char>>, n: nat)
    requires
        args_read(specs, n) is Ok,
    ensures
        args_read(specs, n)->Ok_0.len() == n,
    decreases n,
{
    if n > 0 {
        lemma_args_read_len(specs, (n - 1) as nat);
    }
}

proof fn lemma_keys_differ()
    ensures
        "r"@ == seq!['r'],
        "o"@ == seq!['o'],
        "s"@ == seq!['s'],
        "p"@ == seq!['p'],
        "c"@ == seq!['c'],
        "a"@ == seq!['a'],
        "m"@ == seq!['m'],
        "k"@ == seq!['k'],
        "f"@ == seq!['f'],
        "x"@ == seq!['x'],
        "v"@ == seq!['v'],
        "d"@ == seq!['d'],
        "e"@ == seq!['e'],
        "w"@ == seq!['w'],
        "l"@ == seq!['l'],
        "t"@ == seq!['t'],
        "q"@ == seq!['q'],
{
    reveal_strlit("r");
    reveal_strlit("o");
    reveal_strlit("s");
    reveal_strlit("p");
    reveal_strlit("c");
    reveal_strlit("a");
    reveal_strlit("m");
    reveal_strlit("k");
    reveal_strlit("f");
    reveal_strlit("x");
    reveal_strlit("v");
    reveal_strlit("d");
    reveal_strlit("e");
    reveal_strlit("w");
    reveal_strlit("l");
    reveal_strlit("t");
    reveal_strlit("q");
    assert("r"@ =~= seq!['r']);
    assert("o"@ =~= seq!['o']);
    assert("s"@ =~= seq!['s']);
    assert("p"@ =~= seq!['p']);
    assert("c"@ =~= seq!['c']);
    assert("a"@ =~= seq!['a']);
    assert("m"@ =~= seq!['m']);
    assert("k"@ =~= seq!['k']);
    assert("f"@ =~= seq!['f']);
    assert("x"@ =~= seq!['x']);
    assert("v"@ =~= seq!['v']);
    assert("d"@ =~= seq!['d']);
    assert("e"@ =~= seq!['e']);
    assert("w"@ =~= seq!['w']);
    assert("l"@ =~= seq!['l']);
    assert("t"@ =~= seq!['t']);
    assert("q"@ =~= seq!['q']);
}

/// The keys of the transport: r records a new loop, o lays a further layer, p plays, c clears the
/// selected track and a all of them, and s closes a take, cancels an armed one or silences the
/// track.
pub proof fn transport_keys_do_what_they_are_for(
    control: Control,
    line: Seq<Seq<char>>,
    gain: Option<Single>,
    tempo: Option<(Bpm, Seq<char>)>,
    est: u64,
    ts: TrackStatus,
    click: bool,
    busy: bool,
)
    requires
        line.len() > 0,
        line[0].len() == 1,
    ensures
        ({
            let key = line[0][0];
            let answer = control.meaning(line, gain, tempo, est, ts, click, busy);
            let sent = answer.commands;
            let recording = ts.state == TrackState::Recording || ts.state == TrackState::Overdub;
            &&& key == 'r' ==> sent.len() == 3 && sent[0] is StartRecord && sent[1] is StopRecord
                && sent[2] is StartPlay && answer.effect == Effect::ForgetGains(control.active)
            &&& key == 'o' ==> sent.len() == 3 && sent[0] is StartOverdub && sent[1] is StopRecord
                && sent[2] is StartPlay && answer.effect == Effect::Nothing
            &&& key == 'p' ==> sent.len() == 1 && sent[0] is StartPlay && answer.effect
                == Effect::Nothing
            &&& key == 'c' ==> sent.len() == 1 && sent[0] is ClearTrack && answer.effect
                == Effect::ForgetGains(control.active)
            &&& key == 'a' ==> sent.len() == 1 && sent[0] is ClearAll && answer.effect
                == Effect::ForgetAll
            &&& key == 's' && recording ==> sent.len() == 2 && sent[0] is StopRecord && sent[1]
                is StartPlay
            &&& key == 's' && ts.state == TrackState::Armed ==> sent.len() == 1 && sent[0]
                is ClearTrack
            &&& key == 's' && !recording && ts.state != TrackState::Armed ==> sent.len() == 1
                && sent[0] is StopPlay
            &&& key == 's' ==> answer.effect == Effect::Nothing
            &&& key == 'q' ==> sent == seq![Command::Stop] && answer.effect == Effect::Quit
        }),
{
    lemma_keys_differ();
    assert(line[0] =~= seq![line[0][0]]);
}

/// The switches flip what the newest snapshot shows: m the monitoring, k the metronome, f the bypass
/// of the effects. A digit selects the track of that number, if there is one.
pub proof fn switch_keys_flip_what_is_shown(
    control: Control,
    line: Seq<Seq<char>>,
    gain: Option<Single>,
    tempo: Option<(Bpm, Seq<char>)>,
    est: u64,
    ts: TrackStatus,
    click: bool,
    busy: bool,
)
    requires
        line.len() > 0,
        line[0].len() == 1,
    ensures
        ({
            let key = line[0][0];
            let answer = control.meaning(line, gain, tempo, est, ts, click, busy);
            let track = control.active;
            let number = key as int - '0' as int;
            &&& key == 'm' ==> answer.commands
                == seq![Command::SetMonitor { track, on: !ts.monitor }]
            &&& key == 'k' ==> answer.commands == seq![Command::SetClick { on: !click }]
            &&& key == 'f' ==> answer.commands
                == seq![Command::SetFxBypass { track, on: !ts.fx.bypass }]
            &&& key == 'm' || key == 'k' || key == 'f' ==> answer.effect == Effect::Nothing
            &&& '0' <= key <= '9' ==> answer.commands.len() == 0
            &&& '1' <= key <= '9' && number <= control.tracks@.len() ==> answer.effect
                == Effect::Select((number - 1) as usize)
            &&& '0' <= key <= '9' && (number == 0 || number > control.tracks@.len())
                ==> answer.effect == Effect::Nothing
        }),
{
    lemma_keys_differ();
    assert(line[0] =~= seq![line[0][0]]);
}

/// The keys for one layer act on the one-based layer they name: e flips its mute, w removes it, l
/// sets its gain. A layer the engine does not report, or a gain out of range, sends nothing.
pub proof fn layer_keys_act_on_the_layer_they_name(
    control: Control,
    line: Seq<Seq<char>>,
    n: nat,
    gain: Option<Single>,
    tempo: Option<(Bpm, Seq<char>)>,
    est: u64,
    ts: TrackStatus,
    click: bool,
    busy: bool,
)
    requires
        line.len() > 1,
        line[0].len() == 1,
        unsigned_value(line[1], usize::MAX as nat) == Some(n),
    ensures
        ({
            let key = line[0][0];
            let answer = control.meaning(line, gain, tempo, est, ts, click, busy);
            let track = control.active;
            let layer = (n - 1) as usize;
            let exists_one = 1 <= n <= ts.layers;
            &&& key == 'e' && exists_one ==> answer.commands == seq![
                Command::SetLayerMute {
                    track,
                    layer,
                    muted: !mask_bit(ts.muted_mask as nat, layer as nat),
                },
            ] && answer.effect == Effect::Nothing
            &&& key == 'w' && exists_one ==> answer.commands
                == seq![Command::RemoveLayer { track, layer }] && answer.effect
                == Effect::DropGain(layer)
            &&& key == 'l' && exists_one ==> (gain matches Some(g) ==> if (Single { bits: 0 }).le(
                g,
            ) && g.le(Single { bits: 0x4080_0000 }) {
                answer.commands == seq![Command::SetLayerGain { track, layer, gain: g }]
                    && answer.effect == Effect::SetGain(layer, g)
            } else {
                answer.commands.len() == 0 && answer.effect == Effect::Nothing
            })
            &&& key == 'l' && gain is None ==> answer.commands.len() == 0 && answer.effect
                == Effect::Nothing
            &&& (key == 'e' || key == 'w' || key == 'l') && !exists_one ==> answer.commands.len()
                == 0 && answer.effect == Effect::Nothing
        }),
{
    lemma_keys_differ();
    assert(line[0] =~= seq![line[0][0]]);
}

/// The keys for the effects: x flips the effect of that number in the order of the signal, v loads
/// the preset and d the note value that the word names. What names none sends nothing.
pub proof fn effect_keys_act_on_what_they_name(
    control: Control,
    line: Seq<Seq<char>>,
    gain: Option<Single>,
    tempo: Option<(Bpm, Seq<char>)>,
    est: u64,
    ts: TrackStatus,
    click: bool,
    busy: bool,
    slot: FxSlot,
)
    requires
        line.len() > 1,
        line[0].len() == 1,
    ensures
        ({
            let key = line[0][0];
            let answer = control.meaning(line, gain, tempo, est, ts, click, busy);
            let track = control.active;
            let word = lower(trimmed(line[1]));
            &&& key == 'x' && unsigned_value(line[1], usize::MAX as nat) == Some(
                (slot.place() + 1) as nat,
            ) ==> answer.commands == seq![
                Command::SetFxEnabled {
                    track,
                    slot,
                    on: !ts.fx.settings@.enabled[slot.place()],
                },
            ]
            &&& key == 'v' ==> (preset_of_word(word) matches Some(preset) ==> answer.commands
                == seq![Command::LoadFxPreset { track, preset }])
            &&& key == 'v' && preset_of_word(word) is None ==> answer.commands.len() == 0
            &&& key == 'd' ==> (note_of_word(word) matches Some(note) ==> answer.commands
                == seq![Command::SetFxParam { track, param: FxParam::DelayNote(note) }])
            &&& key == 'd' && note_of_word(word) is None ==> answer.commands.len() == 0
            &&& key == 'x' || key == 'v' || key == 'd' ==> answer.effect == Effect::Nothing
        }),
{
    lemma_keys_differ();
    assert(line[0] =~= seq![line[0][0]]);
}

/// The tempo key sends the tempo and the metre that were typed; a part of the metre that was not
/// typed stays as it is. It sends at most that one command, and none while a track holds something.
pub proof fn the_tempo_key_keeps_what_was_not_typed(
    control: Control,
    line: Seq<Seq<char>>,
    gain: Option<Single>,
    tempo: Option<(Bpm, Seq<char>)>,
    est: u64,
    ts: TrackStatus,
    click: bool,
    busy: bool,
)
    requires
        line.len() > 0,
        line[0] == seq!['t'],
    ensures
        ({
            let answer = control.meaning(line, gain, tempo, est, ts, click, busy);
            let metre = control.sched.timeline.metre();
            &&& busy || tempo is None ==> answer.commands.len() == 0 && answer.effect
                == Effect::Nothing
            &&& answer.commands.len() == 0 || (answer.commands.len() == 1
                && answer.commands[0] is SetTempo)
            &&& answer.commands.len() == 1 ==> {
                &&& answer.commands[0] matches Command::SetTempo { bpm, signature, layer_capacity }
                &&& tempo matches Some((asked, _))
                &&& bpm == asked
                &&& line.len() <= 2 ==> signature.beats_per_bar == metre.beats_per_bar
                &&& line.len() <= 3 ==> signature.beat_unit == metre.beat_unit
                &&& line.len() > 2 ==> unsigned_value(line[2], u32::MAX as nat) == Some(
                    signature.beats_per_bar as nat,
                )
                &&& line.len() > 3 ==> unsigned_value(line[3], u32::MAX as nat) == Some(
                    signature.beat_unit as nat,
                )
                &&& answer.effect == (Effect::Retime {
                    timeline: control.sched.timeline.retimed(bpm, signature),
                    layer_capacity,
                })
            }
        }),
{
    lemma_keys_differ();
}

/// The mirror of the gains follows what was sent: a gain that was set is the gain of that layer on
/// the selected track and of no other, a removed layer takes its own gain with it, and a track that
/// is recorded anew or cleared has none.
pub proof fn the_gains_follow_what_was_sent(
    gains: Seq<Single>,
    track: int,
    active: int,
    layer: usize,
    gain: Single,
    i: int,
)
    ensures
        ({
            let set = gains_after(gains, track, active, Effect::SetGain(layer, gain));
            let dropped = gains_after(gains, track, active, Effect::DropGain(layer));
            &&& track != active ==> set == gains && dropped == gains
            &&& track == active ==> set.len() > layer && set.len() >= gains.len()
                && set[layer as int] == gain
            &&& track == active && layer < gains.len() ==> set.len() == gains.len()
            &&& track == active && 0 <= i < gains.len() && i != layer ==> set[i] == gains[i]
            &&& track == active && gains.len() <= i < layer ==> set[i].bits == 0x3f80_0000
            &&& track == active && layer < gains.len() ==> dropped.len() == gains.len() - 1
            &&& track == active && 0 <= i < layer && layer < gains.len() ==> dropped[i] == gains[i]
            &&& track == active && layer <= i < gains.len() - 1 ==> dropped[i] == gains[i + 1]
            &&& track >= 0 && track <= usize::MAX ==> gains_after(
                gains,
                track,
                active,
                Effect::ForgetGains(track as usize),
            ).len() == 0
            &&& track != layer ==> gains_after(gains, track, active, Effect::ForgetGains(layer))
                == gains
            &&& gains_after(gains, track, active, Effect::ForgetAll).len() == 0
        }),
{
}

/// The tracks are those that were asked for, in the order they were asked for. They are accepted
/// exactly where there are not too many, the device has every input and no name comes twice.
pub proof fn tracks_are_resolved_as_asked(specs: Seq<Seq<char>>, in_channels: int, i: int)
    requires
        in_channels > 0,
        0 <= i < specs.len(),
    ensures
        tracks_of(specs, in_channels) matches Ok(defs) ==> defs.len() == specs.len() && track_arg(
            specs[i],
        ) == Ok::<DefModel, Seq<char>>(defs[i]),
        track_arg(specs[i]) is Err ==> tracks_of(specs, in_channels) is Err,
{
    let n = specs.len();
    if args_read(specs, n) is Ok {
        lemma_args_read_each(specs, n, i);
    } else {
        assert(tracks_of(specs, in_channels) is Err);
    }
    if tracks_of(specs, in_channels) is Ok {
        lemma_args_read_len(specs, n);
    }
}

proof fn lemma_args_read_each(specs: Seq<Seq<char>>, n: nat, i: int)
    requires
        args_read(specs, n) is Ok,
        0 <= i < n,
    ensures
        args_read(specs, n)->Ok_0.len() == n,
        track_arg(specs[i]) == Ok::<DefModel, Seq<char>>(args_read(specs, n)->Ok_0[i]),
    decreases n,
{
    lemma_args_read_len(specs, (n - 1) as nat);
    if i < n - 1 {
        lemma_args_read_each(specs, (n - 1) as nat, i);
    }
}

/// A list that fits the device is accepted: not too many tracks, no input the device does not have,
/// no name twice.
pub proof fn a_list_that_fits_is_accepted(defs: Seq<DefModel>, in_channels: int)
    requires
        defs.len() <= MAX_TRACKS,
        forall|i: int| 0 <= i < defs.len() ==> (#[trigger] defs[i]).channel < in_channels,
        forall|i: int, j: int|
            0 <= i < j < defs.len() ==> (#[trigger] defs[i]).name != (#[trigger] defs[j]).name,
    ensures
        defs_error(defs, in_channels) is None,
{
    assert forall|i: int| !first_unheard(defs, in_channels, i) by {}
    assert forall|i: int| !first_repeated(defs, i) by {
        if 0 <= i < defs.len() && named_before(defs, i) {
            let j = choose|j: int| 0 <= j < i && (#[trigger] defs[j]).name == defs[i].name;
            assert(defs[j].name != defs[i].name);
        }
    }
}

/// An argument of a name, a colon and a one-based number names that input; the name may hold colons
/// of its own.
pub proof fn a_track_argument_reads_as_it_is_written(name: Seq<char>, channel: nat)
    requires
        name.len() > 0,
        !is_white_space(name[0]),
        !is_white_space(name.last()),
        1 <= channel <= usize::MAX,
    ensures
        track_arg(name + seq![':'] + decimal(channel)) == Ok::<DefModel, Seq<char>>(
            DefModel { name, channel: channel - 1 },
        ),
{
    let number = decimal(channel);
    let text = name + seq![':'] + number;
    lemma_decimal_digits(channel);
    decimal_reads_back(channel, usize::MAX as nat);
    assert(is_digit(number[0]) && is_digit(number.last()));
    assert(text[0] == name[0]);
    assert(text.last() == number.last());
    trimmed_leaves_words(text);
    trimmed_leaves_words(name);
    trimmed_leaves_words(number);
    the_last_place_is_the_last(text, ':', name.len() as int);
    assert(text[name.len() as int] == ':');
    let at = last_place(text, ':')->0;
    the_last_place_is_the_last(text, ':', at);
    if at > name.len() {
        assert(text[at] == number[at - name.len() - 1]);
    }
    assert(text.subrange(0, at) =~= name);
    assert(text.subrange(at + 1, text.len() as int) =~= number);
}

/// Without arguments there is a track for the voice on the first input, and where the device has a
/// second one a track for the guitar on it.
pub proof fn the_usual_tracks_fit_every_device(in_channels: int)
    requires
        in_channels > 0,
    ensures
        ({
            let r = tracks_of(Seq::empty(), in_channels);
            &&& r matches Ok(defs)
            &&& defs[0].channel == 0
            &&& in_channels == 1 ==> defs.len() == 1
            &&& in_channels >= 2 ==> defs.len() == 2 && defs[1].channel == 1
        }),
{
    reveal_strlit("stimme");
    reveal_strlit("gitarre");
    let defs = usual_tracks(in_channels);
    if in_channels >= 2 {
        assert(defs[0].name.len() != defs[1].name.len());
    }
    a_list_that_fits_is_accepted(defs, in_channels);
}

/// The console goes by the last snapshot: the position runs on from it at the sample rate, the loop
/// is that of the track that is asked for, and the click is as shown.
pub proof fn the_console_goes_by_the_last_snapshot(
    control: Control,
    status: Status,
    nanos: u64,
    track: int,
)
    requires
        control.sched.timeline.rate() >= 0,
        0 <= track < status.shown().len(),
    ensures
        control.estimate(Some((status, 0))) == status.pos,
        control.estimate(Some((status, nanos))) >= status.pos,
        control.estimate(Some((status, nanos))) - status.pos == samples_in(
            nanos as int,
            control.sched.timeline.rate(),
        ),
        control.estimate(None) == 0,
        loop_seen(Some((status, nanos)), track) == (
            status.shown()[track].origin,
            status.shown()[track].loop_len,
        ),
        loop_seen(None, track) == (0u64, 0u64),
        click_seen(Some((status, nanos))) == status.click,
{
    let rate = control.sched.timeline.rate();
    assert(0int * rate == 0) by (nonlinear_arith);
    assert(nanos * rate >= 0) by (nonlinear_arith)
        requires
            rate >= 0,
            nanos >= 0,
    ;
}

} // verus!
