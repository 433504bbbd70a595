//! Which control does what: the mapping of a controller, and a score's mapping laid over it.
use vstd::prelude::*;
use vstd::string::*;
use crate::midi::{MidiId, MidiIdKind};
use crate::schedule::{push_quoted, quoted};
use crate::text::{same_text, texts};

verus! {

/// What a control is bound to, in words: the address of the element, its German name, and the name
/// with the button behaviour or the range.
#[derive(Debug)]
pub struct Binding {
    pub address: String,
    pub label: String,
    pub describe: String,
}

/// A binding, as mathematics.
#[verifier::ext_equal]
pub struct BindingModel {
    pub address: Seq<char>,
    pub label: Seq<char>,
    pub describe: Seq<char>,
}

impl View for Binding {
    type V = BindingModel;

    open spec fn view(&self) -> BindingModel {
        BindingModel {
            address: self.address@,
            label: self.label@,
            describe: self.describe@,
        }
    }
}

impl Binding {
    pub fn copied(&self) -> (r: Self)
        ensures
            r@ == self@,
    {
        Binding {
            address: self.address.as_str().to_owned(),
            label: self.label.as_str().to_owned(),
            describe: self.describe.as_str().to_owned(),
        }
    }

    pub fn is_same(&self, other: &Binding) -> (r: bool)
        ensures
            r == (self@ == other@),
    {
        let r: bool = same_text(self.address.as_str(), other.address.as_str()) && same_text(
            self.label.as_str(),
            other.label.as_str(),
        ) && same_text(self.describe.as_str(), other.describe.as_str());
        assert(r ==> self@ =~= other@);
        r
    }
}

/// One control and what it does.
#[derive(Debug)]
pub struct Bound {
    pub id: MidiId,
    pub binding: Binding,
}

/// One control and what it does, as mathematics.
#[verifier::ext_equal]
pub struct BoundModel {
    pub id: MidiId,
    pub binding: BindingModel,
}

impl View for Bound {
    type V = BoundModel;

    open spec fn view(&self) -> BoundModel {
        BoundModel { id: self.id, binding: self.binding@ }
    }
}

pub open spec fn bound_models(entries: Seq<Bound>) -> Seq<BoundModel> {
    entries.map_values(|e: Bound| e@)
}

/// Where a control stands in the overview: by channel, then pads, knobs and the bend, then by number.
pub open spec fn rank(id: MidiId) -> int {
    (id.channel * 3 + (match id.kind {
        MidiIdKind::Note => 0int,
        MidiIdKind::Cc => 1int,
        MidiIdKind::Bend => 2int,
    })) * 256 + id.number
}

fn rank_of(id: MidiId) -> (r: u32)
    ensures
        r == rank(id),
{
    let kind: u32 = match id.kind {
        MidiIdKind::Note => 0,
        MidiIdKind::Cc => 1,
        MidiIdKind::Bend => 2,
    };
    (id.channel as u32 * 3 + kind) * 256 + id.number as u32
}

proof fn lemma_rank_tells_apart(a: MidiId, b: MidiId)
    ensures
        rank(a) == rank(b) ==> a == b,
{
}

pub open spec fn increasing(entries: Seq<BoundModel>) -> bool {
    forall|i: int, j: int|
        0 <= i < j < entries.len() ==> rank((#[trigger] entries[i]).id) < rank(
            (#[trigger] entries[j]).id,
        )
}

/// What a list of entries says of each control.
pub open spec fn mapped(entries: Seq<BoundModel>) -> Map<MidiId, BindingModel>
    decreases entries.len(),
{
    if entries.len() == 0 {
        Map::empty()
    } else {
        mapped(entries.drop_last()).insert(entries.last().id, entries.last().binding)
    }
}

/// A control stands in the list at most once, and the mapping says of it what stands there.
proof fn lemma_mapped(entries: Seq<BoundModel>)
    requires
        increasing(entries),
    ensures
        mapped(entries).dom().finite(),
        mapped(entries).dom().len() == entries.len(),
        forall|id: MidiId| #[trigger]
            mapped(entries).contains_key(id) ==> exists|i: int|
                0 <= i < entries.len() && (#[trigger] entries[i]).id == id,
        forall|i: int|
            0 <= i < entries.len() ==> {
                &&& mapped(entries).contains_key((#[trigger] entries[i]).id)
                &&& mapped(entries)[entries[i].id] == entries[i].binding
            },
    decreases entries.len(),
{
    if entries.len() > 0 {
        let rest = entries.drop_last();
        let last = entries.last();
        assert forall|i: int, j: int| 0 <= i < j < rest.len() implies rank(
            (#[trigger] rest[i]).id,
        ) < rank((#[trigger] rest[j]).id) by {
            assert(rest[i] == entries[i] && rest[j] == entries[j]);
        }
        lemma_mapped(rest);
        assert forall|i: int| 0 <= i < rest.len() implies (#[trigger] rest[i]).id != last.id by {
            assert(rest[i] == entries[i]);
            assert(rank(entries[i].id) < rank(entries[entries.len() - 1].id));
        }
        assert(!mapped(rest).contains_key(last.id));
        assert(mapped(entries).dom() =~= mapped(rest).dom().insert(last.id));
        assert forall|id: MidiId| #[trigger] mapped(entries).contains_key(id) implies exists|i: int|
            0 <= i < entries.len() && (#[trigger] entries[i]).id == id by {
            if id == last.id {
                assert(entries[entries.len() - 1].id == id);
            } else {
                let i = choose|i: int| 0 <= i < rest.len() && (#[trigger] rest[i]).id == id;
                assert(entries[i].id == id);
            }
        }
        assert forall|i: int| 0 <= i < entries.len() implies {
            &&& mapped(entries).contains_key((#[trigger] entries[i]).id)
            &&& mapped(entries)[entries[i].id] == entries[i].binding
        } by {
            if i < rest.len() {
                assert(rest[i] == entries[i]);
            }
        }
    } else {
        assert(mapped(entries).dom() =~= Set::<MidiId>::empty());
    }
}

/// A list with one entry put in at its place.
proof fn lemma_entry_put_in(entries: Seq<BoundModel>, at: int, entry: BoundModel)
    requires
        increasing(entries),
        0 <= at <= entries.len(),
        forall|i: int| 0 <= i < at ==> rank((#[trigger] entries[i]).id) < rank(entry.id),
        forall|i: int|
            at <= i < entries.len() ==> rank(entry.id) < rank((#[trigger] entries[i]).id),
    ensures
        increasing(entries.insert(at, entry)),
        mapped(entries.insert(at, entry)) == mapped(entries).insert(entry.id, entry.binding),
        !mapped(entries).contains_key(entry.id),
{
    let more = entries.insert(at, entry);
    assert forall|i: int, j: int| 0 <= i < j < more.len() implies rank((#[trigger] more[i]).id)
        < rank((#[trigger] more[j]).id) by {
        let _ = (entries[i], entries[i - 1], entries[j], entries[j - 1]);
    }
    lemma_mapped(entries);
    lemma_mapped(more);
    assert forall|id: MidiId| mapped(more).contains_key(id) <==> #[trigger] mapped(entries).insert(
        entry.id,
        entry.binding,
    ).contains_key(id) by {
        if mapped(more).contains_key(id) {
            let k = choose|k: int| 0 <= k < more.len() && (#[trigger] more[k]).id == id;
            if k < at {
                assert(more[k] == entries[k]);
            } else if k > at {
                assert(more[k] == entries[k - 1]);
            }
        }
        if mapped(entries).contains_key(id) {
            let k = choose|k: int| 0 <= k < entries.len() && (#[trigger] entries[k]).id == id;
            if k < at {
                assert(more[k] == entries[k]);
            } else {
                assert(more[k + 1] == entries[k]);
            }
        }
        assert(more[at] == entry);
    }
    assert forall|id: MidiId| #[trigger] mapped(more).contains_key(id) implies mapped(more)[id]
        == mapped(entries).insert(entry.id, entry.binding)[id] by {
        let k = choose|k: int| 0 <= k < more.len() && (#[trigger] more[k]).id == id;
        if k < at {
            assert(more[k] == entries[k]);
        } else if k > at {
            assert(more[k] == entries[k - 1]);
        }
    }
    assert(mapped(more) =~= mapped(entries).insert(entry.id, entry.binding));
    if mapped(entries).contains_key(entry.id) {
        let k = choose|k: int| 0 <= k < entries.len() && (#[trigger] entries[k]).id == entry.id;
        assert(rank(entries[k].id) == rank(entry.id));
    }
}

/// A list with one entry replaced by another of the same control.
proof fn lemma_entry_replaced(entries: Seq<BoundModel>, at: int, entry: BoundModel)
    requires
        increasing(entries),
        0 <= at < entries.len(),
        entries[at].id == entry.id,
    ensures
        increasing(entries.update(at, entry)),
        mapped(entries.update(at, entry)) == mapped(entries).insert(entry.id, entry.binding),
        mapped(entries).contains_key(entry.id),
        mapped(entries)[entry.id] == entries[at].binding,
{
    let other = entries.update(at, entry);
    assert forall|i: int, j: int| 0 <= i < j < other.len() implies rank((#[trigger] other[i]).id)
        < rank((#[trigger] other[j]).id) by {
        let _ = (entries[i], entries[j]);
    }
    lemma_mapped(entries);
    lemma_mapped(other);
    assert forall|id: MidiId| mapped(other).contains_key(id) <==> #[trigger] mapped(entries).insert(
        entry.id,
        entry.binding,
    ).contains_key(id) by {
        if mapped(other).contains_key(id) {
            let k = choose|k: int| 0 <= k < other.len() && (#[trigger] other[k]).id == id;
            assert(entries[k].id == id);
        }
        if mapped(entries).contains_key(id) {
            let k = choose|k: int| 0 <= k < entries.len() && (#[trigger] entries[k]).id == id;
            assert(other[k].id == id);
        }
    }
    assert forall|id: MidiId| #[trigger] mapped(other).contains_key(id) implies mapped(other)[id]
        == mapped(entries).insert(entry.id, entry.binding)[id] by {
        let k = choose|k: int| 0 <= k < other.len() && (#[trigger] other[k]).id == id;
        if k != at {
            assert(other[k] == entries[k]);
            if entries[k].id == entry.id {
                let _ = (entries[at], entries[k]);
                assert(rank(entries[at].id) == rank(entries[k].id));
            }
        }
    }
    assert(mapped(other) =~= mapped(entries).insert(entry.id, entry.binding));
}

/// A list without one of its entries.
proof fn lemma_entry_taken_out(entries: Seq<BoundModel>, at: int)
    requires
        increasing(entries),
        0 <= at < entries.len(),
    ensures
        increasing(entries.remove(at)),
        mapped(entries.remove(at)) == mapped(entries).remove(entries[at].id),
        mapped(entries).contains_key(entries[at].id),
        mapped(entries)[entries[at].id] == entries[at].binding,
{
    let less = entries.remove(at);
    let id = entries[at].id;
    assert forall|i: int, j: int| 0 <= i < j < less.len() implies rank((#[trigger] less[i]).id)
        < rank((#[trigger] less[j]).id) by {
        let _ = (entries[i], entries[i + 1], entries[j], entries[j + 1]);
    }
    assert forall|i: int| 0 <= i < less.len() implies (#[trigger] less[i]).id != id by {
        let _ = (entries[at], entries[i], entries[i + 1]);
    }
    lemma_entry_put_in_back(less, at, entries[at], entries);
    assert(mapped(less) =~= mapped(entries).remove(id));
}

proof fn lemma_entry_put_in_back(
    less: Seq<BoundModel>,
    at: int,
    entry: BoundModel,
    entries: Seq<BoundModel>,
)
    requires
        increasing(entries),
        increasing(less),
        0 <= at < entries.len(),
        entry == entries[at],
        less == entries.remove(at),
    ensures
        mapped(entries) == mapped(less).insert(entry.id, entry.binding),
        !mapped(less).contains_key(entry.id),
{
    assert forall|i: int| 0 <= i < at implies rank((#[trigger] less[i]).id) < rank(entry.id) by {
        let _ = (entries[i], entries[at]);
    }
    assert forall|i: int| at <= i < less.len() implies rank(entry.id) < rank(
        (#[trigger] less[i]).id,
    ) by {
        let _ = (entries[i + 1], entries[at]);
    }
    lemma_entry_put_in(less, at, entry);
    assert(less.insert(at, entry) =~= entries);
}

/// The mapping of a controller: what each bound control does, kept in the order of the overview.
#[derive(Debug)]
pub struct MidiMap {
    pub entries: Vec<Bound>,
}

impl View for MidiMap {
    type V = Map<MidiId, BindingModel>;

    open spec fn view(&self) -> Map<MidiId, BindingModel> {
        mapped(bound_models(self.entries@))
    }
}

impl MidiMap {
    /// Every control stands in the list once, in order.
    pub open spec fn wf(&self) -> bool {
        increasing(bound_models(self.entries@))
    }

    pub fn new() -> (r: Self)
        ensures
            r.wf(),
            r@ == Map::<MidiId, BindingModel>::empty(),
    {
        let r = MidiMap { entries: Vec::new() };
        assert(bound_models(r.entries@) =~= Seq::<BoundModel>::empty());
        r
    }

    /// How many controls are bound.
    pub fn len(&self) -> (r: usize)
        requires
            self.wf(),
        ensures
            self@.dom().finite(),
            r == self@.dom().len(),
    {
        proof {
            lemma_mapped(bound_models(self.entries@));
        }
        self.entries.len()
    }

    /// Where a control stands in the list, or where it would.
    fn place(&self, id: MidiId) -> (r: usize)
        requires
            self.wf(),
        ensures
            r <= self.entries@.len(),
            forall|i: int| 0 <= i < r ==> rank((#[trigger] self.entries@[i]).id) < rank(id),
            forall|i: int|
                r <= i < self.entries@.len() ==> rank(id) <= rank((#[trigger] self.entries@[i]).id),
            forall|i: int|
                r < i < self.entries@.len() ==> rank(id) < rank((#[trigger] self.entries@[i]).id),
            r < self.entries@.len() ==> (rank(self.entries@[r as int].id) == rank(id)
                <==> self.entries@[r as int].id == id),
    {
        let at: u32 = rank_of(id);
        let ghost models = bound_models(self.entries@);
        let mut i: usize = 0;
        while i < self.entries.len() && rank_of(self.entries[i].id) < at
            invariant
                i <= self.entries@.len(),
                at == rank(id),
                forall|j: int| 0 <= j < i ==> rank((#[trigger] self.entries@[j]).id) < rank(id),
            decreases self.entries.len() - i,
        {
            i = i + 1;
        }
        proof {
            assert forall|j: int| i <= j < self.entries@.len() implies rank(id) <= rank(
                (#[trigger] self.entries@[j]).id,
            ) by {
                assert(models[j] == self.entries@[j]@ && models[i as int] == self.entries@[i as int]@);
            }
            assert forall|j: int| i < j < self.entries@.len() implies rank(id) < rank(
                (#[trigger] self.entries@[j]).id,
            ) by {
                assert(models[j] == self.entries@[j]@ && models[i as int] == self.entries@[i as int]@);
            }
            if i < self.entries@.len() {
                lemma_rank_tells_apart(self.entries@[i as int].id, id);
            }
        }
        i
    }

    /// What a control is bound to.
    pub fn get(&self, id: MidiId) -> (r: Option<&Binding>)
        requires
            self.wf(),
        ensures
            self@.contains_key(id) ==> (r matches Some(found) && found@ == self@[id]),
            !self@.contains_key(id) ==> r is None,
    {
        let ghost models = bound_models(self.entries@);
        proof {
            lemma_mapped(models);
        }
        let at: usize = self.place(id);
        if at < self.entries.len() && self.entries[at].id == id {
            assert(models[at as int] == self.entries@[at as int]@);
            return Some(&self.entries[at].binding);
        }
        proof {
            if self@.contains_key(id) {
                let k = choose|k: int| 0 <= k < models.len() && (#[trigger] models[k]).id == id;
                assert(models[k] == self.entries@[k]@);
            }
        }
        None
    }

    /// Bind a control, whatever it did before.
    pub fn insert(&mut self, id: MidiId, binding: Binding)
        requires
            old(self).wf(),
        ensures
            final(self).wf(),
            final(self)@ == old(self)@.insert(id, binding@),
    {
        let ghost before = bound_models(self.entries@);
        let at: usize = self.place(id);
        let ghost entry = BoundModel { id, binding: binding@ };
        if at < self.entries.len() && self.entries[at].id == id {
            assert(before[at as int] == self.entries@[at as int]@);
            self.entries[at] = Bound { id, binding };
            proof {
                lemma_entry_replaced(before, at as int, entry);
                assert(bound_models(self.entries@) =~= before.update(at as int, entry));
            }
        } else {
            proof {
                assert forall|i: int| 0 <= i < at implies rank((#[trigger] before[i]).id) < rank(
                    id,
                ) by {
                    assert(before[i] == self.entries@[i]@);
                }
                assert forall|i: int| at <= i < before.len() implies rank(id) < rank(
                    (#[trigger] before[i]).id,
                ) by {
                    assert(before[i] == self.entries@[i]@);
                }
                lemma_entry_put_in(before, at as int, entry);
            }
            self.entries.insert(at, Bound { id, binding });
            assert(bound_models(self.entries@) =~= before.insert(at as int, entry));
        }
    }

    /// Take a control's job away. The answer is what it did.
    pub fn remove(&mut self, id: MidiId) -> (r: Option<Binding>)
        requires
            old(self).wf(),
        ensures
            final(self).wf(),
            final(self)@ == old(self)@.remove(id),
            old(self)@.contains_key(id) ==> (r matches Some(found) && found@ == old(self)@[id]),
            !old(self)@.contains_key(id) ==> r is None && *final(self) == *old(self),
    {
        let ghost before = bound_models(self.entries@);
        proof {
            lemma_mapped(before);
        }
        let at: usize = self.place(id);
        if at < self.entries.len() && self.entries[at].id == id {
            assert(before[at as int] == self.entries@[at as int]@);
            proof {
                lemma_entry_taken_out(before, at as int);
            }
            let taken: Bound = self.entries.remove(at);
            assert(bound_models(self.entries@) =~= before.remove(at as int));
            return Some(taken.binding);
        }
        proof {
            if self@.contains_key(id) {
                let k = choose|k: int| 0 <= k < before.len() && (#[trigger] before[k]).id == id;
                assert(before[k] == self.entries@[k]@);
            }
            assert(self@ =~= self@.remove(id));
        }
        None
    }

    pub fn copied(&self) -> (r: Self)
        requires
            self.wf(),
        ensures
            r.wf(),
            r@ == self@,
            bound_models(r.entries@) == bound_models(self.entries@),
    {
        let mut entries: Vec<Bound> = Vec::new();
        let mut i: usize = 0;
        while i < self.entries.len()
            invariant
                i <= self.entries.len(),
                entries@.len() == i,
                forall|j: int| 0 <= j < i ==> (#[trigger] entries@[j])@ == self.entries@[j]@,
            decreases self.entries.len() - i,
        {
            entries.push(
                Bound { id: self.entries[i].id, binding: self.entries[i].binding.copied() },
            );
            i = i + 1;
        }
        let r = MidiMap { entries };
        assert(bound_models(r.entries@) =~= bound_models(self.entries@));
        r
    }

    /// Lay another mapping over this one. The answer is one German line per control that changed its
    /// meaning.
    pub fn overlay(&mut self, other: &MidiMap) -> (r: Vec<String>)
        requires
            old(self).wf(),
            other.wf(),
        ensures
            final(self).wf(),
            final(self)@ == old(self)@.union_prefer_right(other@),
            texts(r@) == takeovers(old(self)@, bound_models(other.entries@)),
    {
        let ghost base = self@;
        let ghost above = bound_models(other.entries@);
        let mut notes: Vec<String> = Vec::new();
        let mut i: usize = 0;
        proof {
            assert(above.take(0) =~= Seq::<BoundModel>::empty());
            assert(self@ =~= base.union_prefer_right(mapped(above.take(0))));
            assert(texts(notes@) =~= Seq::<Seq<char>>::empty());
        }
        while i < other.entries.len()
            invariant
                i <= other.entries.len(),
                other.wf(),
                self.wf(),
                above == bound_models(other.entries@),
                self@ == base.union_prefer_right(mapped(above.take(i as int))),
                texts(notes@) == takeovers(base, above.take(i as int)),
            decreases other.entries.len() - i,
        {
            let id: MidiId = other.entries[i].id;
            let binding: &Binding = &other.entries[i].binding;
            let ghost done = above.take(i as int);
            let ghost next = above.take(i + 1);
            proof {
                assert(next.drop_last() =~= done);
                assert(next.last() == above[i as int]);
                assert(above[i as int] == other.entries@[i as int]@);
                assert forall|a: int, b: int| 0 <= a < b < done.len() implies rank(
                    (#[trigger] done[a]).id,
                ) < rank((#[trigger] done[b]).id) by {
                    assert(done[a] == above[a] && done[b] == above[b]);
                }
                lemma_mapped(done);
                if mapped(done).contains_key(id) {
                    let k = choose|k: int| 0 <= k < done.len() && (#[trigger] done[k]).id == id;
                    assert(done[k] == above[k]);
                    assert(rank(above[k].id) < rank(above[i as int].id));
                }
            }
            let ghost told = notes@;
            match self.get(id) {
                Some(before) => {
                    if !before.is_same(binding) {
                        notes.push(takeover(id, before, binding));
                        assert(texts(notes@) =~= texts(told).push(
                            takeover_text(id, base[id], binding@),
                        ));
                    }
                },
                None => {},
            }
            self.insert(id, binding.copied());
            proof {
                assert(self@ =~= base.union_prefer_right(mapped(next)));
            }
            i = i + 1;
        }
        assert(above.take(i as int) =~= above);
        notes
    }
}

/// The line about a control a score took over.
pub open spec fn takeover_text(id: MidiId, before: BindingModel, now: BindingModel) -> Seq<char> {
    "Die Partitur belegt "@ + id.badge() + " mit "@ + quoted(now.label) + " statt "@ + quoted(
        before.label,
    ) + "."@
}

fn takeover(id: MidiId, before: &Binding, now: &Binding) -> (r: String)
    ensures
        r@ == takeover_text(id, before@, now@),
{
    let mut r = String::new();
    r.append("Die Partitur belegt ");
    r.append(id.short().as_str());
    r.append(" mit ");
    push_quoted(&mut r, now.label.as_str());
    r.append(" statt ");
    push_quoted(&mut r, before.label.as_str());
    r.append(".");
    assert(r@ =~= takeover_text(id, before@, now@));
    r
}

/// The lines about every control that means something else under another mapping.
pub open spec fn takeovers(base: Map<MidiId, BindingModel>, above: Seq<BoundModel>) -> Seq<Seq<char>>
    decreases above.len(),
{
    if above.len() == 0 {
        Seq::empty()
    } else {
        let rest = takeovers(base, above.drop_last());
        let id = above.last().id;
        if base.contains_key(id) && base[id] != above.last().binding {
            rest.push(takeover_text(id, base[id], above.last().binding))
        } else {
            rest
        }
    }
}

// ---------------------------------------------------------------------------------------------
// Laws
// ---------------------------------------------------------------------------------------------

/// A score only supplements: a control it does not name keeps its job.
pub proof fn a_score_leaves_the_rest_alone(
    profile: Map<MidiId, BindingModel>,
    score: Map<MidiId, BindingModel>,
    id: MidiId,
)
    requires
        !score.contains_key(id),
    ensures
        profile.union_prefer_right(score).contains_key(id) == profile.contains_key(id),
        profile.contains_key(id) ==> profile.union_prefer_right(score)[id] == profile[id],
{
}

/// No control changes its meaning in silence: every control of a score that did something else
/// before has its line.
pub proof fn a_takeover_is_reported(
    base: Map<MidiId, BindingModel>,
    above: Seq<BoundModel>,
    i: int,
)
    requires
        0 <= i < above.len(),
        base.contains_key(above[i].id),
        base[above[i].id] != above[i].binding,
    ensures
        takeovers(base, above).contains(
            takeover_text(above[i].id, base[above[i].id], above[i].binding),
        ),
    decreases above.len(),
{
    let text = takeover_text(above[i].id, base[above[i].id], above[i].binding);
    let rest = above.drop_last();
    let all = takeovers(base, above);
    if i < rest.len() {
        assert(rest[i] == above[i]);
        a_takeover_is_reported(base, rest, i);
        let told = takeovers(base, rest);
        let k = choose|k: int| 0 <= k < told.len() && told[k] == text;
        assert(all[k] == text);
    } else {
        assert(all[all.len() - 1] == text);
    }
}

/// A list says of a control what its last entry for it says, and an entry speaks of its own control
/// only.
pub proof fn the_last_entry_counts(entries: Seq<BoundModel>, entry: BoundModel, other: MidiId)
    ensures
        ({
            let before = mapped(entries);
            let after = mapped(entries.push(entry));
            &&& after.contains_key(entry.id)
            &&& after[entry.id] == entry.binding
            &&& other != entry.id ==> after.contains_key(other) == before.contains_key(other)
            &&& other != entry.id && before.contains_key(other) ==> after[other] == before[other]
        }),
        !mapped(Seq::empty()).contains_key(other),
{
    assert(entries.push(entry).drop_last() =~= entries);
}

/// A line about a takeover stands only for one: a control that the score gives another meaning.
pub proof fn only_takeovers_are_reported(
    base: Map<MidiId, BindingModel>,
    above: Seq<BoundModel>,
    k: int,
)
    requires
        0 <= k < takeovers(base, above).len(),
    ensures
        exists|i: int|
            0 <= i < above.len() && base.contains_key((#[trigger] above[i]).id)
                && base[above[i].id] != above[i].binding && takeovers(base, above)[k]
                == takeover_text(above[i].id, base[above[i].id], above[i].binding),
    decreases above.len(),
{
    if above.len() > 0 {
        let fewer = above.drop_last();
        let rest = takeovers(base, fewer);
        if k < rest.len() {
            only_takeovers_are_reported(base, fewer, k);
            let i = choose|i: int|
                0 <= i < fewer.len() && base.contains_key((#[trigger] fewer[i]).id)
                    && base[fewer[i].id] != fewer[i].binding && rest[k] == takeover_text(
                    fewer[i].id,
                    base[fewer[i].id],
                    fewer[i].binding,
                );
            assert(above[i] == fewer[i]);
        } else {
            let last = above.len() - 1;
            assert(above[last as int] == above.last());
        }
    }
}

/// The overview is ordered by channel, on a channel pads come before knobs and knobs before the bend,
/// and among those by number.
pub proof fn the_overview_is_ordered(a: MidiId, b: MidiId)
    ensures
        a.channel < b.channel ==> rank(a) < rank(b),
        a.channel == b.channel && a.kind is Note && !(b.kind is Note) ==> rank(a) < rank(b),
        a.channel == b.channel && a.kind is Cc && b.kind is Bend ==> rank(a) < rank(b),
        a.channel == b.channel && a.kind == b.kind && a.number < b.number ==> rank(a) < rank(b),
{
}

} // verus!
