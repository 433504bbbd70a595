//! The waiting room for commands that have been taken out of the queue but are not due yet.
use vstd::prelude::*;
use crate::command::Command;

verus! {

/// How many commands can wait.
pub const SCHEDULED_SLOTS: usize = 64;

/// Whether command `i` acts before every other one: it is due first, and of those due at the same
/// position it was sent first.
pub open spec fn acts_first(waiting: Seq<Command>, i: int) -> bool {
    &&& 0 <= i < waiting.len()
    &&& forall|j: int| 0 <= j < waiting.len() ==> waiting[i].due() <= #[trigger] waiting[j].due()
    &&& forall|j: int| 0 <= j < i ==> waiting[i].due() < #[trigger] waiting[j].due()
}

/// The command that acts first in a waiting room, and whether it acts before `block_end`.
pub open spec fn due_first(waiting: Seq<Command>, block_end: int) -> Option<int> {
    if exists|i: int| acts_first(waiting, i) && waiting[i].due() < block_end {
        Some(choose|i: int| acts_first(waiting, i) && waiting[i].due() < block_end)
    } else {
        None
    }
}

/// The commands that leave a waiting room before `block_end`, in the order in which they act.
pub open spec fn acting(waiting: Seq<Command>, block_end: int) -> Seq<Command>
    decreases waiting.len(),
{
    match due_first(waiting, block_end) {
        Some(i) => if 0 <= i < waiting.len() {
            seq![waiting[i]] + acting(waiting.remove(i), block_end)
        } else {
            Seq::empty()
        },
        None => Seq::empty(),
    }
}

/// There is at most one command that acts first.
proof fn lemma_acts_first_once(waiting: Seq<Command>, i: int, j: int)
    requires
        acts_first(waiting, i),
        acts_first(waiting, j),
    ensures
        i == j,
{
    if i < j {
        assert(waiting[j].due() < waiting[i].due());
    } else if j < i {
        assert(waiting[i].due() < waiting[j].due());
    }
}

/// In a waiting room with anybody in it, somebody acts first.
proof fn lemma_somebody_acts_first(waiting: Seq<Command>) -> (i: int)
    requires
        waiting.len() > 0,
    ensures
        acts_first(waiting, i),
    decreases waiting.len(),
{
    if waiting.len() == 1 {
        assert(acts_first(waiting, 0));
        0
    } else {
        let front = waiting.drop_last();
        let k = lemma_somebody_acts_first(front);
        let last = waiting.len() - 1;
        assert forall|j: int| 0 <= j < front.len() implies front[j] == #[trigger] waiting[j] by {}
        if waiting[last].due() < waiting[k].due() {
            assert forall|j: int| 0 <= j < waiting.len() implies waiting[last].due()
                <= #[trigger] waiting[j].due() by {
                if j < last {
                    assert(front[k].due() <= front[j].due());
                }
            }
            assert forall|j: int| 0 <= j < last implies waiting[last].due()
                < #[trigger] waiting[j].due() by {
                assert(front[k].due() <= front[j].due());
            }
            last
        } else {
            assert forall|j: int| 0 <= j < waiting.len() implies waiting[k].due()
                <= #[trigger] waiting[j].due() by {
                if j < last {
                    assert(front[k].due() <= front[j].due());
                }
            }
            assert forall|j: int| 0 <= j < k implies waiting[k].due()
                < #[trigger] waiting[j].due() by {
                assert(front[k].due() < front[j].due());
            }
            k
        }
    }
}

/// Nobody who is left behind was due: what stays in the waiting room after the acting commands have
/// left is due at the end of the block or later.
pub proof fn nothing_due_is_left_behind(waiting: Seq<Command>, block_end: int)
    requires
        due_first(waiting, block_end) is None,
    ensures
        forall|j: int| 0 <= j < waiting.len() ==> #[trigger] waiting[j].due() >= block_end,
{
    if waiting.len() > 0 {
        let i = lemma_somebody_acts_first(waiting);
        assert forall|j: int| 0 <= j < waiting.len() implies #[trigger] waiting[j].due()
            >= block_end by {
            assert(waiting[i].due() <= waiting[j].due());
        }
    }
}

/// Commands act in the order of their timestamps, whatever order they were sent in.
pub proof fn commands_act_in_the_order_of_their_time(
    waiting: Seq<Command>,
    block_end: int,
    i: int,
    j: int,
)
    requires
        0 <= i <= j < acting(waiting, block_end).len(),
    ensures
        acting(waiting, block_end)[i].due() <= acting(waiting, block_end)[j].due(),
    decreases waiting.len(),
{
    let first = due_first(waiting, block_end)->0;
    let rest = waiting.remove(first);
    let all = acting(waiting, block_end);
    let later = acting(rest, block_end);
    assert(all =~= seq![waiting[first]] + later);
    if i == 0 {
        if j > 0 {
            lemma_acting_are_from_the_room(rest, block_end, j - 1);
            let k = choose|k: int| 0 <= k < rest.len() && rest[k] == later[j - 1];
            assert(acts_first(waiting, first));
            if k < first {
                assert(rest[k] == waiting[k]);
            } else {
                assert(rest[k] == waiting[k + 1]);
            }
        }
    } else {
        commands_act_in_the_order_of_their_time(rest, block_end, i - 1, j - 1);
    }
}

proof fn lemma_acting_are_from_the_room(waiting: Seq<Command>, block_end: int, j: int)
    requires
        0 <= j < acting(waiting, block_end).len(),
    ensures
        exists|k: int| 0 <= k < waiting.len() && waiting[k] == acting(waiting, block_end)[j],
        acting(waiting, block_end)[j].due() < block_end,
    decreases waiting.len(),
{
    let first = due_first(waiting, block_end)->0;
    let rest = waiting.remove(first);
    let later = acting(rest, block_end);
    assert(acting(waiting, block_end) =~= seq![waiting[first]] + later);
    assert(acts_first(waiting, first) && waiting[first].due() < block_end);
    if j == 0 {
        assert(waiting[first] == acting(waiting, block_end)[0]);
    } else {
        lemma_acting_are_from_the_room(rest, block_end, j - 1);
        let k = choose|k: int| 0 <= k < rest.len() && rest[k] == later[j - 1];
        if k < first {
            assert(waiting[k] == acting(waiting, block_end)[j]);
        } else {
            assert(waiting[k + 1] == acting(waiting, block_end)[j]);
        }
    }
}

/// No command acts before its time and none outside the block: what acts was waiting and is due
/// before the block ends.
pub proof fn only_due_commands_act(waiting: Seq<Command>, block_end: int, j: int)
    requires
        0 <= j < acting(waiting, block_end).len(),
    ensures
        acting(waiting, block_end)[j].due() < block_end,
        waiting.contains(acting(waiting, block_end)[j]),
{
    lemma_acting_are_from_the_room(waiting, block_end, j);
    let k = choose|k: int| 0 <= k < waiting.len() && waiting[k] == acting(waiting, block_end)[j];
    assert(waiting[k] == acting(waiting, block_end)[j]);
}

/// Of two commands that are due at the same position, the one that was sent first acts first.
pub proof fn equal_times_keep_their_order(waiting: Seq<Command>, i: int, j: int)
    requires
        0 <= i < j < waiting.len(),
        waiting[i].due() == waiting[j].due(),
    ensures
        !acts_first(waiting, j),
{
}

/// Where a command acts: at its position, and at once where that has gone by.
pub open spec fn acts_at(due: u64, not_before: u64) -> u64 {
    if due >= not_before {
        due
    } else {
        not_before
    }
}

/// The next command that must act before `block_end`: its slot in the waiting room and the position
/// it acts at. A command whose time has passed acts at `not_before` rather than in the past.
///
/// The waiting room is scanned rather than worked through front to back, because commands for
/// different tracks arrive interleaved: a stop scheduled for bar 9 on the voice must not hold back
/// a record scheduled for bar 2 on the guitar.
pub fn next_due(scheduled: &Vec<Command>, block_end: u64, not_before: u64) -> (r: Option<
    (usize, u64),
>)
    ensures
        match r {
            Some((i, at)) => {
                &&& due_first(scheduled@, block_end as int) == Some(i as int)
                &&& acts_first(scheduled@, i as int)
                &&& scheduled@[i as int].due() < block_end
                &&& at == (if scheduled@[i as int].due() >= not_before {
                    scheduled@[i as int].due()
                } else {
                    not_before
                })
                &&& at == acts_at(scheduled@[i as int].due(), not_before)
            },
            None => due_first(scheduled@, block_end as int) is None,
        },
{
    let mut best: Option<(usize, u64)> = None;
    let mut i: usize = 0;
    while i < scheduled.len()
        invariant
            i <= scheduled.len(),
            best is None <==> i == 0,
            best matches Some((k, at)) ==> {
                &&& k < i
                &&& at == scheduled@[k as int].due()
                &&& forall|j: int| 0 <= j < i ==> at <= #[trigger] scheduled@[j].due()
                &&& forall|j: int| 0 <= j < k ==> at < #[trigger] scheduled@[j].due()
            },
        decreases scheduled.len() - i,
    {
        // Untimed commands carry no musical meaning and act at the next opportunity.
        let at: u64 = match scheduled[i].at() {
            Some(at) => at,
            None => 0,
        };
        let better: bool = match best {
            Some((_, b)) => at < b,
            None => true,
        };
        if better {
            best = Some((i, at));
        }
        i = i + 1;
    }
    match best {
        Some((index, at)) => {
            assert(acts_first(scheduled@, index as int));
            if at < block_end {
                proof {
                    let k = choose|k: int|
                        acts_first(scheduled@, k) && scheduled@[k].due() < block_end;
                    lemma_acts_first_once(scheduled@, index as int, k);
                }
                if at >= not_before {
                    Some((index, at))
                } else {
                    Some((index, not_before))
                }
            } else {
                proof {
                    if exists|k: int| acts_first(scheduled@, k) && scheduled@[k].due() < block_end {
                        let k = choose|k: int|
                            acts_first(scheduled@, k) && scheduled@[k].due() < block_end;
                        lemma_acts_first_once(scheduled@, index as int, k);
                    }
                }
                None
            }
        },
        None => None,
    }
}

/// Every command that is due before the end of a block acts in it, and as often as it waits: those
/// that act are exactly those of the waiting room that are due.
pub proof fn every_due_command_acts_once(waiting: Seq<Command>, block_end: int, cmd: Command)
    ensures
        cmd.due() < block_end ==> acting(waiting, block_end).to_multiset().count(cmd)
            == waiting.to_multiset().count(cmd),
        cmd.due() >= block_end ==> acting(waiting, block_end).to_multiset().count(cmd) == 0,
    decreases waiting.len(),
{
    broadcast use vstd::seq_lib::group_to_multiset_ensures;

    let all = acting(waiting, block_end);
    match due_first(waiting, block_end) {
        Some(i) => {
            assert(acts_first(waiting, i) && waiting[i].due() < block_end);
            let left = waiting.remove(i);
            every_due_command_acts_once(left, block_end, cmd);
            let rest = acting(left, block_end);
            let first = seq![waiting[i]];
            vstd::seq_lib::lemma_multiset_commutative(first, rest);
            assert(first =~= Seq::<Command>::empty().push(waiting[i]));
            assert(first.to_multiset().count(cmd) == (if cmd == waiting[i] {
                1nat
            } else {
                0nat
            }));
        },
        None => {
            nothing_due_is_left_behind(waiting, block_end);
            assert(all =~= Seq::<Command>::empty());
            if cmd.due() < block_end && waiting.to_multiset().count(cmd) > 0 {
                assert(waiting.contains(cmd));
                let k = choose|k: int| 0 <= k < waiting.len() && waiting[k] == cmd;
                assert(waiting[k].due() >= block_end);
            }
        },
    }
}

/// A command acts at its own position; one that comes too late acts at once, and none acts early.
pub proof fn a_late_command_acts_at_once(due: u64, not_before: u64)
    ensures
        acts_at(due, not_before) >= due,
        acts_at(due, not_before) >= not_before,
        acts_at(due, not_before) == due || acts_at(due, not_before) == not_before,
        due >= not_before ==> acts_at(due, not_before) == due,
{
}

} // verus!
