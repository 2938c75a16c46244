//! Traces of what a driver asked of its bus and of its delay line.

use vstd::prelude::*;

verus! {

/// One request, with the answer it got.
pub enum Signal {
    /// A byte handed to the bus for the device at `addr`; `ok` tells whether
    /// the bus took it.
    Write { addr: u8, byte: u8, ok: bool },
    /// A pause of at least `nanos` nanoseconds.
    Pause { nanos: nat },
}

impl Signal {
    /// A write of `byte` to the device at `addr` that the bus took.
    pub open spec fn sent(addr: u8, byte: u8) -> Signal {
        Signal::Write { addr, byte, ok: true }
    }

    /// The same request, turned down where it is a write.
    pub open spec fn refused(self) -> Signal {
        match self {
            Signal::Write { addr, byte, .. } => Signal::Write { addr, byte, ok: false },
            Signal::Pause { nanos } => Signal::Pause { nanos },
        }
    }
}

/// The plan that hands `byte` to the bus for the device at `addr`.
pub open spec fn send(addr: u8, byte: u8) -> Seq<Signal> {
    seq![Signal::sent(addr, byte)]
}

/// The plan that waits for `nanos` nanoseconds.
pub open spec fn pause(nanos: nat) -> Seq<Signal> {
    seq![Signal::Pause { nanos }]
}

/// No write in `plan` is marked as refused. This holds of every plan, which
/// says what is asked and not how it ends, and of a record on which the bus
/// took every byte.
pub open spec fn clean(plan: Seq<Signal>) -> bool {
    forall|i: int| 0 <= i < plan.len() && plan[i] is Write ==> (#[trigger] plan[i])->ok
}

/// Every write of `plan` goes to the device at `addr`.
pub open spec fn bound_for(plan: Seq<Signal>, addr: u8) -> bool {
    forall|i: int| 0 <= i < plan.len() && plan[i] is Write ==> (#[trigger] plan[i])->addr == addr
}

/// What is on record when `plan` stops at its `k`-th request because the bus
/// refused it.
pub open spec fn halted(plan: Seq<Signal>, k: int) -> Seq<Signal> {
    plan.take(k).push(plan[k].refused())
}

/// `after` is `before` followed by the requests of `plan`, in order, up to and
/// including the first write that the bus refused. `done` tells whether the
/// plan ran to its end.
#[verifier::opaque]
pub open spec fn performed(
    before: Seq<Signal>,
    plan: Seq<Signal>,
    after: Seq<Signal>,
    done: bool,
) -> bool {
    if done {
        after =~= before + plan
    } else {
        exists|k: int|
            0 <= k < plan.len() && plan[k] is Write && after =~= before + #[trigger] halted(plan, k)
    }
}

/// `plan` was started on `before` and either ran to its end or stopped at a
/// refused write, leaving `after`.
pub open spec fn attempted(before: Seq<Signal>, plan: Seq<Signal>, after: Seq<Signal>) -> bool {
    performed(before, plan, after, true) || performed(before, plan, after, false)
}

/// Each plan of `script` was attempted in turn, a failure of one not keeping
/// the next from starting.
pub open spec fn attempted_each(
    before: Seq<Signal>,
    script: Seq<Seq<Signal>>,
    after: Seq<Signal>,
) -> bool
    decreases script.len(),
{
    if script.len() == 0 {
        after =~= before
    } else {
        exists|mid: Seq<Signal>|
            attempted_each(before, script.drop_last(), mid) && #[trigger] attempted(
                mid,
                script.last(),
                after,
            )
    }
}

/// The plans of `script`, one after the other, as one plan.
pub open spec fn in_turn(script: Seq<Seq<Signal>>) -> Seq<Signal>
    decreases script.len(),
{
    if script.len() == 0 {
        Seq::empty()
    } else {
        in_turn(script.drop_last()) + script.last()
    }
}

/// Marks `before` as the record from which a run of plans is followed. It
/// holds of every record, and serves to keep the ambient form of
/// `lemma_performed_then` to the runs that start there.
pub open spec fn anchored(before: Seq<Signal>) -> bool {
    true
}

/// A plan that ran to its end, followed by a second plan, is the two plans run
/// as one.
pub broadcast proof fn lemma_performed_then(
    before: Seq<Signal>,
    first: Seq<Signal>,
    mid: Seq<Signal>,
    second: Seq<Signal>,
    after: Seq<Signal>,
    done: bool,
)
    requires
        #[trigger] anchored(before),
        #[trigger] performed(before, first, mid, true),
        #[trigger] performed(mid, second, after, done),
    ensures
        performed(before, first + second, after, done),
{
    reveal(performed);
    if !done {
        let k = choose|k: int|
            0 <= k < second.len() && second[k] is Write && after =~= mid + #[trigger] halted(
                second,
                k,
            );
        let j = first.len() + k;
        assert((first + second).take(j) =~= first + second.take(k));
        assert(after =~= before + halted(first + second, j));
    }
}

/// A plan that stopped at a refused write stopped whatever was to follow it.
pub broadcast proof fn lemma_performed_stops(
    before: Seq<Signal>,
    first: Seq<Signal>,
    after: Seq<Signal>,
    second: Seq<Signal>,
)
    requires
        performed(before, first, after, false),
    ensures
        #[trigger] performed(before, first + second, after, false),
{
    reveal(performed);
    let k = choose|k: int|
        0 <= k < first.len() && first[k] is Write && after =~= before + #[trigger] halted(first, k);
    assert((first + second).take(k) =~= first.take(k));
    assert(after =~= before + halted(first + second, k));
}

/// Clean plans joined are a clean plan.
pub proof fn lemma_clean_concat(first: Seq<Signal>, second: Seq<Signal>)
    requires
        clean(first),
        clean(second),
    ensures
        clean(first + second),
{
    let whole = first + second;
    assert forall|i: int| 0 <= i < whole.len() && whole[i] is Write implies (#[trigger] whole[i])->ok by {
        if i < first.len() {
            assert(whole[i] == first[i]);
        } else {
            assert(whole[i] == second[i - first.len()]);
        }
    }
}

/// Plans bound for one device, joined, are bound for it.
pub proof fn lemma_bound_for_concat(first: Seq<Signal>, second: Seq<Signal>, addr: u8)
    requires
        bound_for(first, addr),
        bound_for(second, addr),
    ensures
        bound_for(first + second, addr),
{
    let whole = first + second;
    assert forall|i: int| 0 <= i < whole.len() && whole[i] is Write implies (#[trigger] whole[i])->addr
        == addr by {
        if i < first.len() {
            assert(whole[i] == first[i]);
        } else {
            assert(whole[i] == second[i - first.len()]);
        }
    }
}

/// What a plan bound for one device adds to a record, whether it runs to its
/// end or stops at a refused write, is bound for that device: the record of
/// the refused write holds the address it was meant for.
pub proof fn lemma_performed_bound(
    before: Seq<Signal>,
    plan: Seq<Signal>,
    after: Seq<Signal>,
    done: bool,
    addr: u8,
)
    requires
        performed(before, plan, after, done),
        bound_for(before, addr),
        bound_for(plan, addr),
    ensures
        bound_for(after, addr),
{
    reveal(performed);
    if done {
        lemma_bound_for_concat(before, plan, addr);
    } else {
        let k = choose|k: int|
            0 <= k < plan.len() && plan[k] is Write && after =~= before + #[trigger] halted(plan, k);
        let cut = halted(plan, k);
        assert forall|i: int| 0 <= i < cut.len() && cut[i] is Write implies (#[trigger] cut[i])->addr
            == addr by {
            if i < k {
                assert(cut[i] == plan[i]);
            } else {
                assert(cut[i] == plan[k].refused());
            }
        }
        lemma_bound_for_concat(before, cut, addr);
    }
}

/// The record tells whether a clean plan ran to its end: it cannot both have
/// done so and have stopped at a refused write.
pub proof fn lemma_performed_decided(before: Seq<Signal>, plan: Seq<Signal>, after: Seq<Signal>)
    requires
        clean(plan),
    ensures
        !(performed(before, plan, after, true) && performed(before, plan, after, false)),
{
    reveal(performed);
    if performed(before, plan, after, true) && performed(before, plan, after, false) {
        let k = choose|k: int|
            0 <= k < plan.len() && plan[k] is Write && after =~= before + #[trigger] halted(plan, k);
        assert((before + plan).len() == (before + halted(plan, k)).len());
        assert((before + plan)[before.len() + k] == plan[k]);
        assert((before + halted(plan, k))[before.len() + k] == plan[k].refused());
    }
}

/// The two ways in which runs of plans compose, for ambient use.
pub broadcast group group_performed {
    lemma_performed_then,
    lemma_performed_stops,
}

/// Attempting one more plan extends the script by it.
pub proof fn lemma_attempted_each_push(
    before: Seq<Signal>,
    script: Seq<Seq<Signal>>,
    mid: Seq<Signal>,
    plan: Seq<Signal>,
    after: Seq<Signal>,
)
    requires
        attempted_each(before, script, mid),
        attempted(mid, plan, after),
    ensures
        attempted_each(before, script.push(plan), after),
{
    let longer = script.push(plan);
    assert(longer.drop_last() =~= script);
    assert(attempted(mid, longer.last(), after));
}

/// Two scripts attempted one after the other are their concatenation attempted.
pub proof fn lemma_attempted_each_concat(
    before: Seq<Signal>,
    first: Seq<Seq<Signal>>,
    mid: Seq<Signal>,
    second: Seq<Seq<Signal>>,
    after: Seq<Signal>,
)
    requires
        attempted_each(before, first, mid),
        attempted_each(mid, second, after),
    ensures
        attempted_each(before, first + second, after),
    decreases second.len(),
{
    if second.len() == 0 {
        assert(first + second =~= first);
    } else {
        let inner = choose|inner: Seq<Signal>|
            attempted_each(mid, second.drop_last(), inner) && #[trigger] attempted(
                inner,
                second.last(),
                after,
            );
        lemma_attempted_each_concat(before, first, mid, second.drop_last(), inner);
        let whole = first + second;
        assert(whole.drop_last() =~= first + second.drop_last());
        assert(attempted(inner, whole.last(), after));
    }
}

/// What `after` holds beyond `before`, for a record that has only grown.
pub open spec fn added(before: Seq<Signal>, after: Seq<Signal>) -> Seq<Signal> {
    after.skip(before.len() as int)
}

/// A record only grows: whatever a plan comes to, what was on record before
/// it stays there, in place.
pub proof fn lemma_attempted_grows(before: Seq<Signal>, plan: Seq<Signal>, after: Seq<Signal>)
    requires
        attempted(before, plan, after),
    ensures
        before.len() <= after.len(),
        after.take(before.len() as int) == before,
{
    reveal(performed);
    assert(after.take(before.len() as int) =~= before);
}

/// A record only grows, whatever a script comes to.
pub proof fn lemma_attempted_each_grows(
    before: Seq<Signal>,
    script: Seq<Seq<Signal>>,
    after: Seq<Signal>,
)
    requires
        attempted_each(before, script, after),
    ensures
        before.len() <= after.len(),
        after.take(before.len() as int) == before,
    decreases script.len(),
{
    if script.len() > 0 {
        let mid = choose|mid: Seq<Signal>|
            attempted_each(before, script.drop_last(), mid) && #[trigger] attempted(
                mid,
                script.last(),
                after,
            );
        lemma_attempted_each_grows(before, script.drop_last(), mid);
        lemma_attempted_grows(mid, script.last(), after);
        assert(after.take(before.len() as int) =~= mid.take(before.len() as int));
    }
}

/// A plan that stopped left the refused write on the record, among what it
/// added.
pub proof fn lemma_stopped_is_on_record(
    before: Seq<Signal>,
    plan: Seq<Signal>,
    after: Seq<Signal>,
)
    requires
        performed(before, plan, after, false),
    ensures
        !clean(added(before, after)),
{
    reveal(performed);
    let k = choose|k: int|
        0 <= k < plan.len() && plan[k] is Write && after =~= before + #[trigger] halted(plan, k);
    assert(added(before, after)[k] == plan[k].refused());
}

/// While the bus takes every byte that a script hands to it, the script adds
/// its plans to the record, in full and in order, and nothing else. What the
/// record held before, refused writes and all, is of no account.
pub proof fn lemma_attempted_each_taken(
    before: Seq<Signal>,
    script: Seq<Seq<Signal>>,
    after: Seq<Signal>,
)
    requires
        attempted_each(before, script, after),
        clean(added(before, after)),
    ensures
        after == before + in_turn(script),
    decreases script.len(),
{
    if script.len() == 0 {
        assert(after =~= before + in_turn(script));
    } else {
        let mid = choose|mid: Seq<Signal>|
            attempted_each(before, script.drop_last(), mid) && #[trigger] attempted(
                mid,
                script.last(),
                after,
            );
        lemma_attempted_each_grows(before, script.drop_last(), mid);
        lemma_attempted_grows(mid, script.last(), after);
        let new = added(before, after);
        let gap = mid.len() - before.len();
        let tail = added(mid, after);
        assert forall|i: int| 0 <= i < tail.len() && tail[i] is Write implies (#[trigger] tail[i])->ok by {
            assert(tail[i] == new[gap + i]);
        }
        if performed(mid, script.last(), after, false) {
            lemma_stopped_is_on_record(mid, script.last(), after);
        }
        let head = added(before, mid);
        assert forall|i: int| 0 <= i < head.len() && head[i] is Write implies (#[trigger] head[i])->ok by {
            assert(mid[before.len() + i] == after.take(mid.len() as int)[before.len() + i]);
            assert(head[i] == new[i]);
        }
        lemma_attempted_each_taken(before, script.drop_last(), mid);
        reveal(performed);
        assert(after =~= before + in_turn(script));
    }
}

} // verus!
