//! The history of one account's voting power: the ledger sequence numbers at
//! which it changed, each with the power that held from then on.
use vstd::prelude::*;

verus! {

/// Power `power` took effect at ledger sequence `seq`.
#[derive(Copy, Clone, Debug, PartialEq, Eq, Structural)]
pub struct Checkpoint {
    pub seq: u32,
    pub power: i128,
}

/// Sequence numbers strictly increase along the history, so no sequence
/// number occurs twice.
pub open spec fn strictly_increasing(cps: Seq<Checkpoint>) -> bool {
    forall|i: int, j: int| 0 <= i < j < cps.len() ==> cps[i].seq < cps[j].seq
}

/// Every checkpoint of the history lies at or before sequence `s`.
pub open spec fn all_at_or_before(cps: Seq<Checkpoint>, s: u32) -> bool {
    forall|i: int| 0 <= i < cps.len() ==> cps[i].seq <= s
}

/// The power in effect at sequence `s`: what the latest checkpoint at or
/// before `s` recorded, and 0 where `s` precedes the first checkpoint.
pub open spec fn power_in_effect(cps: Seq<Checkpoint>, s: u32) -> int
    decreases cps.len(),
{
    if cps.len() == 0 {
        0
    } else if cps.last().seq <= s {
        cps.last().power as int
    } else {
        power_in_effect(cps.drop_last(), s)
    }
}

/// The history after power `power` is recorded at sequence `seq`: a
/// checkpoint already at `seq` is overwritten, else one is appended.
pub open spec fn recorded(cps: Seq<Checkpoint>, seq: u32, power: i128) -> Seq<Checkpoint> {
    if cps.len() > 0 && cps.last().seq == seq {
        cps.drop_last().push(Checkpoint { seq, power })
    } else {
        cps.push(Checkpoint { seq, power })
    }
}

/// Where the search for sequence `s` ends: `Ok(i)` where entry `i` is at
/// `s`, else `Err(i)` with `i` the place where `s` would be inserted.
pub open spec fn search_result(cps: Seq<Checkpoint>, s: u32, r: Result<usize, usize>) -> bool {
    match r {
        Ok(i) => i < cps.len() && cps[i as int].seq == s,
        Err(i) => i <= cps.len() && (forall|j: int| 0 <= j < i ==> cps[j].seq < s) && (forall|j: int|
            i <= j < cps.len() ==> cps[j].seq > s),
    }
}

/// If entry `k` is the last one at or before `s` (or `k == -1` and none is),
/// the power in effect at `s` is what entry `k` recorded (or 0).
pub proof fn lemma_power_in_effect(cps: Seq<Checkpoint>, s: u32, k: int)
    requires
        strictly_increasing(cps),
        -1 <= k < cps.len(),
        k >= 0 ==> cps[k].seq <= s,
        forall|j: int| k < j < cps.len() ==> cps[j].seq > s,
    ensures
        power_in_effect(cps, s) == if k < 0 {
            0
        } else {
            cps[k].power as int
        },
    decreases cps.len(),
{
    if cps.len() > 0 && k < cps.len() - 1 {
        lemma_power_in_effect(cps.drop_last(), s, k);
    }
}

/// Before an account's first recorded change its power was 0.
pub proof fn lemma_zero_before_first(cps: Seq<Checkpoint>, s: u32)
    requires
        strictly_increasing(cps),
        cps.len() == 0 || s < cps[0].seq,
    ensures
        power_in_effect(cps, s) == 0,
{
    lemma_power_in_effect(cps, s, -1);
}

/// Recording a change at a sequence at or after every checkpoint keeps the
/// history strictly increasing and bounded by that sequence.
pub proof fn lemma_recorded_increasing(cps: Seq<Checkpoint>, seq: u32, power: i128)
    requires
        strictly_increasing(cps),
        all_at_or_before(cps, seq),
    ensures
        strictly_increasing(recorded(cps, seq, power)),
        all_at_or_before(recorded(cps, seq, power), seq),
        power_in_effect(recorded(cps, seq, power), seq) == power as int,
{
    let r = recorded(cps, seq, power);
    if cps.len() > 0 && cps.last().seq == seq {
        assert(r.drop_last() == cps.drop_last());
    } else {
        assert(r.drop_last() == cps);
    }
}

/// Binary search for sequence `s` in a strictly increasing history.
pub fn search(cps: &Vec<Checkpoint>, s: u32) -> (r: Result<usize, usize>)
    requires
        strictly_increasing(cps@),
    ensures
        search_result(cps@, s, r),
{
    let mut lo: usize = 0;
    let mut hi: usize = cps.len();
    while lo < hi
        invariant
            lo <= hi <= cps.len(),
            strictly_increasing(cps@),
            forall|j: int| 0 <= j < lo ==> cps@[j].seq < s,
            forall|j: int| hi <= j < cps.len() ==> cps@[j].seq > s,
        decreases hi - lo,
    {
        let mid = lo + (hi - lo) / 2;
        let at = cps[mid].seq;
        if at == s {
            return Ok(mid);
        } else if at < s {
            lo = mid + 1;
        } else {
            hi = mid;
        }
    }
    Err(lo)
}

/// The power in effect at sequence `s`, found by binary search: the exact
/// checkpoint if there is one at `s`, else the one just before the place
/// where `s` would be inserted, else 0.
pub fn power_at_or_before(cps: &Vec<Checkpoint>, s: u32) -> (r: i128)
    requires
        strictly_increasing(cps@),
    ensures
        r as int == power_in_effect(cps@, s),
{
    if cps.len() == 0 {
        return 0;
    }
    match search(cps, s) {
        Ok(i) => {
            proof {
                lemma_power_in_effect(cps@, s, i as int);
            }
            cps[i].power
        },
        Err(i) => {
            proof {
                lemma_power_in_effect(cps@, s, i as int - 1);
            }
            if i == 0 {
                0
            } else {
                cps[i - 1].power
            }
        },
    }
}

/// Records power `power` at sequence `seq`, overwriting a checkpoint already
/// at `seq` rather than adding a second one.
pub fn record(cps: &mut Vec<Checkpoint>, seq: u32, power: i128)
    requires
        strictly_increasing(old(cps)@),
        all_at_or_before(old(cps)@, seq),
    ensures
        final(cps)@ == recorded(old(cps)@, seq, power),
        strictly_increasing(final(cps)@),
        all_at_or_before(final(cps)@, seq),
{
    proof {
        lemma_recorded_increasing(cps@, seq, power);
    }
    let n = cps.len();
    if n > 0 && cps[n - 1].seq == seq {
        cps.set(n - 1, Checkpoint { seq, power });
        assert(cps@ == recorded(old(cps)@, seq, power));
    } else {
        cps.push(Checkpoint { seq, power });
    }
}

} // verus!
