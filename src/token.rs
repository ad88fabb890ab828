//! The DAO token's ledger: token balances, delegations between accounts, the
//! voting power that delegation grants, and each account's power history.
use std::collections::HashMap;
use vstd::prelude::*;

use crate::checkpoints::{
    all_at_or_before, lemma_zero_before_first, power_at_or_before,
    power_in_effect, record, recorded, strictly_increasing, Checkpoint,
};
use crate::errors::DaoError;

verus! {

broadcast use vstd::std_specs::hash::group_hash_axioms;

/// An account, as an opaque identity key.
pub type AccountId = u64;

/// Two to the sixty-fourth: the weight of the first account of a pair key.
pub const PAIR_SHIFT: u128 = 0x1_0000_0000_0000_0000;

/// The key under which a pair of accounts is stored.
pub open spec fn pair_key(a: u64, b: u64) -> u128 {
    (a as int * PAIR_SHIFT as int + b as int) as u128
}

/// Distinct pairs have distinct keys.
pub proof fn lemma_pair_key_injective(a: u64, b: u64, c: u64, d: u64)
    requires
        pair_key(a, b) == pair_key(c, d),
    ensures
        a == c && b == d,
{
    assert(a as int * PAIR_SHIFT as int + b as int == c as int * PAIR_SHIFT as int + d as int);
    if a < c {
        assert(a as int * PAIR_SHIFT as int + PAIR_SHIFT as int <= c as int * PAIR_SHIFT as int)
            by (nonlinear_arith)
            requires
                a < c,
        ;
    } else if c < a {
        assert(c as int * PAIR_SHIFT as int + PAIR_SHIFT as int <= a as int * PAIR_SHIFT as int)
            by (nonlinear_arith)
            requires
                c < a,
        ;
    }
}

/// Computes the key of a pair of accounts.
pub fn make_pair_key(a: u64, b: u64) -> (k: u128)
    ensures
        k == pair_key(a, b),
{
    assert(a as int * PAIR_SHIFT as int <= u64::MAX as int * PAIR_SHIFT as int) by (nonlinear_arith)
        requires
            a <= u64::MAX,
    ;
    (a as u128) * PAIR_SHIFT + (b as u128)
}

/// Every power a history records is non-negative.
pub open spec fn all_nonneg(cps: Seq<Checkpoint>) -> bool {
    forall|i: int| 0 <= i < cps.len() ==> cps[i].power >= 0
}

/// The power in effect at any sequence of a history of non-negative powers
/// is non-negative.
pub proof fn lemma_power_in_effect_nonneg(cps: Seq<Checkpoint>, s: u32)
    requires
        all_nonneg(cps),
    ensures
        power_in_effect(cps, s) >= 0,
    decreases cps.len(),
{
    if cps.len() > 0 && cps.last().seq > s {
        lemma_power_in_effect_nonneg(cps.drop_last(), s);
    }
}

/// The token contract's state. Delegating escrows tokens from the
/// delegator's balance and grants the same amount of voting power to the
/// delegate; only the delegate's power changes.
pub struct Token {
    balances: HashMap<u64, i128>,
    power: HashMap<u64, i128>,
    checkpoints: HashMap<u64, Vec<Checkpoint>>,
    delegated: HashMap<u128, i128>,
    latest_seq: u32,
}

/// The error `delegate(from, to, amount)` gives on `t`, checked in this
/// order, or `None` where it succeeds.
pub open spec fn delegate_error(t: Token, from: u64, to: u64, amount: i128) -> Option<DaoError> {
    if amount < 0 {
        Some(DaoError::CannotAddNegativePower)
    } else if t.balance_of(from) < amount {
        Some(DaoError::NotEnoughToken)
    } else if t.power_of(to) + amount > i128::MAX || t.delegated_of(from, to) + amount > i128::MAX {
        Some(DaoError::Overflow)
    } else {
        None
    }
}

/// The error `mint(to, amount)` gives on `t`, checked in this order, or
/// `None` where it succeeds.
pub open spec fn mint_error(t: Token, to: u64, amount: i128) -> Option<DaoError> {
    if amount < 0 {
        Some(DaoError::NegativeAmount)
    } else if t.balance_of(to) + amount > i128::MAX {
        Some(DaoError::Overflow)
    } else {
        None
    }
}

/// The error `r_delegate(from, to, amount)` gives on `t`, checked in this
/// order, or `None` where it succeeds.
pub open spec fn undelegate_error(t: Token, from: u64, to: u64, amount: i128) -> Option<DaoError> {
    if amount > t.delegated_of(from, to) {
        Some(DaoError::NotEnoughToken)
    } else if amount < 0 {
        Some(DaoError::CannotRemoveNegativePower)
    } else if t.power_of(to) < amount {
        Some(DaoError::PowerCannotBeNegative)
    } else if t.balance_of(from) + amount > i128::MAX {
        Some(DaoError::Overflow)
    } else {
        None
    }
}

/// `after` is `before` with `delta` added to the power of `to`, `delta`
/// added to the delegation from `from` to `to`, `-delta` added to the
/// balance of `from`, the new power of `to` recorded at `seq`, and all else
/// as it was.
pub open spec fn moved(before: Token, after: Token, from: u64, to: u64, delta: int, seq: u32) -> bool {
    &&& forall|a: u64| #[trigger]
        after.balance_of(a) == if a == from {
            before.balance_of(a) - delta
        } else {
            before.balance_of(a)
        }
    &&& forall|a: u64| #[trigger]
        after.power_of(a) == if a == to {
            before.power_of(a) + delta
        } else {
            before.power_of(a)
        }
    &&& forall|f: u64, t: u64| #[trigger]
        after.delegated_of(f, t) == if f == from && t == to {
            before.delegated_of(f, t) + delta
        } else {
            before.delegated_of(f, t)
        }
    &&& forall|a: u64| #[trigger]
        after.history(a) == if a == to {
            recorded(before.history(a), seq, (before.power_of(a) + delta) as i128)
        } else {
            before.history(a)
        }
    &&& after.last_seq() == seq
}

/// `after` is `before` after a successful `delegate(from, to, amount)` at `seq`.
pub open spec fn delegated_step(before: Token, after: Token, from: u64, to: u64, amount: i128, seq: u32) -> bool {
    moved(before, after, from, to, amount as int, seq)
}

/// `after` is `before` after a successful `r_delegate(from, to, amount)` at `seq`.
pub open spec fn undelegated_step(before: Token, after: Token, from: u64, to: u64, amount: i128, seq: u32) -> bool {
    moved(before, after, from, to, -amount, seq)
}

/// At any sequence before an account's first recorded change, its power was 0.
pub proof fn lemma_power_at_before_first(t: Token, a: u64, s: u32)
    requires
        t.wf(),
        t.history(a).len() == 0 || s < t.history(a)[0].seq,
    ensures
        power_in_effect(t.history(a), s) == 0,
{
    t.lemma_wf();
    lemma_zero_before_first(t.history(a), s);
}

/// No account's history holds two checkpoints at the same sequence.
pub proof fn lemma_history_distinct(t: Token, a: u64)
    requires
        t.wf(),
    ensures
        forall|i: int, j: int|
            0 <= i < t.history(a).len() && 0 <= j < t.history(a).len() && i != j
                ==> #[trigger] t.history(a)[i].seq != #[trigger] t.history(a)[j].seq,
{
    t.lemma_wf();
    let h = t.history(a);
    assert forall|i: int, j: int|
        0 <= i < h.len() && 0 <= j < h.len() && i != j implies #[trigger] h[i].seq != #[trigger] h[j].seq by {
        if i < j {
            assert(h[i].seq < h[j].seq);
        } else {
            assert(h[j].seq < h[i].seq);
        }
    }
}

/// Delegating `amount` from `from` to `to` and then taking back the same
/// amount succeeds, and restores every balance, every voting power and every
/// delegation record to what it was before.
pub proof fn lemma_delegate_round_trip(
    before: Token,
    mid: Token,
    after: Token,
    from: u64,
    to: u64,
    amount: i128,
    s1: u32,
    s2: u32,
)
    requires
        before.wf(),
        delegate_error(before, from, to, amount) == None::<DaoError>,
        delegated_step(before, mid, from, to, amount, s1),
        undelegated_step(mid, after, from, to, amount, s2),
    ensures
        undelegate_error(mid, from, to, amount) == None::<DaoError>,
        forall|a: u64| #[trigger] after.balance_of(a) == before.balance_of(a),
        forall|a: u64| #[trigger] after.power_of(a) == before.power_of(a),
        forall|f: u64, t: u64| #[trigger] after.delegated_of(f, t) == before.delegated_of(f, t),
{
    before.lemma_wf();
    assert(mid.delegated_of(from, to) == before.delegated_of(from, to) + amount);
    assert(mid.power_of(to) == before.power_of(to) + amount);
    assert(mid.balance_of(from) == before.balance_of(from) - amount);
}

impl Token {
    /// The token balance of `a`; 0 if it never held any.
    pub closed spec fn balance_of(self, a: u64) -> int {
        if self.balances@.contains_key(a) {
            self.balances@[a] as int
        } else {
            0
        }
    }

    /// The current voting power of `a`; 0 if it never had any.
    pub closed spec fn power_of(self, a: u64) -> int {
        if self.power@.contains_key(a) {
            self.power@[a] as int
        } else {
            0
        }
    }

    /// The amount that `from` has delegated to `to` and not taken back.
    pub closed spec fn delegated_of(self, from: u64, to: u64) -> int {
        if self.delegated@.contains_key(pair_key(from, to)) {
            self.delegated@[pair_key(from, to)] as int
        } else {
            0
        }
    }

    /// The history of the power of `a`, oldest first.
    pub closed spec fn history(self, a: u64) -> Seq<Checkpoint> {
        if self.checkpoints@.contains_key(a) {
            self.checkpoints@[a]@
        } else {
            Seq::empty()
        }
    }

    /// The latest ledger sequence at which the ledger changed; no later call
    /// may come at an earlier one.
    pub closed spec fn last_seq(self) -> u32 {
        self.latest_seq
    }

    /// Balances, powers and delegations are non-negative; each history is
    /// strictly increasing, records non-negative powers, and lies at or
    /// before the latest sequence.
    pub closed spec fn wf(self) -> bool {
        &&& forall|a: u64| #[trigger] self.balances@.contains_key(a) ==> self.balances@[a] >= 0
        &&& forall|a: u64| #[trigger] self.power@.contains_key(a) ==> self.power@[a] >= 0
        &&& forall|k: u128| #[trigger] self.delegated@.contains_key(k) ==> self.delegated@[k] >= 0
        &&& forall|a: u64| #[trigger]
            self.checkpoints@.contains_key(a) ==> {
                &&& strictly_increasing(self.checkpoints@[a]@)
                &&& all_nonneg(self.checkpoints@[a]@)
                &&& all_at_or_before(self.checkpoints@[a]@, self.latest_seq)
            }
    }

    /// What `wf` gives a reader of the ledger.
    pub proof fn lemma_wf(self)
        requires
            self.wf(),
        ensures
            forall|a: u64| #[trigger] self.balance_of(a) >= 0,
            forall|a: u64| #[trigger] self.power_of(a) >= 0,
            forall|f: u64, t: u64| #[trigger] self.delegated_of(f, t) >= 0,
            forall|a: u64|
                {
                    &&& strictly_increasing(#[trigger] self.history(a))
                    &&& all_nonneg(self.history(a))
                    &&& all_at_or_before(self.history(a), self.last_seq())
                },
    {
    }

    /// An empty ledger: no balances, no power, no delegations.
    pub fn new() -> (r: Token)
        ensures
            r.wf(),
            r.last_seq() == 0,
            forall|a: u64| #[trigger] r.balance_of(a) == 0,
            forall|a: u64| #[trigger] r.power_of(a) == 0,
            forall|f: u64, t: u64| #[trigger] r.delegated_of(f, t) == 0,
            forall|a: u64| #[trigger] r.history(a) == Seq::<Checkpoint>::empty(),
    {
        Token {
            balances: HashMap::new(),
            power: HashMap::new(),
            checkpoints: HashMap::new(),
            delegated: HashMap::new(),
            latest_seq: 0,
        }
    }

    /// The latest ledger sequence at which the ledger changed.
    pub fn latest_sequence(&self) -> (r: u32)
        ensures
            r == self.last_seq(),
    {
        self.latest_seq
    }

    /// The token balance of `id`.
    pub fn balance(&self, id: AccountId) -> (r: i128)
        requires
            self.wf(),
        ensures
            r as int == self.balance_of(id),
            r >= 0,
    {
        match self.balances.get(&id) {
            Some(v) => *v,
            None => 0,
        }
    }

    /// The current voting power of `of`.
    pub fn power(&self, of: AccountId) -> (r: i128)
        requires
            self.wf(),
        ensures
            r as int == self.power_of(of),
            r >= 0,
    {
        match self.power.get(&of) {
            Some(v) => *v,
            None => 0,
        }
    }

    /// The voting power of `of` in effect at ledger sequence `at_block`.
    pub fn power_at(&self, of: AccountId, at_block: u32) -> (r: i128)
        requires
            self.wf(),
        ensures
            r as int == power_in_effect(self.history(of), at_block),
            r >= 0,
    {
        match self.checkpoints.get(&of) {
            Some(cps) => {
                proof {
                    lemma_power_in_effect_nonneg(cps@, at_block);
                }
                power_at_or_before(cps, at_block)
            },
            None => 0,
        }
    }

    /// The amount that `from` has delegated to `to`.
    pub fn get_d_a(&self, from: AccountId, to: AccountId) -> (r: i128)
        requires
            self.wf(),
        ensures
            r as int == self.delegated_of(from, to),
            r >= 0,
    {
        match self.delegated.get(&make_pair_key(from, to)) {
            Some(v) => *v,
            None => 0,
        }
    }

    /// Records the new power `power` of `of` at sequence `seq`.
    fn record_change(&mut self, of: AccountId, power: i128, seq: u32)
        requires
            old(self).wf(),
            old(self).last_seq() <= seq,
            power >= 0,
        ensures
            final(self).balances@ == old(self).balances@,
            final(self).power@ == old(self).power@,
            final(self).delegated@ == old(self).delegated@,
            final(self).checkpoints@ == old(self).checkpoints@.insert(of, final(self).checkpoints@[of]),
            final(self).history(of) == recorded(old(self).history(of), seq, power),
            final(self).latest_seq == seq,
            final(self).wf(),
    {
        let mut cps = match self.checkpoints.remove(&of) {
            Some(v) => v,
            None => Vec::new(),
        };
        proof {
            assert(cps@ == old(self).history(of));
        }
        record(&mut cps, seq, power);
        self.checkpoints.insert(of, cps);
        self.latest_seq = seq;
        proof {
            assert forall|a: u64| #[trigger] self.checkpoints@.contains_key(a) implies {
                &&& strictly_increasing(self.checkpoints@[a]@)
                &&& all_nonneg(self.checkpoints@[a]@)
                &&& all_at_or_before(self.checkpoints@[a]@, self.latest_seq)
            } by {
                if a != of {
                    assert(old(self).checkpoints@.contains_key(a));
                }
            }
        }
    }

    /// Adds `amount` new tokens to the balance of `to`.
    pub fn mint(&mut self, to: AccountId, amount: i128) -> (r: Result<(), DaoError>)
        requires
            old(self).wf(),
        ensures
            final(self).wf(),
            match r {
                Ok(()) => mint_error(*old(self), to, amount) == None::<DaoError> && (forall|a: u64| #[trigger]
                    final(self).balance_of(a) == if a == to {
                        old(self).balance_of(a) + amount
                    } else {
                        old(self).balance_of(a)
                    }) && (forall|a: u64| #[trigger] final(self).power_of(a) == old(self).power_of(a))
                    && (forall|f: u64, t: u64| #[trigger]
                    final(self).delegated_of(f, t) == old(self).delegated_of(f, t)) && (forall|a: u64|
                    #[trigger] final(self).history(a) == old(self).history(a)) && final(self).last_seq()
                    == old(self).last_seq(),
                Err(e) => mint_error(*old(self), to, amount) == Some(e) && *final(self) == *old(self),
            },
    {
        if amount < 0 {
            return Err(DaoError::NegativeAmount);
        }
        let bal = self.balance(to);
        if bal > i128::MAX - amount {
            return Err(DaoError::Overflow);
        }
        self.balances.insert(to, bal + amount);
        Ok(())
    }

    /// Escrows `amount` tokens of `from` and grants `to` as much voting
    /// power, at ledger sequence `seq`.
    pub fn delegate(&mut self, from: AccountId, to: AccountId, amount: i128, seq: u32) -> (r: Result<(), DaoError>)
        requires
            old(self).wf(),
            old(self).last_seq() <= seq,
        ensures
            final(self).wf(),
            match r {
                Ok(()) => delegate_error(*old(self), from, to, amount) == None::<DaoError>
                    && delegated_step(*old(self), *final(self), from, to, amount, seq),
                Err(e) => delegate_error(*old(self), from, to, amount) == Some(e) && *final(self)
                    == *old(self),
            },
    {
        if amount < 0 {
            return Err(DaoError::CannotAddNegativePower);
        }
        let bal = self.balance(from);
        if bal < amount {
            return Err(DaoError::NotEnoughToken);
        }
        let p = self.power(to);
        let d = self.get_d_a(from, to);
        if p > i128::MAX - amount || d > i128::MAX - amount {
            return Err(DaoError::Overflow);
        }
        let key = make_pair_key(from, to);
        self.balances.insert(from, bal - amount);
        self.power.insert(to, p + amount);
        self.delegated.insert(key, d + amount);
        self.record_change(to, p + amount, seq);
        proof {
            self.lemma_moved(*old(self), from, to, amount as int, seq);
        }
        Ok(())
    }

    /// Takes back `amount` of what `from` delegated to `to`: the power of
    /// `to` falls and the tokens return to `from`, at ledger sequence `seq`.
    pub fn r_delegate(&mut self, from: AccountId, to: AccountId, amount: i128, seq: u32) -> (r: Result<(), DaoError>)
        requires
            old(self).wf(),
            old(self).last_seq() <= seq,
        ensures
            final(self).wf(),
            match r {
                Ok(()) => undelegate_error(*old(self), from, to, amount) == None::<DaoError>
                    && undelegated_step(*old(self), *final(self), from, to, amount, seq),
                Err(e) => undelegate_error(*old(self), from, to, amount) == Some(e) && *final(self)
                    == *old(self),
            },
    {
        let d = self.get_d_a(from, to);
        if amount > d {
            return Err(DaoError::NotEnoughToken);
        }
        if amount < 0 {
            return Err(DaoError::CannotRemoveNegativePower);
        }
        let p = self.power(to);
        if p < amount {
            return Err(DaoError::PowerCannotBeNegative);
        }
        let bal = self.balance(from);
        if bal > i128::MAX - amount {
            return Err(DaoError::Overflow);
        }
        let key = make_pair_key(from, to);
        self.balances.insert(from, bal + amount);
        self.power.insert(to, p - amount);
        self.delegated.insert(key, d - amount);
        self.record_change(to, p - amount, seq);
        proof {
            self.lemma_moved(*old(self), from, to, -amount, seq);
        }
        Ok(())
    }

    /// The maps of `self` are those of `before` with the entries a transfer
    /// of `delta` from `from` to `to` writes, so the two are `moved` apart.
    proof fn lemma_moved(self, before: Token, from: u64, to: u64, delta: int, seq: u32)
        requires
            before.wf(),
            self.balances@ == before.balances@.insert(from, (before.balance_of(from) - delta) as i128),
            self.power@ == before.power@.insert(to, (before.power_of(to) + delta) as i128),
            self.delegated@ == before.delegated@.insert(
                pair_key(from, to),
                (before.delegated_of(from, to) + delta) as i128,
            ),
            forall|a: u64| a != to ==> #[trigger] self.history(a) == before.history(a),
            self.history(to) == recorded(before.history(to), seq, (before.power_of(to) + delta) as i128),
            self.latest_seq == seq,
            i128::MIN <= before.balance_of(from) - delta <= i128::MAX,
            i128::MIN <= before.power_of(to) + delta <= i128::MAX,
            i128::MIN <= before.delegated_of(from, to) + delta <= i128::MAX,
        ensures
            moved(before, self, from, to, delta, seq),
    {
        assert forall|f: u64, t: u64| #[trigger]
            self.delegated_of(f, t) == if f == from && t == to {
                before.delegated_of(f, t) + delta
            } else {
                before.delegated_of(f, t)
            } by {
            if pair_key(f, t) == pair_key(from, to) {
                lemma_pair_key_injective(f, t, from, to);
            }
        }
    }
}

} // verus!
