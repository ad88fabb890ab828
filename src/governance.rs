//! The governance engine: settings, proposal creation, voting on the power
//! each voter had when a proposal was created, and one-time execution.
use std::collections::HashSet;
use vstd::prelude::*;

use crate::checkpoints::power_in_effect;
use crate::errors::ContractError;
use crate::proposal::{
    add_vote, external_calls, instr_views, nonneg_votes, select_external, tally, Proposal,
    ProposalInstr, VoteKind, VotesCount,
};
use crate::token::{lemma_pair_key_injective, make_pair_key, pair_key, AccountId, Token};

verus! {

broadcast use vstd::std_specs::hash::group_hash_axioms;

/// The governance settings, fixed at initialization.
#[derive(Copy, Clone, Debug, PartialEq, Eq, Structural)]
pub struct Settings {
    /// Least time, in seconds, between a proposal's creation and its deadline.
    pub min_prop_duration: u32,
    /// Percentage of participation a proposal is meant to reach (0 to 100).
    pub min_quorum_percent: u32,
    /// Least current voting power an account needs to propose.
    pub min_prop_power: i128,
}

/// A proposal together with the ledger sequence at which it was created.
#[derive(Debug)]
pub struct ProposalExtra {
    pub proposal: Proposal,
    pub start_seq: u32,
}

/// A tally with no votes.
pub open spec fn no_votes() -> VotesCount {
    VotesCount { v_for: 0, v_against: 0, v_abstain: 0 }
}

/// The governance contract's state. Proposal `i` is the `i`-th created; its
/// start sequence, executed flag and tally stand at index `i` too.
pub struct DaoContract {
    token_id: AccountId,
    settings: Option<Settings>,
    proposals: Vec<Proposal>,
    start_seqs: Vec<u32>,
    executed: Vec<bool>,
    tallies: Vec<VotesCount>,
    voted: HashSet<u128>,
}

/// The error `c_prop` gives on `d` for a proposal with deadline `end_time`,
/// made at time `now` by an account of current power `power`, checked in
/// this order, or `None` where it succeeds.
pub open spec fn create_error(d: DaoContract, power: int, end_time: u64, now: u64) -> Option<ContractError> {
    match d.settings_of() {
        None => Some(ContractError::NotInit),
        Some(s) => if (end_time as int - now as int) < (s.min_prop_duration as int) {
            Some(ContractError::MinDurationNotSatisfied)
        } else if power < s.min_prop_power as int {
            Some(ContractError::NotEnoughPower)
        } else if d.proposals_of().len() >= u32::MAX {
            Some(ContractError::Overflow)
        } else {
            None
        },
    }
}

/// The weight of `voter`'s vote on proposal `prop_id`: its power at the
/// proposal's start sequence.
pub open spec fn vote_weight(d: DaoContract, token: Token, voter: u64, prop_id: u32) -> int {
    power_in_effect(token.history(voter), d.start_seqs_of()[prop_id as int])
}

/// The error a vote of kind `kind` by `voter` on `prop_id` at time `now`
/// gives on `d`, checked in this order, or `None` where it succeeds.
pub open spec fn vote_error(
    d: DaoContract,
    token: Token,
    voter: u64,
    prop_id: u32,
    kind: VoteKind,
    now: u64,
) -> Option<ContractError> {
    if prop_id >= d.proposals_of().len() {
        Some(ContractError::InvalidProposalId)
    } else if d.has_voted(prop_id, voter) {
        Some(ContractError::AlreadyVoted)
    } else if now >= d.proposals_of()[prop_id as int].end_time {
        Some(ContractError::PropDeadlinePassed)
    } else if tally(d.tallies_of()[prop_id as int], kind) + vote_weight(d, token, voter, prop_id)
        > i128::MAX {
        Some(ContractError::Overflow)
    } else {
        None
    }
}

/// The error `execute(prop_id)` at time `now` gives on `d`, checked in this
/// order, or `None` where it succeeds.
pub open spec fn execute_error(d: DaoContract, prop_id: u32, now: u64) -> Option<ContractError> {
    if prop_id >= d.proposals_of().len() {
        Some(ContractError::InvalidProposalId)
    } else if d.executed_of()[prop_id as int] {
        Some(ContractError::AlreadyExecuted)
    } else if now < d.proposals_of()[prop_id as int].end_time {
        Some(ContractError::TooEarlyToExecute)
    } else if d.tallies_of()[prop_id as int].v_for <= d.tallies_of()[prop_id as int].v_against {
        Some(ContractError::ForVotesLessThanAgainstVotes)
    } else {
        None
    }
}

/// `after` is `before` with proposal `prop_id` marked executed and all else
/// as it was.
pub open spec fn executed_step(before: DaoContract, after: DaoContract, prop_id: u32) -> bool {
    &&& after.settings_of() == before.settings_of()
    &&& after.token_of() == before.token_of()
    &&& after.proposals_of() == before.proposals_of()
    &&& after.start_seqs_of() == before.start_seqs_of()
    &&& after.tallies_of() == before.tallies_of()
    &&& after.executed_of() == before.executed_of().update(prop_id as int, true)
    &&& forall|p: u32, v: u64| #[trigger] after.has_voted(p, v) == before.has_voted(p, v)
}

/// `after` is `before` once `voter` has cast a vote of kind `kind` on
/// `prop_id`: the vote's weight is added to that bucket, the voter is
/// recorded, and all else is as it was.
pub open spec fn voted_step(
    before: DaoContract,
    after: DaoContract,
    token: Token,
    voter: u64,
    prop_id: u32,
    kind: VoteKind,
) -> bool {
    &&& after.settings_of() == before.settings_of()
    &&& after.token_of() == before.token_of()
    &&& after.proposals_of() == before.proposals_of()
    &&& after.start_seqs_of() == before.start_seqs_of()
    &&& after.executed_of() == before.executed_of()
    &&& after.tallies_of() == before.tallies_of().update(
        prop_id as int,
        add_vote(before.tallies_of()[prop_id as int], kind, vote_weight(before, token, voter, prop_id)),
    )
    &&& forall|p: u32, v: u64| #[trigger]
        after.has_voted(p, v) == (before.has_voted(p, v) || (p == prop_id && v == voter))
}

/// What a vote of kind `kind` by `voter` on `prop_id` at time `now` does:
/// it succeeds and counts, or fails with the error `vote_error` gives and
/// changes nothing.
pub open spec fn vote_outcome(
    before: DaoContract,
    after: DaoContract,
    token: Token,
    voter: u64,
    prop_id: u32,
    kind: VoteKind,
    now: u64,
    r: Result<(), ContractError>,
) -> bool {
    match r {
        Ok(()) => vote_error(before, token, voter, prop_id, kind, now) == None::<ContractError>
            && voted_step(before, after, token, voter, prop_id, kind),
        Err(e) => vote_error(before, token, voter, prop_id, kind, now) == Some(e) && after == before,
    }
}

/// Once executed, a proposal stays executed: every later `execute` of it
/// fails with `AlreadyExecuted`, whatever the time.
pub proof fn lemma_executed_is_terminal(d: DaoContract, prop_id: u32, now: u64)
    requires
        prop_id < d.proposals_of().len(),
        d.executed_of()[prop_id as int],
    ensures
        execute_error(d, prop_id, now) == Some(ContractError::AlreadyExecuted),
{
}

/// After a successful `execute` of a proposal, executing it again fails
/// with `AlreadyExecuted` and so dispatches nothing.
pub proof fn lemma_execute_once(before: DaoContract, after: DaoContract, prop_id: u32, now: u64, later: u64)
    requires
        before.wf(),
        execute_error(before, prop_id, now) == None::<ContractError>,
        executed_step(before, after, prop_id),
    ensures
        execute_error(after, prop_id, later) == Some(ContractError::AlreadyExecuted),
{
    before.lemma_wf();
}

/// After a successful vote, a second vote by the same voter on the same
/// proposal fails with `AlreadyVoted`, whatever its kind and time.
pub proof fn lemma_vote_once(
    before: DaoContract,
    after: DaoContract,
    token: Token,
    voter: u64,
    prop_id: u32,
    kind: VoteKind,
    now: u64,
    token2: Token,
    kind2: VoteKind,
    later: u64,
)
    requires
        before.wf(),
        vote_error(before, token, voter, prop_id, kind, now) == None::<ContractError>,
        voted_step(before, after, token, voter, prop_id, kind),
    ensures
        vote_error(after, token2, voter, prop_id, kind2, later) == Some(ContractError::AlreadyVoted),
{
    assert(after.has_voted(prop_id, voter));
}

impl DaoContract {
    /// The settings, once initialized.
    pub closed spec fn settings_of(self) -> Option<Settings> {
        self.settings
    }

    /// The token contract whose voting power counts.
    pub closed spec fn token_of(self) -> AccountId {
        self.token_id
    }

    /// The proposals, by id.
    pub closed spec fn proposals_of(self) -> Seq<Proposal> {
        self.proposals@
    }

    /// The ledger sequence at which each proposal was created, by id.
    pub closed spec fn start_seqs_of(self) -> Seq<u32> {
        self.start_seqs@
    }

    /// Whether each proposal has been executed, by id.
    pub closed spec fn executed_of(self) -> Seq<bool> {
        self.executed@
    }

    /// The votes on each proposal, by id.
    pub closed spec fn tallies_of(self) -> Seq<VotesCount> {
        self.tallies@
    }

    /// Whether `voter` has voted on proposal `prop_id`.
    pub closed spec fn has_voted(self, prop_id: u32, voter: u64) -> bool {
        self.voted@.contains(pair_key(prop_id as u64, voter))
    }

    /// One entry per proposal in each list, ids fit in `u32`, and every
    /// tally is non-negative.
    pub closed spec fn wf(self) -> bool {
        &&& self.proposals@.len() <= u32::MAX
        &&& self.start_seqs@.len() == self.proposals@.len()
        &&& self.executed@.len() == self.proposals@.len()
        &&& self.tallies@.len() == self.proposals@.len()
        &&& forall|i: int| 0 <= i < self.tallies@.len() ==> nonneg_votes(#[trigger] self.tallies@[i])
    }

    /// What `wf` gives a reader of the contract.
    pub proof fn lemma_wf(self)
        requires
            self.wf(),
        ensures
            self.proposals_of().len() <= u32::MAX,
            self.start_seqs_of().len() == self.proposals_of().len(),
            self.executed_of().len() == self.proposals_of().len(),
            self.tallies_of().len() == self.proposals_of().len(),
            forall|i: int|
                0 <= i < self.tallies_of().len() ==> nonneg_votes(#[trigger] self.tallies_of()[i]),
    {
    }

    /// A contract that is not yet initialized and holds no proposal.
    pub fn new() -> (r: DaoContract)
        ensures
            r.wf(),
            r.settings_of() == None::<Settings>,
            r.proposals_of().len() == 0,
            r.start_seqs_of().len() == 0,
            r.executed_of().len() == 0,
            r.tallies_of().len() == 0,
            forall|p: u32, v: u64| !(#[trigger] r.has_voted(p, v)),
    {
        DaoContract {
            token_id: 0,
            settings: None,
            proposals: Vec::new(),
            start_seqs: Vec::new(),
            executed: Vec::new(),
            tallies: Vec::new(),
            voted: HashSet::new(),
        }
    }

    /// Sets the token contract and the settings, once.
    pub fn init(
        &mut self,
        dao_token_id: AccountId,
        min_prop_duration: u32,
        min_quorum_percent: u32,
        min_prop_power: i128,
    ) -> (r: Result<(), ContractError>)
        requires
            old(self).wf(),
        ensures
            final(self).wf(),
            match r {
                Ok(()) => old(self).settings_of() == None::<Settings> && final(self).settings_of()
                    == Some(Settings { min_prop_duration, min_quorum_percent, min_prop_power })
                    && final(self).token_of() == dao_token_id && final(self).proposals_of()
                    == old(self).proposals_of() && final(self).start_seqs_of()
                    == old(self).start_seqs_of() && final(self).executed_of()
                    == old(self).executed_of() && final(self).tallies_of()
                    == old(self).tallies_of() && (forall|p: u32, v: u64| #[trigger]
                    final(self).has_voted(p, v) == old(self).has_voted(p, v)),
                Err(e) => e == ContractError::AlreadyInitialized && old(self).settings_of() is Some
                    && *final(self) == *old(self),
            },
    {
        if self.settings.is_some() {
            return Err(ContractError::AlreadyInitialized);
        }
        self.token_id = dao_token_id;
        self.settings = Some(Settings { min_prop_duration, min_quorum_percent, min_prop_power });
        Ok(())
    }

    /// The token contract whose voting power counts, once initialized.
    pub fn dao_token(&self) -> (r: Result<AccountId, ContractError>)
        ensures
            match self.settings_of() {
                None => r == Err::<AccountId, ContractError>(ContractError::NotInit),
                Some(_) => r == Ok::<AccountId, ContractError>(self.token_of()),
            },
    {
        match self.settings {
            None => Err(ContractError::NotInit),
            Some(_) => Ok(self.token_id),
        }
    }

    /// The least duration of a proposal, once initialized.
    pub fn min_dur(&self) -> (r: Result<u32, ContractError>)
        ensures
            match self.settings_of() {
                None => r == Err::<u32, ContractError>(ContractError::NotInit),
                Some(s) => r == Ok::<u32, ContractError>(s.min_prop_duration),
            },
    {
        match self.settings {
            None => Err(ContractError::NotInit),
            Some(s) => Ok(s.min_prop_duration),
        }
    }

    /// The quorum percentage, once initialized.
    pub fn quorum(&self) -> (r: Result<u32, ContractError>)
        ensures
            match self.settings_of() {
                None => r == Err::<u32, ContractError>(ContractError::NotInit),
                Some(s) => r == Ok::<u32, ContractError>(s.min_quorum_percent),
            },
    {
        match self.settings {
            None => Err(ContractError::NotInit),
            Some(s) => Ok(s.min_quorum_percent),
        }
    }

    /// The least power needed to propose, once initialized.
    pub fn min_prop_p(&self) -> (r: Result<i128, ContractError>)
        ensures
            match self.settings_of() {
                None => r == Err::<i128, ContractError>(ContractError::NotInit),
                Some(s) => r == Ok::<i128, ContractError>(s.min_prop_power),
            },
    {
        match self.settings {
            None => Err(ContractError::NotInit),
            Some(s) => Ok(s.min_prop_power),
        }
    }

    /// Whether proposal `prop_id` has been executed; false for an unknown id.
    pub fn is_executed(&self, prop_id: u32) -> (r: bool)
        requires
            self.wf(),
        ensures
            r == (prop_id < self.proposals_of().len() && self.executed_of()[prop_id as int]),
    {
        let i = prop_id as usize;
        i < self.executed.len() && self.executed[i]
    }

    /// Creates proposal `proposal` on behalf of `from` at time `now` and
    /// ledger sequence `seq`, and returns its id. `from` needs at least the
    /// least proposing power now, and the deadline must lie at least the
    /// least duration after `now`.
    pub fn c_prop(
        &mut self,
        token: &Token,
        from: AccountId,
        proposal: Proposal,
        now: u64,
        seq: u32,
    ) -> (r: Result<u32, ContractError>)
        requires
            old(self).wf(),
            token.wf(),
        ensures
            final(self).wf(),
            match r {
                Ok(id) => create_error(*old(self), token.power_of(from), proposal.end_time, now)
                    == None::<ContractError> && id == old(self).proposals_of().len()
                    && final(self).proposals_of() == old(self).proposals_of().push(proposal)
                    && final(self).start_seqs_of() == old(self).start_seqs_of().push(seq)
                    && final(self).executed_of() == old(self).executed_of().push(false)
                    && final(self).tallies_of() == old(self).tallies_of().push(no_votes())
                    && final(self).settings_of() == old(self).settings_of() && final(self).token_of()
                    == old(self).token_of() && (forall|p: u32, v: u64| #[trigger]
                    final(self).has_voted(p, v) == old(self).has_voted(p, v)),
                Err(e) => create_error(*old(self), token.power_of(from), proposal.end_time, now)
                    == Some(e) && *final(self) == *old(self),
            },
    {
        let s = match self.settings {
            None => {
                return Err(ContractError::NotInit);
            },
            Some(s) => s,
        };
        if proposal.end_time < now || proposal.end_time - now < s.min_prop_duration as u64 {
            return Err(ContractError::MinDurationNotSatisfied);
        }
        if token.power(from) < s.min_prop_power {
            return Err(ContractError::NotEnoughPower);
        }
        let id = self.proposals.len();
        if id >= u32::MAX as usize {
            return Err(ContractError::Overflow);
        }
        self.proposals.push(proposal);
        self.start_seqs.push(seq);
        self.executed.push(false);
        self.tallies.push(VotesCount { v_for: 0, v_against: 0, v_abstain: 0 });
        Ok(id as u32)
    }

    /// Counts the vote of kind `kind` of `from` on `prop_id` at time `now`,
    /// with the power `from` had at the proposal's start sequence.
    fn cast(&mut self, token: &Token, from: AccountId, prop_id: u32, kind: VoteKind, now: u64) -> (r: Result<(), ContractError>)
        requires
            old(self).wf(),
            token.wf(),
        ensures
            final(self).wf(),
            vote_outcome(*old(self), *final(self), *token, from, prop_id, kind, now, r),
    {
        let i = prop_id as usize;
        if i >= self.proposals.len() {
            return Err(ContractError::InvalidProposalId);
        }
        let key = make_pair_key(prop_id as u64, from);
        if self.voted.contains(&key) {
            return Err(ContractError::AlreadyVoted);
        }
        if now >= self.proposals[i].end_time {
            return Err(ContractError::PropDeadlinePassed);
        }
        let w = token.power_at(from, self.start_seqs[i]);
        let t = self.tallies[i];
        let updated = match kind {
            VoteKind::For => {
                if t.v_for > i128::MAX - w {
                    return Err(ContractError::Overflow);
                }
                VotesCount { v_for: t.v_for + w, ..t }
            },
            VoteKind::Against => {
                if t.v_against > i128::MAX - w {
                    return Err(ContractError::Overflow);
                }
                VotesCount { v_against: t.v_against + w, ..t }
            },
            VoteKind::Abstain => {
                if t.v_abstain > i128::MAX - w {
                    return Err(ContractError::Overflow);
                }
                VotesCount { v_abstain: t.v_abstain + w, ..t }
            },
        };
        self.tallies.set(i, updated);
        self.voted.insert(key);
        proof {
            assert forall|p: u32, v: u64| #[trigger]
                self.has_voted(p, v) == (old(self).has_voted(p, v) || (p == prop_id && v == from)) by {
                if pair_key(p as u64, v) == pair_key(prop_id as u64, from) {
                    lemma_pair_key_injective(p as u64, v, prop_id as u64, from);
                }
            }
        }
        Ok(())
    }

    /// `from` votes for proposal `prop_id` at time `now`.
    pub fn vote_for(&mut self, token: &Token, from: AccountId, prop_id: u32, now: u64) -> (r: Result<(), ContractError>)
        requires
            old(self).wf(),
            token.wf(),
        ensures
            final(self).wf(),
            vote_outcome(*old(self), *final(self), *token, from, prop_id, VoteKind::For, now, r),
    {
        self.cast(token, from, prop_id, VoteKind::For, now)
    }

    /// `from` votes against proposal `prop_id` at time `now`.
    pub fn v_against(&mut self, token: &Token, from: AccountId, prop_id: u32, now: u64) -> (r: Result<(), ContractError>)
        requires
            old(self).wf(),
            token.wf(),
        ensures
            final(self).wf(),
            vote_outcome(*old(self), *final(self), *token, from, prop_id, VoteKind::Against, now, r),
    {
        self.cast(token, from, prop_id, VoteKind::Against, now)
    }

    /// `from` abstains on proposal `prop_id` at time `now`.
    pub fn v_abstain(&mut self, token: &Token, from: AccountId, prop_id: u32, now: u64) -> (r: Result<(), ContractError>)
        requires
            old(self).wf(),
            token.wf(),
        ensures
            final(self).wf(),
            vote_outcome(*old(self), *final(self), *token, from, prop_id, VoteKind::Abstain, now, r),
    {
        self.cast(token, from, prop_id, VoteKind::Abstain, now)
    }

    /// Executes proposal `prop_id` at time `now`, once its deadline has
    /// passed and it has more votes for than against, and marks it executed.
    /// Returns the instructions to dispatch, in order: those whose target is
    /// not this contract (`self_id`); instructions addressed to this contract
    /// itself are reserved for settings changes and have no effect. The
    /// quorum setting is stored but not checked here.
    pub fn execute(&mut self, prop_id: u32, now: u64, self_id: AccountId) -> (r: Result<Vec<ProposalInstr>, ContractError>)
        requires
            old(self).wf(),
        ensures
            final(self).wf(),
            match r {
                Ok(calls) => execute_error(*old(self), prop_id, now) == None::<ContractError>
                    && executed_step(*old(self), *final(self), prop_id) && instr_views(calls@)
                    == external_calls(instr_views(old(self).proposals_of()[prop_id as int].instr@), self_id),
                Err(e) => execute_error(*old(self), prop_id, now) == Some(e) && *final(self) == *old(self),
            },
    {
        let i = prop_id as usize;
        if i >= self.proposals.len() {
            return Err(ContractError::InvalidProposalId);
        }
        if self.executed[i] {
            return Err(ContractError::AlreadyExecuted);
        }
        if now < self.proposals[i].end_time {
            return Err(ContractError::TooEarlyToExecute);
        }
        if self.tallies[i].v_for <= self.tallies[i].v_against {
            return Err(ContractError::ForVotesLessThanAgainstVotes);
        }
        let calls = select_external(&self.proposals[i].instr, self_id);
        self.executed.set(i, true);
        Ok(calls)
    }

    /// Proposal `prop_id` and the ledger sequence at which it was created.
    pub fn proposal(&self, prop_id: u32) -> (r: Result<ProposalExtra, ContractError>)
        requires
            self.wf(),
        ensures
            match r {
                Ok(e) => prop_id < self.proposals_of().len() && e.proposal@
                    == self.proposals_of()[prop_id as int]@ && e.start_seq
                    == self.start_seqs_of()[prop_id as int],
                Err(e) => e == ContractError::InvalidProposalId && prop_id >= self.proposals_of().len(),
            },
    {
        let i = prop_id as usize;
        if i >= self.proposals.len() {
            return Err(ContractError::InvalidProposalId);
        }
        Ok(ProposalExtra { proposal: self.proposals[i].duplicate(), start_seq: self.start_seqs[i] })
    }

    /// The votes on proposal `prop_id`; none for an unknown id.
    pub fn votes(&self, prop_id: u32) -> (r: VotesCount)
        requires
            self.wf(),
        ensures
            r == if prop_id < self.proposals_of().len() {
                self.tallies_of()[prop_id as int]
            } else {
                no_votes()
            },
            nonneg_votes(r),
    {
        let i = prop_id as usize;
        if i < self.tallies.len() {
            self.tallies[i]
        } else {
            VotesCount { v_for: 0, v_against: 0, v_abstain: 0 }
        }
    }

}

} // verus!
