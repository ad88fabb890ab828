//! Proposals: a deadline and an ordered list of instructions, each a named
//! call with arguments on a target contract; and the tally of their votes.
use vstd::prelude::*;

use crate::token::AccountId;

verus! {

/// An instruction as a value: target, function name and arguments.
pub type InstrView = (u64, Seq<char>, Seq<u64>);

/// One instruction of a proposal: call `fun_name` on contract `c_id` with
/// `args`, each argument a host value in its 64-bit encoding.
#[derive(Debug)]
pub struct ProposalInstr {
    pub c_id: AccountId,
    pub fun_name: String,
    pub args: Vec<u64>,
}

impl View for ProposalInstr {
    type V = InstrView;

    open spec fn view(&self) -> InstrView {
        (self.c_id, self.fun_name@, self.args@)
    }
}

/// The values of a list of instructions.
pub open spec fn instr_views(v: Seq<ProposalInstr>) -> Seq<InstrView> {
    v.map_values(|i: ProposalInstr| i@)
}

/// The instructions of `instrs` whose target is not `self_id`, in order:
/// those the governance contract forwards to other contracts.
pub open spec fn external_calls(instrs: Seq<InstrView>, self_id: u64) -> Seq<InstrView>
    decreases instrs.len(),
{
    if instrs.len() == 0 {
        Seq::empty()
    } else {
        let rest = external_calls(instrs.drop_last(), self_id);
        if instrs.last().0 == self_id {
            rest
        } else {
            rest.push(instrs.last())
        }
    }
}

impl ProposalInstr {
    /// A copy of this instruction.
    pub fn duplicate(&self) -> (r: ProposalInstr)
        ensures
            r@ == self@,
    {
        let mut args: Vec<u64> = Vec::new();
        let mut i: usize = 0;
        while i < self.args.len()
            invariant
                i <= self.args.len(),
                args@ == self.args@.subrange(0, i as int),
            decreases self.args.len() - i,
        {
            args.push(self.args[i]);
            i = i + 1;
            proof {
                assert(args@ =~= self.args@.subrange(0, i as int));
            }
        }
        proof {
            assert(args@ =~= self.args@);
        }
        ProposalInstr { c_id: self.c_id, fun_name: self.fun_name.clone(), args }
    }
}

/// A proposal: its voting deadline (a timestamp) and the instructions that
/// run, in order, when it is executed.
#[derive(Debug)]
pub struct Proposal {
    pub end_time: u64,
    pub instr: Vec<ProposalInstr>,
}

impl View for Proposal {
    type V = (u64, Seq<InstrView>);

    open spec fn view(&self) -> (u64, Seq<InstrView>) {
        (self.end_time, instr_views(self.instr@))
    }
}

/// A copy of every instruction of `v`, in order.
fn copy_instrs(v: &Vec<ProposalInstr>) -> (r: Vec<ProposalInstr>)
    ensures
        instr_views(r@) == instr_views(v@),
{
    let mut out: Vec<ProposalInstr> = Vec::new();
    let mut i: usize = 0;
    while i < v.len()
        invariant
            i <= v.len(),
            out@.len() == i,
            forall|k: int| 0 <= k < i ==> #[trigger] out@[k]@ == v@[k]@,
        decreases v.len() - i,
    {
        out.push(v[i].duplicate());
        i = i + 1;
    }
    proof {
        assert(instr_views(out@) =~= instr_views(v@));
    }
    out
}

impl Proposal {
    /// A copy of this proposal.
    pub fn duplicate(&self) -> (r: Proposal)
        ensures
            r@ == self@,
    {
        Proposal { end_time: self.end_time, instr: copy_instrs(&self.instr) }
    }
}

/// The instructions of `instr` whose target is not `self_id`, copied, in
/// order.
pub fn select_external(instr: &Vec<ProposalInstr>, self_id: AccountId) -> (r: Vec<ProposalInstr>)
    ensures
        instr_views(r@) == external_calls(instr_views(instr@), self_id),
{
    let mut out: Vec<ProposalInstr> = Vec::new();
    let mut i: usize = 0;
    while i < instr.len()
        invariant
            i <= instr.len(),
            instr_views(out@) == external_calls(instr_views(instr@.subrange(0, i as int)), self_id),
        decreases instr.len() - i,
    {
        proof {
            let next = instr_views(instr@.subrange(0, i as int + 1));
            assert(next.drop_last() =~= instr_views(instr@.subrange(0, i as int)));
            assert(next.last() == instr@[i as int]@);
        }
        if instr[i].c_id != self_id {
            let c = instr[i].duplicate();
            let ghost before = out@;
            out.push(c);
            proof {
                assert(instr_views(out@) =~= instr_views(before).push(c@));
            }
        }
        i = i + 1;
    }
    proof {
        assert(instr@.subrange(0, instr.len() as int) =~= instr@);
    }
    out
}

/// The votes a proposal has received, by choice.
#[derive(Copy, Clone, Debug, PartialEq, Eq, Structural)]
pub struct VotesCount {
    pub v_for: i128,
    pub v_against: i128,
    pub v_abstain: i128,
}

/// A voter's choice.
#[derive(Copy, Clone, Debug, PartialEq, Eq, Structural)]
pub enum VoteKind {
    For,
    Against,
    Abstain,
}

/// The bucket of `v` that counts votes of kind `kind`.
pub open spec fn tally(v: VotesCount, kind: VoteKind) -> int {
    match kind {
        VoteKind::For => v.v_for as int,
        VoteKind::Against => v.v_against as int,
        VoteKind::Abstain => v.v_abstain as int,
    }
}

/// `v` with `w` added to the bucket of kind `kind`.
pub open spec fn add_vote(v: VotesCount, kind: VoteKind, w: int) -> VotesCount {
    match kind {
        VoteKind::For => VotesCount { v_for: (v.v_for + w) as i128, ..v },
        VoteKind::Against => VotesCount { v_against: (v.v_against + w) as i128, ..v },
        VoteKind::Abstain => VotesCount { v_abstain: (v.v_abstain + w) as i128, ..v },
    }
}

/// Every bucket of `v` is non-negative.
pub open spec fn nonneg_votes(v: VotesCount) -> bool {
    v.v_for >= 0 && v.v_against >= 0 && v.v_abstain >= 0
}

} // verus!
