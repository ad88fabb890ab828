use dao::{ContractError, DaoContract, Proposal, ProposalInstr, Token, VotesCount};

const DAO_ID: u64 = 500;
const TOKEN_ID: u64 = 600;

fn instr(target: u64, name: &str, args: Vec<u64>) -> ProposalInstr {
    ProposalInstr { c_id: target, fun_name: name.to_string(), args }
}

/// Account 1 holds 100 tokens, all delegated to itself at sequence 0.
fn setup() -> (Token, DaoContract) {
    let mut token = Token::new();
    token.mint(1, 100).unwrap();
    token.delegate(1, 1, 100, 0).unwrap();
    let mut dao = DaoContract::new();
    dao.init(TOKEN_ID, 1, 0, 10).unwrap();
    (token, dao)
}

#[test]
fn proposal_lifecycle() {
    let (mut token, mut dao) = setup();
    let prop = Proposal { end_time: 10, instr: vec![instr(TOKEN_ID, "mint", vec![DAO_ID, 1, 100])] };
    let id = dao.c_prop(&token, 1, prop, 0, 1).unwrap();
    assert_eq!(id, 0);
    let extra = dao.proposal(id).unwrap();
    assert_eq!(extra.start_seq, 1);
    assert_eq!(extra.proposal.end_time, 10);
    assert_eq!(extra.proposal.instr.len(), 1);

    dao.vote_for(&token, 1, id, 5).unwrap();
    assert_eq!(dao.votes(id), VotesCount { v_for: 100, v_against: 0, v_abstain: 0 });
    assert_eq!(dao.vote_for(&token, 1, id, 6), Err(ContractError::AlreadyVoted));
    assert_eq!(dao.v_against(&token, 1, id, 6), Err(ContractError::AlreadyVoted));
    assert_eq!(dao.execute(id, 9, DAO_ID).map(|c| c.len()), Err(ContractError::TooEarlyToExecute));

    let calls = dao.execute(id, 10, DAO_ID).unwrap();
    assert_eq!(calls.len(), 1);
    assert_eq!(calls[0].fun_name, "mint");
    assert_eq!(calls[0].args, vec![DAO_ID, 1, 100]);
    assert!(dao.is_executed(id));
    assert_eq!(dao.execute(id, 20, DAO_ID).map(|c| c.len()), Err(ContractError::AlreadyExecuted));
    token.mint(calls[0].args[1], calls[0].args[2] as i128).unwrap();
    assert_eq!(token.balance(1), 100);
}

#[test]
fn weight_is_power_at_creation() {
    let (mut token, mut dao) = setup();
    token.mint(2, 50).unwrap();
    let id = dao.c_prop(&token, 1, Proposal { end_time: 100, instr: vec![] }, 0, 3).unwrap();
    token.delegate(2, 2, 50, 4).unwrap();
    dao.v_against(&token, 2, id, 1).unwrap();
    dao.v_abstain(&token, 1, id, 1).unwrap();
    assert_eq!(dao.votes(id), VotesCount { v_for: 0, v_against: 0, v_abstain: 100 });
}

#[test]
fn self_targeted_instructions_are_not_forwarded() {
    let (token, mut dao) = setup();
    let prop = Proposal {
        end_time: 5,
        instr: vec![
            instr(DAO_ID, "settings", vec![1]),
            instr(TOKEN_ID, "mint", vec![2]),
            instr(DAO_ID, "settings", vec![2]),
            instr(700, "other", vec![3, 4]),
        ],
    };
    let id = dao.c_prop(&token, 1, prop, 0, 0).unwrap();
    dao.vote_for(&token, 1, id, 1).unwrap();
    let calls = dao.execute(id, 5, DAO_ID).unwrap();
    assert_eq!(calls.len(), 2);
    assert_eq!(calls[0].c_id, TOKEN_ID);
    assert_eq!(calls[0].args, vec![2]);
    assert_eq!(calls[1].c_id, 700);
    assert_eq!(calls[1].fun_name, "other");
}

#[test]
fn uninitialized_contract_refuses() {
    let token = Token::new();
    let mut dao = DaoContract::new();
    assert_eq!(dao.min_dur(), Err(ContractError::NotInit));
    assert_eq!(dao.quorum(), Err(ContractError::NotInit));
    assert_eq!(dao.min_prop_p(), Err(ContractError::NotInit));
    assert_eq!(dao.dao_token(), Err(ContractError::NotInit));
    let r = dao.c_prop(&token, 1, Proposal { end_time: 10, instr: vec![] }, 0, 0);
    assert_eq!(r, Err(ContractError::NotInit));
}

#[test]
fn init_only_once() {
    let mut dao = DaoContract::new();
    dao.init(TOKEN_ID, 7, 40, 3).unwrap();
    assert_eq!(dao.init(TOKEN_ID, 1, 1, 1), Err(ContractError::AlreadyInitialized));
    assert_eq!(dao.min_dur(), Ok(7));
    assert_eq!(dao.quorum(), Ok(40));
    assert_eq!(dao.min_prop_p(), Ok(3));
    assert_eq!(dao.dao_token(), Ok(TOKEN_ID));
}

#[test]
fn short_proposal_fails() {
    let (token, mut dao) = setup();
    let r = dao.c_prop(&token, 1, Proposal { end_time: 10, instr: vec![] }, 10, 0);
    assert_eq!(r, Err(ContractError::MinDurationNotSatisfied));
    let r = dao.c_prop(&token, 1, Proposal { end_time: 5, instr: vec![] }, 10, 0);
    assert_eq!(r, Err(ContractError::MinDurationNotSatisfied));
    assert_eq!(dao.c_prop(&token, 1, Proposal { end_time: 11, instr: vec![] }, 10, 0), Ok(0));
}

#[test]
fn weak_proposer_fails() {
    let (token, mut dao) = setup();
    let r = dao.c_prop(&token, 2, Proposal { end_time: 10, instr: vec![] }, 0, 0);
    assert_eq!(r, Err(ContractError::NotEnoughPower));
}

#[test]
fn unknown_proposal_fails() {
    let (token, mut dao) = setup();
    assert_eq!(dao.vote_for(&token, 1, 3, 0), Err(ContractError::InvalidProposalId));
    assert_eq!(dao.execute(3, 0, DAO_ID).map(|c| c.len()), Err(ContractError::InvalidProposalId));
    assert_eq!(dao.proposal(3).map(|e| e.start_seq), Err(ContractError::InvalidProposalId));
    assert_eq!(dao.votes(3), VotesCount { v_for: 0, v_against: 0, v_abstain: 0 });
    assert!(!dao.is_executed(3));
}

#[test]
fn vote_after_deadline_fails() {
    let (token, mut dao) = setup();
    let id = dao.c_prop(&token, 1, Proposal { end_time: 10, instr: vec![] }, 0, 0).unwrap();
    assert_eq!(dao.vote_for(&token, 1, id, 10), Err(ContractError::PropDeadlinePassed));
    assert_eq!(dao.vote_for(&token, 1, id, 9), Ok(()));
}

#[test]
fn tie_does_not_pass() {
    let (mut token, mut dao) = setup();
    token.mint(2, 100).unwrap();
    token.delegate(2, 2, 100, 0).unwrap();
    let id = dao.c_prop(&token, 1, Proposal { end_time: 10, instr: vec![] }, 0, 1).unwrap();
    dao.vote_for(&token, 1, id, 1).unwrap();
    dao.v_against(&token, 2, id, 1).unwrap();
    let r = dao.execute(id, 10, DAO_ID).map(|c| c.len());
    assert_eq!(r, Err(ContractError::ForVotesLessThanAgainstVotes));
    assert!(!dao.is_executed(id));
}

#[test]
fn tally_overflow_fails() {
    let mut token = Token::new();
    token.mint(1, i128::MAX).unwrap();
    token.delegate(1, 1, i128::MAX, 0).unwrap();
    token.mint(2, 1).unwrap();
    token.delegate(2, 2, 1, 0).unwrap();
    let mut dao = DaoContract::new();
    dao.init(TOKEN_ID, 0, 0, 0).unwrap();
    let id = dao.c_prop(&token, 1, Proposal { end_time: 10, instr: vec![] }, 0, 0).unwrap();
    dao.vote_for(&token, 1, id, 0).unwrap();
    assert_eq!(dao.vote_for(&token, 2, id, 0), Err(ContractError::Overflow));
    assert_eq!(dao.votes(id).v_for, i128::MAX);
}

#[test]
fn ids_increase() {
    let (token, mut dao) = setup();
    for expected in 0..3u32 {
        let id = dao.c_prop(&token, 1, Proposal { end_time: 50, instr: vec![] }, 0, expected).unwrap();
        assert_eq!(id, expected);
        assert_eq!(dao.proposal(id).unwrap().start_seq, expected);
    }
}
