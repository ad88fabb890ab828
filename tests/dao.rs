use dao::{DaoContract, Proposal, ProposalInstr, Token};

/// Hands each forwarded instruction to the token contract, as the host would.
fn dispatch(token: &mut Token, token_id: u64, calls: &[ProposalInstr]) {
    for call in calls {
        assert_eq!(call.c_id, token_id);
        if call.fun_name == "mint" {
            token.mint(call.args[1], call.args[2] as i128).unwrap();
        }
    }
}

#[test]
fn test_test() {
    let token_contract_id: u64 = 1000;
    let dao_contract_id: u64 = 2000;
    let user_1: u64 = 1;
    let user_2: u64 = 2;
    let mut now: u64 = 0;

    let mut token_client = Token::new();
    token_client.mint(user_2, 100).unwrap();

    assert_eq!(100, token_client.balance(user_2));
    assert_eq!(0, token_client.power(user_2));

    token_client.delegate(user_2, user_2, 10, 0).unwrap();

    assert_eq!(10, token_client.power(user_2));
    assert_eq!(10, token_client.power_at(user_2, 0));
    assert_eq!(90, token_client.balance(user_2));

    now += 1;
    token_client.delegate(user_2, user_1, 10, 1).unwrap();

    assert_eq!(10, token_client.power(user_1));
    assert_eq!(0, token_client.power_at(user_1, 0));
    assert_eq!(80, token_client.balance(user_2));

    now += 1;
    token_client.r_delegate(user_2, user_1, 10, 2).unwrap();

    assert_eq!(0, token_client.power(user_1));
    assert_eq!(90, token_client.balance(user_2));
    assert_eq!(0, token_client.get_d_a(user_2, user_1));
    assert_eq!(10, token_client.get_d_a(user_2, user_2));

    let mut dao_client = DaoContract::new();
    dao_client.init(token_contract_id, 1, 0, 10).unwrap();

    let prop = Proposal {
        end_time: now + 10,
        instr: vec![ProposalInstr {
            c_id: token_contract_id,
            fun_name: "mint".to_string(),
            args: vec![dao_contract_id, user_2, 100],
        }],
    };

    let prop_id = dao_client.c_prop(&token_client, user_2, prop, now, 2).unwrap();

    dao_client.vote_for(&token_client, user_2, prop_id, now).unwrap();

    now += 11;
    let calls = dao_client.execute(prop_id, now, dao_contract_id).unwrap();
    dispatch(&mut token_client, token_contract_id, &calls);

    assert_eq!(190, token_client.balance(user_2));
}

#[test]
fn dao_test() {
    let token = Token::new();
    assert_eq!(0, token.power(1));
}
