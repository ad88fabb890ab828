use dao::{DaoError, Token};

fn funded(account: u64, amount: i128) -> Token {
    let mut t = Token::new();
    t.mint(account, amount).unwrap();
    t
}

#[test]
fn self_delegation_grants_power() {
    let mut t = funded(2, 100);
    t.delegate(2, 2, 10, 0).unwrap();
    assert_eq!(t.power(2), 10);
    assert_eq!(t.power_at(2, 0), 10);
    assert_eq!(t.balance(2), 90);
}

#[test]
fn delegation_only_changes_delegate_power() {
    let mut t = funded(2, 100);
    t.delegate(2, 2, 10, 0).unwrap();
    t.delegate(2, 1, 10, 1).unwrap();
    assert_eq!(t.power(1), 10);
    assert_eq!(t.power(2), 10);
    assert_eq!(t.power_at(1, 0), 0);
    assert_eq!(t.power_at(1, 1), 10);
    assert_eq!(t.balance(2), 80);
    assert_eq!(t.get_d_a(2, 1), 10);
}

#[test]
fn undelegation_returns_tokens() {
    let mut t = funded(2, 100);
    t.delegate(2, 2, 10, 0).unwrap();
    t.delegate(2, 1, 10, 1).unwrap();
    t.r_delegate(2, 1, 10, 2).unwrap();
    assert_eq!(t.power(1), 0);
    assert_eq!(t.power(2), 10);
    assert_eq!(t.balance(2), 90);
    assert_eq!(t.get_d_a(2, 1), 0);
    assert_eq!(t.get_d_a(2, 2), 10);
    assert_eq!(t.power_at(1, 1), 10);
    assert_eq!(t.power_at(1, 2), 0);
}

#[test]
fn round_trip_restores_state() {
    let mut t = funded(5, 50);
    t.mint(6, 7).unwrap();
    t.delegate(5, 6, 20, 3).unwrap();
    t.r_delegate(5, 6, 20, 4).unwrap();
    assert_eq!(t.balance(5), 50);
    assert_eq!(t.balance(6), 7);
    assert_eq!(t.power(5), 0);
    assert_eq!(t.power(6), 0);
    assert_eq!(t.get_d_a(5, 6), 0);
}

#[test]
fn power_before_first_change_is_zero() {
    let mut t = funded(3, 100);
    t.delegate(3, 4, 30, 5).unwrap();
    assert_eq!(t.power_at(4, 0), 0);
    assert_eq!(t.power_at(4, 4), 0);
    assert_eq!(t.power_at(4, 5), 30);
    assert_eq!(t.power_at(4, 1000), 30);
}

#[test]
fn power_at_takes_latest_change_at_or_before() {
    let mut t = funded(1, 1000);
    t.delegate(1, 9, 10, 2).unwrap();
    t.delegate(1, 9, 20, 4).unwrap();
    t.delegate(1, 9, 30, 8).unwrap();
    assert_eq!(t.power_at(9, 1), 0);
    assert_eq!(t.power_at(9, 2), 10);
    assert_eq!(t.power_at(9, 3), 10);
    assert_eq!(t.power_at(9, 4), 30);
    assert_eq!(t.power_at(9, 7), 30);
    assert_eq!(t.power_at(9, 8), 60);
    assert_eq!(t.power_at(9, 9), 60);
}

#[test]
fn two_changes_in_one_sequence_keep_the_last() {
    let mut t = funded(1, 100);
    t.delegate(1, 2, 10, 3).unwrap();
    t.delegate(1, 2, 5, 3).unwrap();
    assert_eq!(t.power_at(2, 3), 15);
    assert_eq!(t.power_at(2, 2), 0);
    assert_eq!(t.latest_sequence(), 3);
}

#[test]
fn delegate_negative_amount_fails() {
    let mut t = funded(1, 100);
    assert_eq!(t.delegate(1, 2, -1, 0), Err(DaoError::CannotAddNegativePower));
    assert_eq!(t.balance(1), 100);
    assert_eq!(t.power(2), 0);
}

#[test]
fn delegate_more_than_balance_fails() {
    let mut t = funded(1, 100);
    assert_eq!(t.delegate(1, 2, 101, 0), Err(DaoError::NotEnoughToken));
    assert_eq!(t.balance(1), 100);
}

#[test]
fn delegate_power_overflow_fails() {
    let mut t = funded(1, i128::MAX);
    t.mint(3, 1).unwrap();
    t.delegate(1, 2, i128::MAX, 0).unwrap();
    assert_eq!(t.delegate(3, 2, 1, 0), Err(DaoError::Overflow));
    assert_eq!(t.power(2), i128::MAX);
}

#[test]
fn undelegate_more_than_delegated_fails() {
    let mut t = funded(1, 100);
    t.delegate(1, 2, 10, 0).unwrap();
    assert_eq!(t.r_delegate(1, 2, 11, 1), Err(DaoError::NotEnoughToken));
    assert_eq!(t.get_d_a(1, 2), 10);
}

#[test]
fn undelegate_negative_amount_fails() {
    let mut t = funded(1, 100);
    t.delegate(1, 2, 10, 0).unwrap();
    assert_eq!(t.r_delegate(1, 2, -1, 1), Err(DaoError::CannotRemoveNegativePower));
}

#[test]
fn undelegate_balance_overflow_fails() {
    let mut t = funded(1, 10);
    t.delegate(1, 2, 10, 0).unwrap();
    t.mint(1, i128::MAX).unwrap();
    assert_eq!(t.r_delegate(1, 2, 10, 1), Err(DaoError::Overflow));
    assert_eq!(t.power(2), 10);
}

#[test]
fn mint_negative_fails() {
    let mut t = Token::new();
    assert_eq!(t.mint(1, -5), Err(DaoError::NegativeAmount));
    assert_eq!(t.balance(1), 0);
}

#[test]
fn mint_overflow_fails() {
    let mut t = funded(1, i128::MAX);
    assert_eq!(t.mint(1, 1), Err(DaoError::Overflow));
}
