use token_program::errors::TokenError;
use token_program::events::{BurnEvent, Event};
use token_program::holder::HolderAccount;
use token_program::lifecycle::{CreateTokenParams, Deployment, TokenParams};

fn bv(s: &[u8]) -> Vec<u8> {
    s.to_vec()
}

fn with_gold() -> Deployment {
    let mut d = Deployment::new();
    d.initialize(&bv(b"admin"), &bv(b"sub-admin"), &Vec::new()).unwrap();
    d.create_token(&bv(b"admin"), &CreateTokenParams { name: bv(b"GOLD"), decimals: 6 })
        .unwrap();
    d
}

fn holder(balance: u64, delegate: Option<Vec<u8>>, delegated_amount: u64) -> HolderAccount {
    HolderAccount { owner: bv(b"owner"), balance, delegate, delegated_amount }
}

#[test]
fn burn_from_with_sufficient_delegation_succeeds() {
    let mut d = with_gold();
    let mut acc = holder(100, Some(bv(b"spender")), 60);
    assert_eq!(
        d.burn_from(&bv(b"spender"), &mut acc, &TokenParams { token: bv(b"GOLD"), amount: 40 }),
        Ok(())
    );
    assert_eq!(acc.balance, 60);
    assert_eq!(acc.delegated_amount, 20);
    assert_eq!(acc.owner, bv(b"owner"));
    let burned = Event::Burn(BurnEvent { token: bv(b"GOLD"), amount: 40 });
    assert!(d.events().contains(&burned));
    // The vault is untouched by a delegated burn.
    assert_eq!(d.vault_balance(&bv(b"GOLD")), Some(0));
}

#[test]
fn burn_from_without_delegation_is_unauthorized() {
    let mut d = with_gold();
    let mut acc = holder(100, None, 0);
    assert_eq!(
        d.burn_from(&bv(b"spender"), &mut acc, &TokenParams { token: bv(b"GOLD"), amount: 40 }),
        Err(TokenError::Unauthorized)
    );
    assert_eq!(acc.balance, 100);
}

#[test]
fn burn_from_by_the_wrong_delegate_is_unauthorized() {
    let mut d = with_gold();
    let mut acc = holder(100, Some(bv(b"spender")), 60);
    // Even the admin holds no delegation over this account.
    assert_eq!(
        d.burn_from(&bv(b"admin"), &mut acc, &TokenParams { token: bv(b"GOLD"), amount: 40 }),
        Err(TokenError::Unauthorized)
    );
    assert_eq!(acc.balance, 100);
    assert_eq!(acc.delegated_amount, 60);
}

#[test]
fn burn_from_beyond_the_delegation_is_unauthorized() {
    let mut d = with_gold();
    let mut acc = holder(100, Some(bv(b"spender")), 30);
    assert_eq!(
        d.burn_from(&bv(b"spender"), &mut acc, &TokenParams { token: bv(b"GOLD"), amount: 40 }),
        Err(TokenError::Unauthorized)
    );
    assert_eq!(acc.balance, 100);
}

#[test]
fn burn_from_unknown_token_fails() {
    let mut d = with_gold();
    let mut acc = holder(100, Some(bv(b"spender")), 60);
    assert_eq!(
        d.burn_from(&bv(b"spender"), &mut acc, &TokenParams { token: bv(b"SILVER"), amount: 40 }),
        Err(TokenError::UnknownToken)
    );
}

#[test]
fn burn_from_zero_amount_fails() {
    let mut d = with_gold();
    let mut acc = holder(100, Some(bv(b"spender")), 60);
    assert_eq!(
        d.burn_from(&bv(b"spender"), &mut acc, &TokenParams { token: bv(b"GOLD"), amount: 0 }),
        Err(TokenError::InvalidAmount)
    );
}

#[test]
fn burn_from_beyond_the_balance_fails() {
    let mut d = with_gold();
    let mut acc = holder(30, Some(bv(b"spender")), 60);
    assert_eq!(
        d.burn_from(&bv(b"spender"), &mut acc, &TokenParams { token: bv(b"GOLD"), amount: 40 }),
        Err(TokenError::InsufficientBalance)
    );
    assert_eq!(acc.balance, 30);
    assert_eq!(acc.delegated_amount, 60);
}
