use token_program::errors::TokenError;
use token_program::events::{BurnEvent, CreateTokenEvent, Event, InitEvent, MintEvent};
use token_program::lifecycle::{CreateTokenParams, Deployment, TokenParams};

fn bv(s: &[u8]) -> Vec<u8> {
    s.to_vec()
}

fn initialized() -> Deployment {
    let mut d = Deployment::new();
    d.initialize(&bv(b"admin"), &bv(b"sub-admin"), &Vec::new()).unwrap();
    d
}

fn with_gold() -> Deployment {
    let mut d = initialized();
    d.create_token(&bv(b"admin"), &CreateTokenParams { name: bv(b"GOLD"), decimals: 6 })
        .unwrap();
    d
}

#[test]
fn scenario_initialize_create_mint_burn() {
    let mut d = Deployment::new();
    assert!(!d.is_initialized());
    assert_eq!(d.initialize(&bv(b"A"), &bv(b"B"), &Vec::new()), Ok(()));
    assert!(d.is_initialized());
    assert!(d.is_admin(&bv(b"A")));
    assert!(!d.is_admin(&bv(b"B")));

    assert_eq!(
        d.create_token(&bv(b"A"), &CreateTokenParams { name: bv(b"GOLD"), decimals: 6 }),
        Ok(())
    );
    assert!(d.has_token(&bv(b"GOLD")));
    assert_eq!(d.vault_balance(&bv(b"GOLD")), Some(0));

    assert_eq!(
        d.mint(&bv(b"A"), &TokenParams { token: bv(b"GOLD"), amount: 1000 }),
        Ok(())
    );
    assert_eq!(d.vault_balance(&bv(b"GOLD")), Some(1000));
    let minted = Event::Mint(MintEvent { token: bv(b"GOLD"), amount: 1000 });
    assert!(d.events().contains(&minted));

    // C is neither admin nor maintainer.
    assert_eq!(
        d.burn(&bv(b"C"), &TokenParams { token: bv(b"GOLD"), amount: 100 }),
        Err(TokenError::Unauthorized)
    );
    assert_eq!(d.vault_balance(&bv(b"GOLD")), Some(1000));

    assert_eq!(
        d.burn(&bv(b"A"), &TokenParams { token: bv(b"GOLD"), amount: 1500 }),
        Err(TokenError::InsufficientBalance)
    );
    assert_eq!(d.vault_balance(&bv(b"GOLD")), Some(1000));

    assert_eq!(
        d.burn(&bv(b"A"), &TokenParams { token: bv(b"GOLD"), amount: 500 }),
        Ok(())
    );
    assert_eq!(d.vault_balance(&bv(b"GOLD")), Some(500));
    let burned = Event::Burn(BurnEvent { token: bv(b"GOLD"), amount: 500 });
    assert!(d.events().contains(&burned));
}

#[test]
fn initialize_is_callable_exactly_once() {
    let mut d = initialized();
    assert_eq!(
        d.initialize(&bv(b"other"), &bv(b"other-sub"), &Vec::new()),
        Err(TokenError::AlreadyInitialized)
    );
    // The identity registry is left untouched.
    assert!(d.is_admin(&bv(b"admin")));
    assert!(!d.is_admin(&bv(b"other")));
    assert_eq!(d.events().len(), 1);
    assert_eq!(
        d.events()[0],
        Event::Init(InitEvent { admin: bv(b"admin"), sub_admin: bv(b"sub-admin") })
    );
}

#[test]
fn create_token_is_not_idempotent() {
    let mut d = with_gold();
    let first = d.token_record(&bv(b"GOLD")).unwrap().clone();
    assert_eq!(
        d.create_token(&bv(b"admin"), &CreateTokenParams { name: bv(b"GOLD"), decimals: 9 }),
        Err(TokenError::DuplicateToken)
    );
    // The first record is unchanged.
    let second = d.token_record(&bv(b"GOLD")).unwrap();
    assert_eq!(second.decimals, 6);
    assert_eq!(second.name, first.name);
    assert_eq!(second.mint_resource, first.mint_resource);
    assert_eq!(second.escrow_resource, first.escrow_resource);
    assert_eq!(second.vault_resource, first.vault_resource);
    assert_eq!(second.vault_balance, first.vault_balance);
}

#[test]
fn create_token_requires_admin_or_maintainer() {
    let mut d = initialized();
    assert_eq!(
        d.create_token(&bv(b"nobody"), &CreateTokenParams { name: bv(b"GOLD"), decimals: 6 }),
        Err(TokenError::Unauthorized)
    );
    assert!(!d.has_token(&bv(b"GOLD")));
    // The sub-admin holds no maintainer role by itself.
    assert_eq!(
        d.create_token(&bv(b"sub-admin"), &CreateTokenParams { name: bv(b"GOLD"), decimals: 6 }),
        Err(TokenError::Unauthorized)
    );
}

#[test]
fn create_token_before_initialization_is_unauthorized() {
    let mut d = Deployment::new();
    assert_eq!(
        d.create_token(&bv(b"admin"), &CreateTokenParams { name: bv(b"GOLD"), decimals: 6 }),
        Err(TokenError::Unauthorized)
    );
}

#[test]
fn create_token_emits_create_then_resources() {
    let d = with_gold();
    let log = d.events();
    assert_eq!(log.len(), 3);
    assert_eq!(log[1], Event::CreateToken(CreateTokenEvent { name: bv(b"GOLD") }));
    match &log[2] {
        Event::InitResources(e) => {
            assert_eq!(e.token, bv(b"GOLD"));
            let rec = d.token_record(&bv(b"GOLD")).unwrap();
            assert_eq!(e.escrow_account, rec.escrow_resource);
            assert_eq!(e.vault_account, rec.vault_resource);
        }
        other => panic!("expected InitResourcesEvent, got {:?}", other),
    }
}

#[test]
fn mint_unknown_token_fails() {
    let mut d = initialized();
    assert_eq!(
        d.mint(&bv(b"admin"), &TokenParams { token: bv(b"SILVER"), amount: 10 }),
        Err(TokenError::UnknownToken)
    );
}

#[test]
fn mint_unauthorized_fails() {
    let mut d = with_gold();
    assert_eq!(
        d.mint(&bv(b"nobody"), &TokenParams { token: bv(b"GOLD"), amount: 10 }),
        Err(TokenError::Unauthorized)
    );
    assert_eq!(d.vault_balance(&bv(b"GOLD")), Some(0));
}

#[test]
fn mint_zero_amount_fails() {
    let mut d = with_gold();
    assert_eq!(
        d.mint(&bv(b"admin"), &TokenParams { token: bv(b"GOLD"), amount: 0 }),
        Err(TokenError::InvalidAmount)
    );
    assert_eq!(d.vault_balance(&bv(b"GOLD")), Some(0));
}

#[test]
fn burn_unknown_token_fails() {
    let mut d = initialized();
    assert_eq!(
        d.burn(&bv(b"admin"), &TokenParams { token: bv(b"SILVER"), amount: 10 }),
        Err(TokenError::UnknownToken)
    );
}

#[test]
fn burn_zero_amount_fails() {
    let mut d = with_gold();
    d.mint(&bv(b"admin"), &TokenParams { token: bv(b"GOLD"), amount: 5 }).unwrap();
    assert_eq!(
        d.burn(&bv(b"admin"), &TokenParams { token: bv(b"GOLD"), amount: 0 }),
        Err(TokenError::InvalidAmount)
    );
    assert_eq!(d.vault_balance(&bv(b"GOLD")), Some(5));
}

#[test]
fn vault_accounting_over_a_sequence() {
    let mut d = with_gold();
    let admin = bv(b"admin");
    let gold = bv(b"GOLD");
    let mut minted: u64 = 0;
    let mut burned: u64 = 0;
    for (mint, amount) in [
        (true, 100u64),
        (true, 250),
        (false, 40),
        (true, 1),
        (false, 0),
        (false, 311),
        (true, 7),
    ] {
        if mint {
            if d.mint(&admin, &TokenParams { token: gold.clone(), amount }).is_ok() {
                minted += amount;
            }
        } else if d.burn(&admin, &TokenParams { token: gold.clone(), amount }).is_ok() {
            burned += amount;
        }
    }
    assert_eq!(d.vault_balance(&gold), Some(minted - burned));
    assert_eq!(minted - burned, 100 + 250 - 40 + 1 - 311 + 7);
}

#[test]
fn maintainers_can_create_and_mint() {
    let mut d = initialized();
    assert_eq!(
        d.add_maintainer(&bv(b"nobody"), &bv(b"m1")),
        Err(TokenError::Unauthorized)
    );
    assert_eq!(d.add_maintainer(&bv(b"admin"), &bv(b"m1")), Ok(()));
    assert!(d.is_maintainer_or_admin(&bv(b"m1")));
    assert_eq!(
        d.create_token(&bv(b"m1"), &CreateTokenParams { name: bv(b"IRON"), decimals: 0 }),
        Ok(())
    );
    assert_eq!(
        d.mint(&bv(b"m1"), &TokenParams { token: bv(b"IRON"), amount: 3 }),
        Ok(())
    );
    assert_eq!(d.vault_balance(&bv(b"IRON")), Some(3));
    assert_eq!(d.remove_maintainer(&bv(b"admin"), &bv(b"m1")), Ok(()));
    assert!(!d.is_maintainer_or_admin(&bv(b"m1")));
    assert_eq!(
        d.mint(&bv(b"m1"), &TokenParams { token: bv(b"IRON"), amount: 3 }),
        Err(TokenError::Unauthorized)
    );
}

#[test]
fn adding_a_maintainer_twice_changes_nothing() {
    let mut d = initialized();
    d.add_maintainer(&bv(b"admin"), &bv(b"m1")).unwrap();
    d.add_maintainer(&bv(b"admin"), &bv(b"m1")).unwrap();
    assert_eq!(d.identity.maintainers.len(), 1);
    d.remove_maintainer(&bv(b"admin"), &bv(b"m1")).unwrap();
    assert_eq!(d.identity.maintainers.len(), 0);
    assert!(!d.is_maintainer_or_admin(&bv(b"m1")));
}

#[test]
fn whitelist_duplicates_collapse() {
    let mut d = Deployment::new();
    let wl = vec![bv(b"u1"), bv(b"u2"), bv(b"u1"), bv(b"u3"), bv(b"u2")];
    d.initialize(&bv(b"admin"), &bv(b"sub-admin"), &wl).unwrap();
    assert_eq!(d.identity.whitelist.len(), 3);
    assert!(d.is_whitelisted(&bv(b"u1")));
    assert!(d.is_whitelisted(&bv(b"u2")));
    assert!(d.is_whitelisted(&bv(b"u3")));
    assert!(!d.is_whitelisted(&bv(b"u4")));
}

#[test]
fn whitelist_is_mutable_by_admin_and_sub_admin() {
    let mut d = initialized();
    assert_eq!(
        d.add_whitelisted(&bv(b"nobody"), &bv(b"u1")),
        Err(TokenError::Unauthorized)
    );
    assert_eq!(d.add_whitelisted(&bv(b"sub-admin"), &bv(b"u1")), Ok(()));
    assert!(d.is_whitelisted(&bv(b"u1")));
    assert_eq!(d.add_whitelisted(&bv(b"admin"), &bv(b"u2")), Ok(()));
    assert_eq!(d.remove_whitelisted(&bv(b"admin"), &bv(b"u1")), Ok(()));
    assert!(!d.is_whitelisted(&bv(b"u1")));
    assert!(d.is_whitelisted(&bv(b"u2")));
}

#[test]
fn tokens_are_independent_of_one_another() {
    let mut d = with_gold();
    d.create_token(&bv(b"admin"), &CreateTokenParams { name: bv(b"SILVER"), decimals: 2 })
        .unwrap();
    d.mint(&bv(b"admin"), &TokenParams { token: bv(b"GOLD"), amount: 11 }).unwrap();
    d.mint(&bv(b"admin"), &TokenParams { token: bv(b"SILVER"), amount: 22 }).unwrap();
    d.burn(&bv(b"admin"), &TokenParams { token: bv(b"SILVER"), amount: 2 }).unwrap();
    assert_eq!(d.vault_balance(&bv(b"GOLD")), Some(11));
    assert_eq!(d.vault_balance(&bv(b"SILVER")), Some(20));
    assert_eq!(d.token_record(&bv(b"SILVER")).unwrap().decimals, 2);
    assert_eq!(d.token_record(&bv(b"GOLD")).unwrap().decimals, 6);
}
