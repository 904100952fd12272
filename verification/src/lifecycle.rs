use vstd::prelude::*;

use crate::bytes::{clone_bytes, dedup, lemma_dedup, views_of};
use crate::constants::{
    escrow_tag, mint_tag, spec_escrow_tag, spec_mint_tag, spec_vault_tag, vault_tag,
};
use crate::errors::TokenError;
use crate::events::{
    BurnEvent, CreateTokenEvent, Event, EventV, InitEvent, InitResourcesEvent, MintEvent,
};
use crate::holder::{HolderAccount, HolderV};
use crate::identity::{IdentityState, IdentityV, add_member};
use crate::resource::spec_derive;

verus! {

/// Creation parameters of a token: its unique name and its decimals.
pub struct CreateTokenParams {
    pub name: Vec<u8>,
    pub decimals: u8,
}

/// The target token and amount of a mint or a burn.
pub struct TokenParams {
    pub token: Vec<u8>,
    pub amount: u64,
}

/// One registered token: its name, its decimals, and the identifiers of its
/// three derived resources. The mint resource accounts for the supply, the
/// escrow resource is the intermediate custody point, and the vault resource
/// holds the token's reserve balance, which this registry tracks.
#[derive(Clone, Debug, PartialEq, Eq)]
pub struct TokenRecord {
    pub name: Vec<u8>,
    pub decimals: u8,
    pub mint_resource: Vec<u8>,
    pub escrow_resource: Vec<u8>,
    pub vault_resource: Vec<u8>,
    pub vault_balance: u64,
}

/// The mathematical value of a `TokenRecord`.
#[verifier::ext_equal]
pub ghost struct TokenRecordV {
    pub name: Seq<u8>,
    pub decimals: u8,
    pub mint_resource: Seq<u8>,
    pub escrow_resource: Seq<u8>,
    pub vault_resource: Seq<u8>,
    pub vault_balance: u64,
}

impl View for TokenRecord {
    type V = TokenRecordV;

    open spec fn view(&self) -> TokenRecordV {
        TokenRecordV {
            name: self.name@,
            decimals: self.decimals,
            mint_resource: self.mint_resource@,
            escrow_resource: self.escrow_resource@,
            vault_resource: self.vault_resource@,
            vault_balance: self.vault_balance,
        }
    }
}

impl TokenRecordV {
    /// The record's derived-resource bookkeeping is right: each of its three
    /// resource identifiers is the one derived from its name under the
    /// namespace tag of its purpose.
    pub open spec fn wf(self) -> bool {
        &&& self.mint_resource == spec_derive(spec_mint_tag(), self.name)
        &&& self.escrow_resource == spec_derive(spec_escrow_tag(), self.name)
        &&& self.vault_resource == spec_derive(spec_vault_tag(), self.name)
    }
}

/// The record a fresh token is registered with: derived resources, zero
/// vault balance.
pub open spec fn spec_new_record(name: Seq<u8>, decimals: u8) -> TokenRecordV {
    TokenRecordV {
        name: name,
        decimals: decimals,
        mint_resource: spec_derive(spec_mint_tag(), name),
        escrow_resource: spec_derive(spec_escrow_tag(), name),
        vault_resource: spec_derive(spec_vault_tag(), name),
        vault_balance: 0,
    }
}

/// One deployment of the library: the identity registry (absent until
/// `initialize`), the token registry, and the append-only audit log of the
/// events that successful operations emitted.
pub struct Deployment {
    pub initialized: bool,
    pub identity: IdentityState,
    pub tokens: Vec<TokenRecord>,
    pub log: Vec<Event>,
}

/// The mathematical value of a `Deployment`.
#[verifier::ext_equal]
pub ghost struct DeploymentV {
    pub identity: Option<IdentityV>,
    pub tokens: Seq<TokenRecordV>,
    pub log: Seq<EventV>,
}

impl View for Deployment {
    type V = DeploymentV;

    open spec fn view(&self) -> DeploymentV {
        DeploymentV {
            identity: if self.initialized {
                Some(self.identity@)
            } else {
                None
            },
            tokens: self.tokens@.map_values(|r: TokenRecord| r@),
            log: self.log@.map_values(|e: Event| e@),
        }
    }
}

impl DeploymentV {
    /// Well-formedness: token names are unique keys, every record's derived
    /// resources are right, and the identity registry (once present) holds
    /// sets without repetition.
    pub open spec fn wf(self) -> bool {
        &&& forall|i: int, j: int|
            0 <= i < j < self.tokens.len() ==> self.tokens[i].name != self.tokens[j].name
        &&& forall|i: int| 0 <= i < self.tokens.len() ==> (#[trigger] self.tokens[i]).wf()
        &&& (self.identity matches Some(id) ==> id.wf())
    }

    /// The identity registry, meaningful once initialized.
    pub open spec fn the_identity(self) -> IdentityV {
        self.identity->0
    }

    pub open spec fn is_admin(self, caller: Seq<u8>) -> bool {
        self.identity matches Some(id) && id.is_admin(caller)
    }

    pub open spec fn is_admin_or_sub_admin(self, caller: Seq<u8>) -> bool {
        self.identity matches Some(id) && id.is_admin_or_sub_admin(caller)
    }

    pub open spec fn is_maintainer_or_admin(self, caller: Seq<u8>) -> bool {
        self.identity matches Some(id) && id.is_maintainer_or_admin(caller)
    }

    pub open spec fn is_whitelisted(self, caller: Seq<u8>) -> bool {
        self.identity matches Some(id) && id.is_whitelisted(caller)
    }

    pub open spec fn has_token(self, name: Seq<u8>) -> bool {
        exists|i: int| 0 <= i < self.tokens.len() && self.tokens[i].name == name
    }

    /// The index of the record named `name`; meaningful under `has_token`,
    /// and unique under `wf`.
    pub open spec fn token_index(self, name: Seq<u8>) -> int {
        choose|i: int| 0 <= i < self.tokens.len() && self.tokens[i].name == name
    }

    /// The record named `name`; meaningful under `has_token`.
    pub open spec fn token_of(self, name: Seq<u8>) -> TokenRecordV {
        self.tokens[self.token_index(name)]
    }

    /// The balance of the vault of `name`: zero for an unregistered name.
    pub open spec fn vault_balance_of(self, name: Seq<u8>) -> u64 {
        if self.has_token(name) {
            self.token_of(name).vault_balance
        } else {
            0
        }
    }

    /// `initialize` succeeds exactly here: no identity registry exists yet.
    pub open spec fn init_ok(self) -> bool {
        self.identity is None
    }

    /// The state after a successful `initialize`: the identity registry is
    /// populated (whitelist duplicates collapse), and `InitEvent` is logged.
    pub open spec fn spec_initialize(
        self,
        admin: Seq<u8>,
        sub_admin: Seq<u8>,
        whitelist: Seq<Seq<u8>>,
    ) -> DeploymentV {
        DeploymentV {
            identity: Some(
                IdentityV {
                    admin: admin,
                    sub_admin: sub_admin,
                    maintainers: Seq::empty(),
                    whitelist: dedup(whitelist),
                },
            ),
            log: self.log.push(EventV::Init { admin, sub_admin }),
            ..self
        }
    }

    /// `create_token` succeeds exactly here: the caller is the admin or a
    /// maintainer, and the name is free.
    pub open spec fn create_ok(self, caller: Seq<u8>, name: Seq<u8>) -> bool {
        &&& self.is_maintainer_or_admin(caller)
        &&& !self.has_token(name)
    }

    /// The error of a failed `create_token`: authorization is checked first.
    pub open spec fn create_err(self, caller: Seq<u8>, name: Seq<u8>) -> TokenError {
        if !self.is_maintainer_or_admin(caller) {
            TokenError::Unauthorized
        } else {
            TokenError::DuplicateToken
        }
    }

    /// The state after a successful `create_token`: the new record is
    /// registered, and `CreateTokenEvent` then `InitResourcesEvent` are
    /// logged.
    pub open spec fn spec_create_token(
        self,
        caller: Seq<u8>,
        name: Seq<u8>,
        decimals: u8,
    ) -> DeploymentV {
        DeploymentV {
            tokens: self.tokens.push(spec_new_record(name, decimals)),
            log: self.log + seq![
                EventV::CreateToken { name },
                EventV::InitResources {
                    token: name,
                    escrow_account: spec_derive(spec_escrow_tag(), name),
                    vault_account: spec_derive(spec_vault_tag(), name),
                },
            ],
            ..self
        }
    }

    /// `mint` succeeds exactly here: the token is registered, the caller is
    /// the admin or a maintainer, and the amount is positive.
    pub open spec fn mint_ok(self, caller: Seq<u8>, token: Seq<u8>, amount: u64) -> bool {
        &&& self.has_token(token)
        &&& self.is_maintainer_or_admin(caller)
        &&& amount > 0
    }

    /// The error of a failed `mint`: the token is resolved first, then the
    /// authorization, then the amount.
    pub open spec fn mint_err(self, caller: Seq<u8>, token: Seq<u8>, amount: u64) -> TokenError {
        if !self.has_token(token) {
            TokenError::UnknownToken
        } else if !self.is_maintainer_or_admin(caller) {
            TokenError::Unauthorized
        } else {
            TokenError::InvalidAmount
        }
    }

    /// The state after a successful `mint`: the vault of `token` is credited
    /// with `amount`, and `MintEvent` is logged.
    pub open spec fn spec_mint(
        self,
        caller: Seq<u8>,
        token: Seq<u8>,
        amount: u64,
    ) -> DeploymentV {
        let i = self.token_index(token);
        DeploymentV {
            tokens: self.tokens.update(
                i,
                TokenRecordV {
                    vault_balance: (self.tokens[i].vault_balance + amount) as u64,
                    ..self.tokens[i]
                },
            ),
            log: self.log.push(EventV::Mint { token, amount }),
            ..self
        }
    }

    /// `burn` succeeds exactly here: as `mint`, and the vault balance covers
    /// the amount.
    pub open spec fn burn_ok(self, caller: Seq<u8>, token: Seq<u8>, amount: u64) -> bool {
        &&& self.has_token(token)
        &&& self.is_maintainer_or_admin(caller)
        &&& amount > 0
        &&& amount <= self.vault_balance_of(token)
    }

    /// The error of a failed `burn`: the token is resolved first, then the
    /// authorization, then the amount, then the balance.
    pub open spec fn burn_err(self, caller: Seq<u8>, token: Seq<u8>, amount: u64) -> TokenError {
        if !self.has_token(token) {
            TokenError::UnknownToken
        } else if !self.is_maintainer_or_admin(caller) {
            TokenError::Unauthorized
        } else if amount == 0 {
            TokenError::InvalidAmount
        } else {
            TokenError::InsufficientBalance
        }
    }

    /// The state after a successful `burn`: the vault of `token` is debited
    /// by `amount`, and `BurnEvent` is logged.
    pub open spec fn spec_burn(
        self,
        caller: Seq<u8>,
        token: Seq<u8>,
        amount: u64,
    ) -> DeploymentV {
        let i = self.token_index(token);
        DeploymentV {
            tokens: self.tokens.update(
                i,
                TokenRecordV {
                    vault_balance: (self.tokens[i].vault_balance - amount) as u64,
                    ..self.tokens[i]
                },
            ),
            log: self.log.push(EventV::Burn { token, amount }),
            ..self
        }
    }

    /// `burn_from` succeeds exactly here: the token is registered, the
    /// caller holds a delegation over the account covering the amount, the
    /// amount is positive, and the account's balance covers it. The registry
    /// roles play no part: this operation is gated by token-level approval.
    pub open spec fn burn_from_ok(
        self,
        caller: Seq<u8>,
        token: Seq<u8>,
        account: HolderV,
        amount: u64,
    ) -> bool {
        &&& self.has_token(token)
        &&& account.delegation_covers(caller, amount)
        &&& amount > 0
        &&& amount <= account.balance
    }

    /// The error of a failed `burn_from`: the token is resolved first, then
    /// the delegation, then the amount, then the balance.
    pub open spec fn burn_from_err(
        self,
        caller: Seq<u8>,
        token: Seq<u8>,
        account: HolderV,
        amount: u64,
    ) -> TokenError {
        if !self.has_token(token) {
            TokenError::UnknownToken
        } else if !account.delegation_covers(caller, amount) {
            TokenError::Unauthorized
        } else if amount == 0 {
            TokenError::InvalidAmount
        } else {
            TokenError::InsufficientBalance
        }
    }

    /// The registry state after a successful `burn_from`: only `BurnEvent`
    /// is logged; the registry itself holds no holder accounts.
    pub open spec fn spec_burn_from(self, token: Seq<u8>, amount: u64) -> DeploymentV {
        DeploymentV { log: self.log.push(EventV::Burn { token, amount }), ..self }
    }

    /// The state after a successful maintainer addition.
    pub open spec fn spec_add_maintainer(self, identity: Seq<u8>) -> DeploymentV {
        DeploymentV {
            identity: Some(
                IdentityV {
                    maintainers: add_member(self.the_identity().maintainers, identity),
                    ..self.the_identity()
                },
            ),
            ..self
        }
    }

    /// The state after a successful maintainer removal.
    pub open spec fn spec_remove_maintainer(self, identity: Seq<u8>) -> DeploymentV {
        DeploymentV {
            identity: Some(
                IdentityV {
                    maintainers: self.the_identity().maintainers.remove_value(identity),
                    ..self.the_identity()
                },
            ),
            ..self
        }
    }

    /// The state after a successful whitelist addition.
    pub open spec fn spec_add_whitelisted(self, identity: Seq<u8>) -> DeploymentV {
        DeploymentV {
            identity: Some(
                IdentityV {
                    whitelist: add_member(self.the_identity().whitelist, identity),
                    ..self.the_identity()
                },
            ),
            ..self
        }
    }

    /// The state after a successful whitelist removal.
    pub open spec fn spec_remove_whitelisted(self, identity: Seq<u8>) -> DeploymentV {
        DeploymentV {
            identity: Some(
                IdentityV {
                    whitelist: self.the_identity().whitelist.remove_value(identity),
                    ..self.the_identity()
                },
            ),
            ..self
        }
    }
}

impl Deployment {
    /// A fresh, uninitialized deployment: no identity registry, no tokens,
    /// an empty audit log.
    pub fn new() -> (d: Deployment)
        ensures
            d@ == (DeploymentV { identity: None, tokens: Seq::empty(), log: Seq::empty() }),
            d@.wf(),
    {
        let d = Deployment {
            initialized: false,
            identity: IdentityState {
                admin: Vec::new(),
                sub_admin: Vec::new(),
                maintainers: Vec::new(),
                whitelist: Vec::new(),
            },
            tokens: Vec::new(),
            log: Vec::new(),
        };
        proof {
            assert(d@ =~= (DeploymentV {
                identity: None,
                tokens: Seq::empty(),
                log: Seq::empty(),
            }));
        }
        d
    }

    /// Whether the identity registry exists yet.
    pub fn is_initialized(&self) -> (r: bool)
        ensures
            r == (self@.identity is Some),
    {
        self.initialized
    }

    /// Whether `caller` is the admin (false before initialization).
    pub fn is_admin(&self, caller: &Vec<u8>) -> (r: bool)
        ensures
            r == self@.is_admin(caller@),
    {
        self.initialized && self.identity.is_admin(caller)
    }

    /// Whether `caller` is the admin or a maintainer (false before
    /// initialization).
    pub fn is_maintainer_or_admin(&self, caller: &Vec<u8>) -> (r: bool)
        ensures
            r == self@.is_maintainer_or_admin(caller@),
    {
        self.initialized && self.identity.is_maintainer_or_admin(caller)
    }

    /// Whether `caller` is whitelisted (false before initialization).
    pub fn is_whitelisted(&self, caller: &Vec<u8>) -> (r: bool)
        ensures
            r == self@.is_whitelisted(caller@),
    {
        self.initialized && self.identity.is_whitelisted(caller)
    }

    /// The audit log: every event a successful operation emitted, in order.
    pub fn events(&self) -> (r: &Vec<Event>)
        ensures
            r@.map_values(|e: Event| e@) == self@.log,
    {
        &self.log
    }

    /// The index of the record named `name`, if the token is registered.
    #[verifier::loop_isolation(false)]
    fn find_token(&self, name: &Vec<u8>) -> (r: Option<usize>)
        requires
            self@.wf(),
        ensures
            match r {
                Some(i) => self@.has_token(name@) && i == self@.token_index(name@) && i
                    < self@.tokens.len(),
                None => !self@.has_token(name@),
            },
    {
        let n = self.tokens.len();
        for i in 0..n
            invariant
                n == self.tokens@.len(),
                forall|k: int| 0 <= k < i ==> self@.tokens[k].name != name@,
        {
            if crate::bytes::bytes_eq(&self.tokens[i].name, name) {
                proof {
                    assert(self@.tokens[i as int].name == name@);
                    assert(self@.has_token(name@));
                    let j = self@.token_index(name@);
                    assert(0 <= j < self@.tokens.len() && self@.tokens[j].name == name@);
                    if j < i {
                        assert(self@.tokens[j].name != self@.tokens[i as int].name);
                        assert(false);
                    }
                    if i < j {
                        assert(self@.tokens[i as int].name != self@.tokens[j].name);
                        assert(false);
                    }
                }
                return Some(i);
            }
        }
        None
    }

    /// Whether a token of that name is registered.
    pub fn has_token(&self, name: &Vec<u8>) -> (r: bool)
        requires
            self@.wf(),
        ensures
            r == self@.has_token(name@),
    {
        self.find_token(name).is_some()
    }

    /// The registered record of `name`, if any.
    pub fn token_record(&self, name: &Vec<u8>) -> (r: Option<&TokenRecord>)
        requires
            self@.wf(),
        ensures
            match r {
                Some(rec) => self@.has_token(name@) && rec@ == self@.token_of(name@),
                None => !self@.has_token(name@),
            },
    {
        match self.find_token(name) {
            Some(i) => Some(&self.tokens[i]),
            None => None,
        }
    }

    /// The vault balance of `name`, if the token is registered.
    pub fn vault_balance(&self, name: &Vec<u8>) -> (r: Option<u64>)
        requires
            self@.wf(),
        ensures
            match r {
                Some(b) => self@.has_token(name@) && b == self@.vault_balance_of(name@),
                None => !self@.has_token(name@),
            },
    {
        match self.find_token(name) {
            Some(i) => Some(self.tokens[i].vault_balance),
            None => None,
        }
    }

    /// Creates the identity registry: the sole entry point that does, legal
    /// exactly once per deployment. A second call fails with
    /// `AlreadyInitialized` and changes nothing. Whitelist duplicates
    /// collapse. Emits `InitEvent`.
    #[verifier::loop_isolation(false)]
    pub fn initialize(
        &mut self,
        admin: &Vec<u8>,
        sub_admin: &Vec<u8>,
        whitelisted_users: &Vec<Vec<u8>>,
    ) -> (r: Result<(), TokenError>)
        requires
            old(self)@.wf(),
        ensures
            final(self)@.wf(),
            r is Ok <==> old(self)@.init_ok(),
            r is Ok ==> final(self)@ == old(self)@.spec_initialize(
                admin@,
                sub_admin@,
                views_of(whitelisted_users@),
            ),
            r is Err ==> final(self)@ == old(self)@ && r == Err::<(), TokenError>(
                TokenError::AlreadyInitialized,
            ),
    {
        if self.initialized {
            return Err(TokenError::AlreadyInitialized);
        }
        let ghost s = views_of(whitelisted_users@);
        let mut wl: Vec<Vec<u8>> = Vec::new();
        let n = whitelisted_users.len();
        for i in 0..n
            invariant
                n == whitelisted_users@.len(),
                views_of(wl@) == dedup(s.take(i as int)),
        {
            proof {
                assert(s.take(i + 1).drop_last() =~= s.take(i as int));
                assert(s.take(i + 1).last() == s[i as int]);
            }
            if !crate::bytes::contains_bytes(&wl, &whitelisted_users[i]) {
                wl.push(clone_bytes(&whitelisted_users[i]));
                proof {
                    assert(views_of(wl@) =~= dedup(s.take(i as int)).push(s[i as int]));
                }
            }
            proof {
                assert(views_of(wl@) =~= dedup(s.take(i + 1)));
            }
        }
        proof {
            assert(s.take(n as int) =~= s);
            lemma_dedup(s);
        }
        self.identity = IdentityState {
            admin: clone_bytes(admin),
            sub_admin: clone_bytes(sub_admin),
            maintainers: Vec::new(),
            whitelist: wl,
        };
        self.initialized = true;
        self.log.push(
            Event::Init(InitEvent { admin: clone_bytes(admin), sub_admin: clone_bytes(sub_admin) }),
        );
        proof {
            assert(self@ =~= old(self)@.spec_initialize(admin@, sub_admin@, s));
        }
        Ok(())
    }

    /// Registers a new token under `params.name`: derives its mint, escrow
    /// and vault resources, and records it with a vault balance of zero.
    /// Only the admin or a maintainer may create; a taken name fails with
    /// `DuplicateToken`. Emits `CreateTokenEvent`, then
    /// `InitResourcesEvent`.
    pub fn create_token(&mut self, caller: &Vec<u8>, params: &CreateTokenParams) -> (r: Result<
        (),
        TokenError,
    >)
        requires
            old(self)@.wf(),
        ensures
            final(self)@.wf(),
            r is Ok <==> old(self)@.create_ok(caller@, params.name@),
            r is Ok ==> final(self)@ == old(self)@.spec_create_token(
                caller@,
                params.name@,
                params.decimals,
            ),
            r is Err ==> final(self)@ == old(self)@ && (r matches Err(e) && e == old(
                self,
            )@.create_err(caller@, params.name@)),
    {
        if !self.is_maintainer_or_admin(caller) {
            return Err(TokenError::Unauthorized);
        }
        if self.find_token(&params.name).is_some() {
            return Err(TokenError::DuplicateToken);
        }
        let tag_m = mint_tag();
        let tag_e = escrow_tag();
        let tag_v = vault_tag();
        let escrow_resource = crate::resource::derive(&tag_e, &params.name);
        let vault_resource = crate::resource::derive(&tag_v, &params.name);
        let record = TokenRecord {
            name: clone_bytes(&params.name),
            decimals: params.decimals,
            mint_resource: crate::resource::derive(&tag_m, &params.name),
            escrow_resource: clone_bytes(&escrow_resource),
            vault_resource: clone_bytes(&vault_resource),
            vault_balance: 0,
        };
        self.tokens.push(record);
        self.log.push(
            Event::CreateToken(CreateTokenEvent { name: clone_bytes(&params.name) }),
        );
        self.log.push(
            Event::InitResources(
                InitResourcesEvent {
                    token: clone_bytes(&params.name),
                    escrow_account: escrow_resource,
                    vault_account: vault_resource,
                },
            ),
        );
        proof {
            let target = old(self)@.spec_create_token(caller@, params.name@, params.decimals);
            assert(self@.tokens =~= target.tokens);
            assert(self@.log =~= target.log);
            assert(self@ =~= target);
            assert forall|i: int, j: int|
                0 <= i < j < self@.tokens.len() implies self@.tokens[i].name
                != self@.tokens[j].name by {
                if j == self@.tokens.len() - 1 {
                    if old(self)@.tokens[i].name == params.name@ {
                        assert(old(self)@.has_token(params.name@));
                    }
                }
            }
        }
        Ok(())
    }

    /// Mints `params.amount` of `params.token` into its vault: the supply
    /// increase is credited to the vault balance. Only the admin or a
    /// maintainer may mint, the token must be registered, and the amount
    /// must be positive. Emits `MintEvent`.
    pub fn mint(&mut self, caller: &Vec<u8>, params: &TokenParams) -> (r: Result<(), TokenError>)
        requires
            old(self)@.wf(),
            old(self)@.vault_balance_of(params.token@) + params.amount <= u64::MAX,
        ensures
            final(self)@.wf(),
            r is Ok <==> old(self)@.mint_ok(caller@, params.token@, params.amount),
            r is Ok ==> final(self)@ == old(self)@.spec_mint(
                caller@,
                params.token@,
                params.amount,
            ),
            r is Err ==> final(self)@ == old(self)@ && (r matches Err(e) && e == old(
                self,
            )@.mint_err(caller@, params.token@, params.amount)),
    {
        let idx = match self.find_token(&params.token) {
            Some(i) => i,
            None => {
                return Err(TokenError::UnknownToken);
            },
        };
        if !self.is_maintainer_or_admin(caller) {
            return Err(TokenError::Unauthorized);
        }
        if params.amount == 0 {
            return Err(TokenError::InvalidAmount);
        }
        proof {
            assert(self@.token_of(params.token@) == self@.tokens[idx as int]);
            assert(self@.vault_balance_of(params.token@) == self@.tokens[
                idx as int
            ].vault_balance);
        }
        let new_balance = self.tokens[idx].vault_balance + params.amount;
        self.tokens[idx].vault_balance = new_balance;
        self.log.push(
            Event::Mint(MintEvent { token: clone_bytes(&params.token), amount: params.amount }),
        );
        proof {
            let target = old(self)@.spec_mint(caller@, params.token@, params.amount);
            assert(self@.tokens =~= target.tokens);
            assert(self@.log =~= target.log);
            assert(self@ =~= target);
            assert forall|i: int| 0 <= i < self@.tokens.len() implies (
            #[trigger] self@.tokens[i]).wf() by {
                assert(old(self)@.tokens[i].wf());
            }
        }
        Ok(())
    }

    /// Burns `params.amount` of `params.token` out of its vault (the
    /// self-custody burn). Only the admin or a maintainer may burn, the
    /// token must be registered, the amount must be positive, and the vault
    /// balance must cover it. Emits `BurnEvent`.
    pub fn burn(&mut self, caller: &Vec<u8>, params: &TokenParams) -> (r: Result<(), TokenError>)
        requires
            old(self)@.wf(),
        ensures
            final(self)@.wf(),
            r is Ok <==> old(self)@.burn_ok(caller@, params.token@, params.amount),
            r is Ok ==> final(self)@ == old(self)@.spec_burn(
                caller@,
                params.token@,
                params.amount,
            ),
            r is Err ==> final(self)@ == old(self)@ && (r matches Err(e) && e == old(
                self,
            )@.burn_err(caller@, params.token@, params.amount)),
    {
        let idx = match self.find_token(&params.token) {
            Some(i) => i,
            None => {
                return Err(TokenError::UnknownToken);
            },
        };
        if !self.is_maintainer_or_admin(caller) {
            return Err(TokenError::Unauthorized);
        }
        if params.amount == 0 {
            return Err(TokenError::InvalidAmount);
        }
        proof {
            assert(self@.token_of(params.token@) == self@.tokens[idx as int]);
            assert(self@.vault_balance_of(params.token@) == self@.tokens[
                idx as int
            ].vault_balance);
        }
        if params.amount > self.tokens[idx].vault_balance {
            return Err(TokenError::InsufficientBalance);
        }
        let new_balance = self.tokens[idx].vault_balance - params.amount;
        self.tokens[idx].vault_balance = new_balance;
        self.log.push(
            Event::Burn(BurnEvent { token: clone_bytes(&params.token), amount: params.amount }),
        );
        proof {
            let target = old(self)@.spec_burn(caller@, params.token@, params.amount);
            assert(self@.tokens =~= target.tokens);
            assert(self@.log =~= target.log);
            assert(self@ =~= target);
            assert forall|i: int| 0 <= i < self@.tokens.len() implies (
            #[trigger] self@.tokens[i]).wf() by {
                assert(old(self)@.tokens[i].wf());
            }
        }
        Ok(())
    }

    /// Burns `params.amount` of `params.token` from an arbitrary holder's
    /// `account` on the caller's behalf: the delegated-authority burn. The
    /// caller must hold the delegation recorded on the account for at least
    /// the amount; registry roles play no part. On success the account's
    /// balance and its remaining delegation are both debited by the amount,
    /// and `BurnEvent` is emitted; on failure both the registry and the
    /// account are left exactly as they were.
    pub fn burn_from(
        &mut self,
        caller: &Vec<u8>,
        account: &mut HolderAccount,
        params: &TokenParams,
    ) -> (r: Result<(), TokenError>)
        requires
            old(self)@.wf(),
        ensures
            final(self)@.wf(),
            r is Ok <==> old(self)@.burn_from_ok(
                caller@,
                params.token@,
                old(account)@,
                params.amount,
            ),
            r is Ok ==> final(self)@ == old(self)@.spec_burn_from(params.token@, params.amount)
                && final(account)@ == (HolderV {
                balance: (old(account)@.balance - params.amount) as u64,
                delegated_amount: (old(account)@.delegated_amount - params.amount) as u64,
                ..old(account)@
            }),
            r is Err ==> final(self)@ == old(self)@ && final(account)@ == old(account)@ && (
            r matches Err(e) && e == old(self)@.burn_from_err(
                caller@,
                params.token@,
                old(account)@,
                params.amount,
            )),
    {
        if self.find_token(&params.token).is_none() {
            return Err(TokenError::UnknownToken);
        }
        let delegated = match &account.delegate {
            Some(d) => crate::bytes::bytes_eq(d, caller) && params.amount
                <= account.delegated_amount,
            None => false,
        };
        if !delegated {
            return Err(TokenError::Unauthorized);
        }
        if params.amount == 0 {
            return Err(TokenError::InvalidAmount);
        }
        if params.amount > account.balance {
            return Err(TokenError::InsufficientBalance);
        }
        account.balance = account.balance - params.amount;
        account.delegated_amount = account.delegated_amount - params.amount;
        self.log.push(
            Event::Burn(BurnEvent { token: clone_bytes(&params.token), amount: params.amount }),
        );
        proof {
            assert(self@ =~= old(self)@.spec_burn_from(params.token@, params.amount));
            assert(account@ =~= (HolderV {
                balance: (old(account)@.balance - params.amount) as u64,
                delegated_amount: (old(account)@.delegated_amount - params.amount) as u64,
                ..old(account)@
            }));
        }
        Ok(())
    }

    /// Adds `identity` to the maintainer set: admin only; fails with
    /// `Unauthorized` otherwise (also before initialization).
    pub fn add_maintainer(&mut self, caller: &Vec<u8>, identity: &Vec<u8>) -> (r: Result<
        (),
        TokenError,
    >)
        requires
            old(self)@.wf(),
        ensures
            final(self)@.wf(),
            r is Ok <==> old(self)@.is_admin(caller@),
            r is Ok ==> final(self)@ == old(self)@.spec_add_maintainer(identity@),
            r is Err ==> final(self)@ == old(self)@ && r == Err::<(), TokenError>(
                TokenError::Unauthorized,
            ),
    {
        if !self.initialized {
            return Err(TokenError::Unauthorized);
        }
        let r = self.identity.add_maintainer(caller, identity);
        proof {
            if r is Ok {
                assert(self@ =~= old(self)@.spec_add_maintainer(identity@));
            }
        }
        r
    }

    /// Removes `identity` from the maintainer set: admin only; fails with
    /// `Unauthorized` otherwise (also before initialization).
    pub fn remove_maintainer(&mut self, caller: &Vec<u8>, identity: &Vec<u8>) -> (r: Result<
        (),
        TokenError,
    >)
        requires
            old(self)@.wf(),
        ensures
            final(self)@.wf(),
            r is Ok <==> old(self)@.is_admin(caller@),
            r is Ok ==> final(self)@ == old(self)@.spec_remove_maintainer(identity@),
            r is Err ==> final(self)@ == old(self)@ && r == Err::<(), TokenError>(
                TokenError::Unauthorized,
            ),
    {
        if !self.initialized {
            return Err(TokenError::Unauthorized);
        }
        let r = self.identity.remove_maintainer(caller, identity);
        proof {
            if r is Ok {
                assert(self@ =~= old(self)@.spec_remove_maintainer(identity@));
            }
        }
        r
    }

    /// Adds `identity` to the whitelist: admin or sub-admin only; fails with
    /// `Unauthorized` otherwise (also before initialization).
    pub fn add_whitelisted(&mut self, caller: &Vec<u8>, identity: &Vec<u8>) -> (r: Result<
        (),
        TokenError,
    >)
        requires
            old(self)@.wf(),
        ensures
            final(self)@.wf(),
            r is Ok <==> old(self)@.is_admin_or_sub_admin(caller@),
            r is Ok ==> final(self)@ == old(self)@.spec_add_whitelisted(identity@),
            r is Err ==> final(self)@ == old(self)@ && r == Err::<(), TokenError>(
                TokenError::Unauthorized,
            ),
    {
        if !self.initialized {
            return Err(TokenError::Unauthorized);
        }
        let r = self.identity.add_whitelisted(caller, identity);
        proof {
            if r is Ok {
                assert(self@ =~= old(self)@.spec_add_whitelisted(identity@));
            }
        }
        r
    }

    /// Removes `identity` from the whitelist: admin or sub-admin only; fails
    /// with `Unauthorized` otherwise (also before initialization).
    pub fn remove_whitelisted(&mut self, caller: &Vec<u8>, identity: &Vec<u8>) -> (r: Result<
        (),
        TokenError,
    >)
        requires
            old(self)@.wf(),
        ensures
            final(self)@.wf(),
            r is Ok <==> old(self)@.is_admin_or_sub_admin(caller@),
            r is Ok ==> final(self)@ == old(self)@.spec_remove_whitelisted(identity@),
            r is Err ==> final(self)@ == old(self)@ && r == Err::<(), TokenError>(
                TokenError::Unauthorized,
            ),
    {
        if !self.initialized {
            return Err(TokenError::Unauthorized);
        }
        let r = self.identity.remove_whitelisted(caller, identity);
        proof {
            if r is Ok {
                assert(self@ =~= old(self)@.spec_remove_whitelisted(identity@));
            }
        }
        r
    }
}

} // verus!
