use vstd::prelude::*;

use crate::constants::{
    spec_escrow_tag, spec_maintainers_tag, spec_mint_tag, spec_vault_tag, spec_whitelist_tag,
};
use crate::errors::TokenError;
use crate::lifecycle::{DeploymentV, spec_new_record};
use crate::resource::{lemma_namespaces_disjoint, lemma_tags_sep_free, spec_derive};

verus! {

/// A successful `mint` credits the vault and leaves everything but the log
/// otherwise untouched; the registry stays well formed and no token appears
/// or vanishes.
pub proof fn lemma_spec_mint_effect(d: DeploymentV, caller: Seq<u8>, token: Seq<u8>, amount: u64)
    requires
        d.wf(),
        d.mint_ok(caller, token, amount),
        d.vault_balance_of(token) + amount <= u64::MAX,
    ensures
        d.spec_mint(caller, token, amount).wf(),
        d.spec_mint(caller, token, amount).identity == d.identity,
        forall|n: Seq<u8>|
            #[trigger] d.spec_mint(caller, token, amount).has_token(n) == d.has_token(n),
        d.spec_mint(caller, token, amount).vault_balance_of(token) == d.vault_balance_of(token)
            + amount,
{
    let d1 = d.spec_mint(caller, token, amount);
    let i = d.token_index(token);
    assert(0 <= i < d.tokens.len() && d.tokens[i].name == token);
    assert(forall|k: int| 0 <= k < d.tokens.len() ==> d1.tokens[k].name == d.tokens[k].name);
    assert forall|n: Seq<u8>| #[trigger] d1.has_token(n) == d.has_token(n) by {
        if d.has_token(n) {
            let k = choose|k: int| 0 <= k < d.tokens.len() && d.tokens[k].name == n;
            assert(d1.tokens[k].name == n);
        }
        if d1.has_token(n) {
            let k = choose|k: int| 0 <= k < d1.tokens.len() && d1.tokens[k].name == n;
            assert(d.tokens[k].name == n);
        }
    }
    assert forall|k: int| 0 <= k < d1.tokens.len() implies (#[trigger] d1.tokens[k]).wf() by {
        assert(d.tokens[k].wf());
    }
    let j = d1.token_index(token);
    assert(d1.has_token(token));
    assert(0 <= j < d1.tokens.len() && d1.tokens[j].name == token);
    if j < i {
        assert(d1.tokens[j].name != d1.tokens[i].name);
        assert(false);
    }
    if i < j {
        assert(d1.tokens[i].name != d1.tokens[j].name);
        assert(false);
    }
    assert(d1.vault_balance_of(token) == d1.tokens[i].vault_balance);
    assert(d.vault_balance_of(token) == d.tokens[i].vault_balance);
}

/// A successful `burn` debits the vault and leaves everything but the log
/// otherwise untouched; the registry stays well formed and no token appears
/// or vanishes.
pub proof fn lemma_spec_burn_effect(d: DeploymentV, caller: Seq<u8>, token: Seq<u8>, amount: u64)
    requires
        d.wf(),
        d.burn_ok(caller, token, amount),
    ensures
        d.spec_burn(caller, token, amount).wf(),
        d.spec_burn(caller, token, amount).identity == d.identity,
        forall|n: Seq<u8>|
            #[trigger] d.spec_burn(caller, token, amount).has_token(n) == d.has_token(n),
        d.spec_burn(caller, token, amount).vault_balance_of(token) == d.vault_balance_of(token)
            - amount,
{
    let d1 = d.spec_burn(caller, token, amount);
    let i = d.token_index(token);
    assert(0 <= i < d.tokens.len() && d.tokens[i].name == token);
    assert(forall|k: int| 0 <= k < d.tokens.len() ==> d1.tokens[k].name == d.tokens[k].name);
    assert forall|n: Seq<u8>| #[trigger] d1.has_token(n) == d.has_token(n) by {
        if d.has_token(n) {
            let k = choose|k: int| 0 <= k < d.tokens.len() && d.tokens[k].name == n;
            assert(d1.tokens[k].name == n);
        }
        if d1.has_token(n) {
            let k = choose|k: int| 0 <= k < d1.tokens.len() && d1.tokens[k].name == n;
            assert(d.tokens[k].name == n);
        }
    }
    assert forall|k: int| 0 <= k < d1.tokens.len() implies (#[trigger] d1.tokens[k]).wf() by {
        assert(d.tokens[k].wf());
    }
    let j = d1.token_index(token);
    assert(d1.has_token(token));
    assert(0 <= j < d1.tokens.len() && d1.tokens[j].name == token);
    if j < i {
        assert(d1.tokens[j].name != d1.tokens[i].name);
        assert(false);
    }
    if i < j {
        assert(d1.tokens[i].name != d1.tokens[j].name);
        assert(false);
    }
    assert(d1.vault_balance_of(token) == d1.tokens[i].vault_balance);
    assert(d.vault_balance_of(token) == d.tokens[i].vault_balance);
}

/// A successful `create_token` registers exactly the fresh record, with a
/// vault balance of zero, and touches no other token and not the identity
/// registry.
pub proof fn lemma_spec_create_effect(d: DeploymentV, caller: Seq<u8>, name: Seq<u8>, decimals: u8)
    requires
        d.wf(),
        d.create_ok(caller, name),
    ensures
        d.spec_create_token(caller, name, decimals).wf(),
        d.spec_create_token(caller, name, decimals).identity == d.identity,
        d.spec_create_token(caller, name, decimals).has_token(name),
        d.spec_create_token(caller, name, decimals).token_of(name) == spec_new_record(
            name,
            decimals,
        ),
        d.spec_create_token(caller, name, decimals).vault_balance_of(name) == 0,
        forall|n: Seq<u8>|
            n != name ==> #[trigger] d.spec_create_token(caller, name, decimals).has_token(n)
                == d.has_token(n),
{
    let d1 = d.spec_create_token(caller, name, decimals);
    let len = d.tokens.len() as int;
    assert(d1.tokens.len() == len + 1);
    assert(d1.tokens[len] == spec_new_record(name, decimals));
    assert forall|k: int| 0 <= k < len implies d.tokens[k].name != name by {
        if d.tokens[k].name == name {
            assert(d.has_token(name));
        }
    }
    assert forall|i: int, j: int| 0 <= i < j < d1.tokens.len() implies d1.tokens[i].name
        != d1.tokens[j].name by {
        if j < len {
            assert(d.tokens[i].name != d.tokens[j].name);
        } else {
            assert(d1.tokens[j].name == name);
            assert(d1.tokens[i].name == d.tokens[i].name);
        }
    }
    assert forall|k: int| 0 <= k < d1.tokens.len() implies (#[trigger] d1.tokens[k]).wf() by {
        if k < len {
            assert(d.tokens[k].wf());
        }
    }
    assert(d1.has_token(name));
    let j = d1.token_index(name);
    assert(0 <= j < d1.tokens.len() && d1.tokens[j].name == name);
    if j < len {
        assert(d.tokens[j].name != name);
        assert(false);
    }
    assert(j == len);
    assert forall|n: Seq<u8>| n != name implies #[trigger] d1.has_token(n) == d.has_token(n) by {
        if d.has_token(n) {
            let k = choose|k: int| 0 <= k < d.tokens.len() && d.tokens[k].name == n;
            assert(d1.tokens[k].name == n);
        }
        if d1.has_token(n) {
            let k = choose|k: int| 0 <= k < d1.tokens.len() && d1.tokens[k].name == n;
            assert(k < len);
            assert(d.tokens[k].name == n);
        }
    }
}

/// One supply-changing operation aimed at one token's vault: a mint or a
/// (vault) burn, with the caller that attempts it.
pub ghost enum VaultOp {
    Mint { caller: Seq<u8>, amount: u64 },
    Burn { caller: Seq<u8>, amount: u64 },
}

/// Whether the operation succeeds in state `d`: exactly the success
/// condition of the exec operation (for a mint, including the machine bound
/// that the credited balance fits in its word).
pub open spec fn vault_op_ok(d: DeploymentV, token: Seq<u8>, op: VaultOp) -> bool {
    match op {
        VaultOp::Mint { caller, amount } => d.mint_ok(caller, token, amount)
            && d.vault_balance_of(token) + amount <= u64::MAX,
        VaultOp::Burn { caller, amount } => d.burn_ok(caller, token, amount),
    }
}

/// The state after attempting the operation: the successful transition, or
/// the state unchanged where the operation fails (a failed operation has no
/// observable effect).
pub open spec fn apply_vault_op(d: DeploymentV, token: Seq<u8>, op: VaultOp) -> DeploymentV {
    if vault_op_ok(d, token, op) {
        match op {
            VaultOp::Mint { caller, amount } => d.spec_mint(caller, token, amount),
            VaultOp::Burn { caller, amount } => d.spec_burn(caller, token, amount),
        }
    } else {
        d
    }
}

/// The state after attempting a whole sequence of mints and burns, in order.
pub open spec fn run_vault_ops(d: DeploymentV, token: Seq<u8>, ops: Seq<VaultOp>) -> DeploymentV
    decreases ops.len(),
{
    if ops.len() == 0 {
        d
    } else {
        apply_vault_op(run_vault_ops(d, token, ops.drop_last()), token, ops.last())
    }
}

/// The sum of the amounts of the mints that succeed along the run.
pub open spec fn minted_in_run(d: DeploymentV, token: Seq<u8>, ops: Seq<VaultOp>) -> int
    decreases ops.len(),
{
    if ops.len() == 0 {
        0
    } else {
        let prev = run_vault_ops(d, token, ops.drop_last());
        minted_in_run(d, token, ops.drop_last()) + (match ops.last() {
            VaultOp::Mint { caller, amount } => if vault_op_ok(prev, token, ops.last()) {
                amount as int
            } else {
                0
            },
            VaultOp::Burn { caller, amount } => 0,
        })
    }
}

/// The sum of the amounts of the burns that succeed along the run.
pub open spec fn burned_in_run(d: DeploymentV, token: Seq<u8>, ops: Seq<VaultOp>) -> int
    decreases ops.len(),
{
    if ops.len() == 0 {
        0
    } else {
        let prev = run_vault_ops(d, token, ops.drop_last());
        burned_in_run(d, token, ops.drop_last()) + (match ops.last() {
            VaultOp::Mint { caller, amount } => 0,
            VaultOp::Burn { caller, amount } => if vault_op_ok(prev, token, ops.last()) {
                amount as int
            } else {
                0
            },
        })
    }
}

/// Vault accounting law: after any sequence of mints and burns, the vault
/// balance of a token equals its starting balance plus the sum of the
/// minted amounts minus the sum of the burned amounts; the balance never
/// goes negative, because a burn beyond the balance fails (with
/// `InsufficientBalance`) and leaves it unchanged. The registry stays well
/// formed throughout, and the identity registry and the set of registered
/// tokens are untouched.
pub proof fn lemma_vault_balance_accounting(d: DeploymentV, token: Seq<u8>, ops: Seq<VaultOp>)
    requires
        d.wf(),
    ensures
        run_vault_ops(d, token, ops).wf(),
        run_vault_ops(d, token, ops).identity == d.identity,
        forall|n: Seq<u8>| #[trigger] run_vault_ops(d, token, ops).has_token(n) == d.has_token(n),
        run_vault_ops(d, token, ops).vault_balance_of(token) == d.vault_balance_of(token)
            + minted_in_run(d, token, ops) - burned_in_run(d, token, ops),
        burned_in_run(d, token, ops) <= d.vault_balance_of(token) + minted_in_run(d, token, ops),
    decreases ops.len(),
{
    if ops.len() > 0 {
        lemma_vault_balance_accounting(d, token, ops.drop_last());
        let prev = run_vault_ops(d, token, ops.drop_last());
        let op = ops.last();
        if vault_op_ok(prev, token, op) {
            match op {
                VaultOp::Mint { caller, amount } => {
                    lemma_spec_mint_effect(prev, caller, token, amount);
                },
                VaultOp::Burn { caller, amount } => {
                    lemma_spec_burn_effect(prev, caller, token, amount);
                },
            }
        }
    }
}

/// Vault accounting from birth: a token's vault starts at zero when the
/// token is created, so after any further sequence of mints and burns it
/// holds exactly the minted sum minus the burned sum.
pub proof fn lemma_vault_accounting_from_creation(
    d: DeploymentV,
    caller: Seq<u8>,
    name: Seq<u8>,
    decimals: u8,
    ops: Seq<VaultOp>,
)
    requires
        d.wf(),
        d.create_ok(caller, name),
    ensures
        ({
            let d1 = d.spec_create_token(caller, name, decimals);
            run_vault_ops(d1, name, ops).vault_balance_of(name) == minted_in_run(d1, name, ops)
                - burned_in_run(d1, name, ops)
        }),
{
    lemma_spec_create_effect(d, caller, name, decimals);
    lemma_vault_balance_accounting(d.spec_create_token(caller, name, decimals), name, ops);
}

/// `create_token` is not idempotent: once a creation of `name` has
/// succeeded, a second creation under the same name cannot succeed; for an
/// authorized caller it fails with exactly `DuplicateToken`, and the record
/// the first creation registered stands unchanged (a failed operation
/// changes nothing, by the operation's own contract).
pub proof fn lemma_create_token_not_idempotent(
    d: DeploymentV,
    first_caller: Seq<u8>,
    second_caller: Seq<u8>,
    name: Seq<u8>,
    first_decimals: u8,
    second_decimals: u8,
)
    requires
        d.wf(),
        d.create_ok(first_caller, name),
    ensures
        ({
            let d1 = d.spec_create_token(first_caller, name, first_decimals);
            &&& !d1.create_ok(second_caller, name)
            &&& (d1.is_maintainer_or_admin(second_caller) ==> d1.create_err(second_caller, name)
                == TokenError::DuplicateToken)
            &&& d1.has_token(name)
            &&& d1.token_of(name) == spec_new_record(name, first_decimals)
        }),
{
    lemma_spec_create_effect(d, first_caller, name, first_decimals);
}

/// `initialize` is callable exactly once: after a successful initialization
/// the deployment is initialized, so a second `initialize` cannot succeed
/// (it fails with `AlreadyInitialized` and leaves the identity registry
/// untouched, by the operation's own contract).
pub proof fn lemma_initialize_exactly_once(
    d: DeploymentV,
    admin: Seq<u8>,
    sub_admin: Seq<u8>,
    whitelist: Seq<Seq<u8>>,
)
    requires
        d.init_ok(),
    ensures
        !d.spec_initialize(admin, sub_admin, whitelist).init_ok(),
{
}

/// Resource derivation is deterministic (it is a function of the tag and
/// the seed alone) and injective across the library's namespaces: the same
/// seed derives distinct identifiers under any two distinct tags.
pub proof fn lemma_derivation_separates_namespaces(seed: Seq<u8>)
    ensures
        spec_derive(spec_mint_tag(), seed) != spec_derive(spec_whitelist_tag(), seed),
        spec_derive(spec_mint_tag(), seed) != spec_derive(spec_maintainers_tag(), seed),
        spec_derive(spec_mint_tag(), seed) != spec_derive(spec_escrow_tag(), seed),
        spec_derive(spec_mint_tag(), seed) != spec_derive(spec_vault_tag(), seed),
        spec_derive(spec_maintainers_tag(), seed) != spec_derive(spec_whitelist_tag(), seed),
        spec_derive(spec_maintainers_tag(), seed) != spec_derive(spec_escrow_tag(), seed),
        spec_derive(spec_maintainers_tag(), seed) != spec_derive(spec_vault_tag(), seed),
        spec_derive(spec_whitelist_tag(), seed) != spec_derive(spec_escrow_tag(), seed),
        spec_derive(spec_whitelist_tag(), seed) != spec_derive(spec_vault_tag(), seed),
        spec_derive(spec_escrow_tag(), seed) != spec_derive(spec_vault_tag(), seed),
{
    lemma_tags_sep_free();
    lemma_namespaces_disjoint(spec_mint_tag(), seed, spec_whitelist_tag(), seed);
    lemma_namespaces_disjoint(spec_mint_tag(), seed, spec_maintainers_tag(), seed);
    lemma_namespaces_disjoint(spec_mint_tag(), seed, spec_escrow_tag(), seed);
    lemma_namespaces_disjoint(spec_mint_tag(), seed, spec_vault_tag(), seed);
    lemma_namespaces_disjoint(spec_maintainers_tag(), seed, spec_whitelist_tag(), seed);
    lemma_namespaces_disjoint(spec_maintainers_tag(), seed, spec_escrow_tag(), seed);
    lemma_namespaces_disjoint(spec_maintainers_tag(), seed, spec_vault_tag(), seed);
    lemma_namespaces_disjoint(spec_whitelist_tag(), seed, spec_escrow_tag(), seed);
    lemma_namespaces_disjoint(spec_whitelist_tag(), seed, spec_vault_tag(), seed);
    lemma_namespaces_disjoint(spec_escrow_tag(), seed, spec_vault_tag(), seed);
}

} // verus!
