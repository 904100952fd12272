use vstd::prelude::*;

verus! {

/// The byte that separates a namespace tag from its seed inside a derived
/// resource identifier. No namespace tag contains it, which is what makes
/// the derivation injective.
pub const SEPARATOR: u8 = 0x2f;

/// Namespace tag of the per-token supply-accounting (mint) resources: "mint".
pub open spec fn spec_mint_tag() -> Seq<u8> {
    seq![0x6du8, 0x69u8, 0x6eu8, 0x74u8]
}

/// Namespace tag of the maintainer-set resource: "maintainers".
pub open spec fn spec_maintainers_tag() -> Seq<u8> {
    seq![0x6du8, 0x61u8, 0x69u8, 0x6eu8, 0x74u8, 0x61u8, 0x69u8, 0x6eu8, 0x65u8, 0x72u8, 0x73u8]
}

/// Namespace tag of the whitelist-set resource: "whitelist".
pub open spec fn spec_whitelist_tag() -> Seq<u8> {
    seq![0x77u8, 0x68u8, 0x69u8, 0x74u8, 0x65u8, 0x6cu8, 0x69u8, 0x73u8, 0x74u8]
}

/// Namespace tag of the per-token escrow resources: "escrow".
pub open spec fn spec_escrow_tag() -> Seq<u8> {
    seq![0x65u8, 0x73u8, 0x63u8, 0x72u8, 0x6fu8, 0x77u8]
}

/// Namespace tag of the per-token vault resources: "vault".
pub open spec fn spec_vault_tag() -> Seq<u8> {
    seq![0x76u8, 0x61u8, 0x75u8, 0x6cu8, 0x74u8]
}

pub fn mint_tag() -> (t: Vec<u8>)
    ensures
        t@ == spec_mint_tag(),
{
    let mut t: Vec<u8> = Vec::new();
    t.push(0x6d);
    t.push(0x69);
    t.push(0x6e);
    t.push(0x74);
    proof {
        assert(t@ =~= spec_mint_tag());
    }
    t
}

pub fn maintainers_tag() -> (t: Vec<u8>)
    ensures
        t@ == spec_maintainers_tag(),
{
    let mut t: Vec<u8> = Vec::new();
    t.push(0x6d);
    t.push(0x61);
    t.push(0x69);
    t.push(0x6e);
    t.push(0x74);
    t.push(0x61);
    t.push(0x69);
    t.push(0x6e);
    t.push(0x65);
    t.push(0x72);
    t.push(0x73);
    proof {
        assert(t@ =~= spec_maintainers_tag());
    }
    t
}

pub fn whitelist_tag() -> (t: Vec<u8>)
    ensures
        t@ == spec_whitelist_tag(),
{
    let mut t: Vec<u8> = Vec::new();
    t.push(0x77);
    t.push(0x68);
    t.push(0x69);
    t.push(0x74);
    t.push(0x65);
    t.push(0x6c);
    t.push(0x69);
    t.push(0x73);
    t.push(0x74);
    proof {
        assert(t@ =~= spec_whitelist_tag());
    }
    t
}

pub fn escrow_tag() -> (t: Vec<u8>)
    ensures
        t@ == spec_escrow_tag(),
{
    let mut t: Vec<u8> = Vec::new();
    t.push(0x65);
    t.push(0x73);
    t.push(0x63);
    t.push(0x72);
    t.push(0x6f);
    t.push(0x77);
    proof {
        assert(t@ =~= spec_escrow_tag());
    }
    t
}

pub fn vault_tag() -> (t: Vec<u8>)
    ensures
        t@ == spec_vault_tag(),
{
    let mut t: Vec<u8> = Vec::new();
    t.push(0x76);
    t.push(0x61);
    t.push(0x75);
    t.push(0x6c);
    t.push(0x74);
    proof {
        assert(t@ =~= spec_vault_tag());
    }
    t
}

} // verus!
