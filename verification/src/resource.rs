use vstd::prelude::*;

use crate::constants::{
    SEPARATOR, spec_escrow_tag, spec_maintainers_tag, spec_mint_tag, spec_vault_tag,
    spec_whitelist_tag,
};

verus! {

/// A namespace tag is usable for derivation when the separator byte does not
/// occur in it. All five tags of this library satisfy this
/// (`lemma_tags_sep_free`).
pub open spec fn sep_free(tag: Seq<u8>) -> bool {
    forall|i: int| 0 <= i < tag.len() ==> tag[i] != SEPARATOR
}

/// The derived identifier of the resource named by `seed` inside the
/// namespace of `tag`: the tag, the separator byte, then the seed. Because
/// no tag contains the separator, the derivation is injective
/// (`lemma_derive_injective`), so identifiers never collide across
/// namespaces and anyone can recompute them without a lookup table.
pub open spec fn spec_derive(tag: Seq<u8>, seed: Seq<u8>) -> Seq<u8> {
    tag + seq![SEPARATOR] + seed
}

/// Deterministically derives the identifier of the resource named by `seed`
/// inside the namespace of `tag`.
pub fn derive(tag: &Vec<u8>, seed: &Vec<u8>) -> (id: Vec<u8>)
    ensures
        id@ == spec_derive(tag@, seed@),
{
    let mut id: Vec<u8> = Vec::new();
    let tn = tag.len();
    for i in 0..tn
        invariant
            tn == tag@.len(),
            id@ =~= tag@.take(i as int),
    {
        id.push(tag[i]);
    }
    id.push(SEPARATOR);
    let sn = seed.len();
    for i in 0..sn
        invariant
            sn == seed@.len(),
            id@ =~= tag@ + seq![SEPARATOR] + seed@.take(i as int),
    {
        id.push(seed[i]);
    }
    proof {
        assert(tag@.take(tag@.len() as int) =~= tag@);
        assert(seed@.take(sn as int) =~= seed@);
        assert(id@ =~= spec_derive(tag@, seed@));
    }
    id
}

/// The derived identifier of the deployment's maintainer-set resource: the
/// maintainer namespace scopes that one resource, so its seed is empty.
pub fn maintainers_resource() -> (id: Vec<u8>)
    ensures
        id@ == spec_derive(spec_maintainers_tag(), Seq::empty()),
{
    let tag = crate::constants::maintainers_tag();
    let seed: Vec<u8> = Vec::new();
    derive(&tag, &seed)
}

/// The derived identifier of the deployment's whitelist-set resource: the
/// whitelist namespace scopes that one resource, so its seed is empty.
pub fn whitelist_resource() -> (id: Vec<u8>)
    ensures
        id@ == spec_derive(spec_whitelist_tag(), Seq::empty()),
{
    let tag = crate::constants::whitelist_tag();
    let seed: Vec<u8> = Vec::new();
    derive(&tag, &seed)
}

/// None of the library's namespace tags contains the separator byte, and no
/// two of them are equal.
pub proof fn lemma_tags_sep_free()
    ensures
        sep_free(spec_mint_tag()),
        sep_free(spec_maintainers_tag()),
        sep_free(spec_whitelist_tag()),
        sep_free(spec_escrow_tag()),
        sep_free(spec_vault_tag()),
        spec_mint_tag() != spec_maintainers_tag(),
        spec_mint_tag() != spec_whitelist_tag(),
        spec_mint_tag() != spec_escrow_tag(),
        spec_mint_tag() != spec_vault_tag(),
        spec_maintainers_tag() != spec_whitelist_tag(),
        spec_maintainers_tag() != spec_escrow_tag(),
        spec_maintainers_tag() != spec_vault_tag(),
        spec_whitelist_tag() != spec_escrow_tag(),
        spec_whitelist_tag() != spec_vault_tag(),
        spec_escrow_tag() != spec_vault_tag(),
{
    assert forall|i: int| 0 <= i < spec_mint_tag().len() implies spec_mint_tag()[i] != SEPARATOR by {
        assert(0 <= i < 4);
    }
    assert forall|i: int| 0 <= i < spec_maintainers_tag().len() implies spec_maintainers_tag()[i]
        != SEPARATOR by {
        assert(0 <= i < 11);
    }
    assert forall|i: int| 0 <= i < spec_whitelist_tag().len() implies spec_whitelist_tag()[i]
        != SEPARATOR by {
        assert(0 <= i < 9);
    }
    assert forall|i: int| 0 <= i < spec_escrow_tag().len() implies spec_escrow_tag()[i]
        != SEPARATOR by {
        assert(0 <= i < 6);
    }
    assert forall|i: int| 0 <= i < spec_vault_tag().len() implies spec_vault_tag()[i]
        != SEPARATOR by {
        assert(0 <= i < 5);
    }
}

/// Resource derivation is injective: two equal derived identifiers can only
/// come from the same namespace tag and the same seed. In particular,
/// identifiers never collide across the namespaces of two distinct tags,
/// whatever the seeds.
pub proof fn lemma_derive_injective(t1: Seq<u8>, s1: Seq<u8>, t2: Seq<u8>, s2: Seq<u8>)
    requires
        sep_free(t1),
        sep_free(t2),
        spec_derive(t1, s1) == spec_derive(t2, s2),
    ensures
        t1 == t2,
        s1 == s2,
{
    let e1 = spec_derive(t1, s1);
    let e2 = spec_derive(t2, s2);
    assert(e1.len() == t1.len() + 1 + s1.len());
    assert(e2.len() == t2.len() + 1 + s2.len());
    assert(e1[t1.len() as int] == SEPARATOR);
    assert(e2[t2.len() as int] == SEPARATOR);
    if t1.len() < t2.len() {
        assert(e2[t1.len() as int] == t2[t1.len() as int]);
        assert(e2[t1.len() as int] != SEPARATOR);
        assert(false);
    }
    if t2.len() < t1.len() {
        assert(e1[t2.len() as int] == t1[t2.len() as int]);
        assert(e1[t2.len() as int] != SEPARATOR);
        assert(false);
    }
    assert(t1.len() == t2.len());
    assert forall|i: int| 0 <= i < t1.len() implies t1[i] == t2[i] by {
        assert(e1[i] == t1[i]);
        assert(e2[i] == t2[i]);
    }
    assert(t1 =~= t2);
    assert forall|i: int| 0 <= i < s1.len() implies s1[i] == s2[i] by {
        assert(e1[t1.len() + 1 + i] == s1[i]);
        assert(e2[t2.len() + 1 + i] == s2[i]);
    }
    assert(s1 =~= s2);
}

/// Identifiers derived under two distinct namespace tags are distinct,
/// whatever the seeds.
pub proof fn lemma_namespaces_disjoint(t1: Seq<u8>, s1: Seq<u8>, t2: Seq<u8>, s2: Seq<u8>)
    requires
        sep_free(t1),
        sep_free(t2),
        t1 != t2,
    ensures
        spec_derive(t1, s1) != spec_derive(t2, s2),
{
    if spec_derive(t1, s1) == spec_derive(t2, s2) {
        lemma_derive_injective(t1, s1, t2, s2);
    }
}

} // verus!
