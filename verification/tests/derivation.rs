use token_program::constants::{escrow_tag, maintainers_tag, mint_tag, vault_tag, whitelist_tag};
use token_program::lifecycle::{CreateTokenParams, Deployment};

fn bv(s: &[u8]) -> Vec<u8> {
    s.to_vec()
}

fn derived(tag: &Vec<u8>, seed: &Vec<u8>) -> Vec<u8> {
    token_program::resource::derive(tag, seed)
}

#[test]
fn derivation_is_deterministic() {
    let a = derived(&mint_tag(), &bv(b"X"));
    let b = derived(&mint_tag(), &bv(b"X"));
    assert_eq!(a, b);
    let c = derived(&vault_tag(), &bv(b""));
    let e = derived(&vault_tag(), &bv(b""));
    assert_eq!(c, e);
}

#[test]
fn derivation_is_injective_across_namespaces() {
    let seed = bv(b"X");
    let tags = [mint_tag(), maintainers_tag(), whitelist_tag(), escrow_tag(), vault_tag()];
    for (i, t1) in tags.iter().enumerate() {
        for (j, t2) in tags.iter().enumerate() {
            if i != j {
                assert_ne!(derived(t1, &seed), derived(t2, &seed));
            }
        }
    }
}

#[test]
fn derivation_separates_seeds() {
    assert_ne!(derived(&mint_tag(), &bv(b"X")), derived(&mint_tag(), &bv(b"Y")));
    assert_ne!(derived(&mint_tag(), &bv(b"")), derived(&mint_tag(), &bv(b"X")));
}

#[test]
fn registry_set_resources_never_collide() {
    let maintainers = token_program::resource::maintainers_resource();
    let whitelist = token_program::resource::whitelist_resource();
    assert_ne!(maintainers, whitelist);
    // A token named like a tag still cannot collide with the set resources.
    assert_ne!(maintainers, derived(&mint_tag(), &bv(b"maintainers")));
    assert_ne!(whitelist, derived(&vault_tag(), &bv(b"whitelist")));
}

#[test]
fn token_resources_are_recomputable_without_the_registry() {
    let mut d = Deployment::new();
    d.initialize(&bv(b"admin"), &bv(b"sub-admin"), &Vec::new()).unwrap();
    d.create_token(&bv(b"admin"), &CreateTokenParams { name: bv(b"GOLD"), decimals: 6 })
        .unwrap();
    let rec = d.token_record(&bv(b"GOLD")).unwrap();
    // Anyone can recompute the identifiers from the name and the fixed tags.
    assert_eq!(rec.mint_resource, derived(&mint_tag(), &bv(b"GOLD")));
    assert_eq!(rec.escrow_resource, derived(&escrow_tag(), &bv(b"GOLD")));
    assert_eq!(rec.vault_resource, derived(&vault_tag(), &bv(b"GOLD")));
    // Distinct purposes of the same token never collide.
    assert_ne!(rec.mint_resource, rec.escrow_resource);
    assert_ne!(rec.mint_resource, rec.vault_resource);
    assert_ne!(rec.escrow_resource, rec.vault_resource);
}
