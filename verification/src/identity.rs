use vstd::prelude::*;

use crate::bytes::{bytes_eq, clone_bytes, contains_bytes, unique, views_of};
use crate::errors::TokenError;

verus! {

/// The identity registry of a deployment: who administers it, who maintains
/// it, and which end users are whitelisted to hold or receive tokens.
pub struct IdentityState {
    /// The one administrator, set at initialization.
    pub admin: Vec<u8>,
    /// The one sub-administrator, set at initialization.
    pub sub_admin: Vec<u8>,
    /// Privileged identities below the admin; mutable by the admin only.
    pub maintainers: Vec<Vec<u8>>,
    /// End users permitted to hold or receive tokens; mutable by the admin
    /// and the sub-admin.
    pub whitelist: Vec<Vec<u8>>,
}

/// The mathematical value of an `IdentityState`.
#[verifier::ext_equal]
pub ghost struct IdentityV {
    pub admin: Seq<u8>,
    pub sub_admin: Seq<u8>,
    pub maintainers: Seq<Seq<u8>>,
    pub whitelist: Seq<Seq<u8>>,
}

impl View for IdentityState {
    type V = IdentityV;

    open spec fn view(&self) -> IdentityV {
        IdentityV {
            admin: self.admin@,
            sub_admin: self.sub_admin@,
            maintainers: views_of(self.maintainers@),
            whitelist: views_of(self.whitelist@),
        }
    }
}

/// `s` with `x` added, unless it is already a member: set insertion on a
/// sequence without repetition.
pub open spec fn add_member(s: Seq<Seq<u8>>, x: Seq<u8>) -> Seq<Seq<u8>> {
    if s.contains(x) {
        s
    } else {
        s.push(x)
    }
}

impl IdentityV {
    /// The maintainer set and the whitelist hold no repeated entry.
    pub open spec fn wf(self) -> bool {
        &&& unique(self.maintainers)
        &&& unique(self.whitelist)
    }

    pub open spec fn is_admin(self, caller: Seq<u8>) -> bool {
        self.admin == caller
    }

    pub open spec fn is_admin_or_sub_admin(self, caller: Seq<u8>) -> bool {
        self.admin == caller || self.sub_admin == caller
    }

    pub open spec fn is_maintainer_or_admin(self, caller: Seq<u8>) -> bool {
        self.admin == caller || self.maintainers.contains(caller)
    }

    pub open spec fn is_whitelisted(self, caller: Seq<u8>) -> bool {
        self.whitelist.contains(caller)
    }
}

impl IdentityState {
    /// Whether `caller` is the admin.
    pub fn is_admin(&self, caller: &Vec<u8>) -> (r: bool)
        ensures
            r == self@.is_admin(caller@),
    {
        bytes_eq(&self.admin, caller)
    }

    /// Whether `caller` is the admin or the sub-admin.
    pub fn is_admin_or_sub_admin(&self, caller: &Vec<u8>) -> (r: bool)
        ensures
            r == self@.is_admin_or_sub_admin(caller@),
    {
        bytes_eq(&self.admin, caller) || bytes_eq(&self.sub_admin, caller)
    }

    /// Whether `caller` is the admin or a maintainer.
    pub fn is_maintainer_or_admin(&self, caller: &Vec<u8>) -> (r: bool)
        ensures
            r == self@.is_maintainer_or_admin(caller@),
    {
        bytes_eq(&self.admin, caller) || contains_bytes(&self.maintainers, caller)
    }

    /// Whether `caller` is whitelisted.
    pub fn is_whitelisted(&self, caller: &Vec<u8>) -> (r: bool)
        ensures
            r == self@.is_whitelisted(caller@),
    {
        contains_bytes(&self.whitelist, caller)
    }

    /// Adds `identity` to the maintainer set. Only the admin may do so;
    /// any other caller is refused with `Unauthorized` and changes nothing.
    /// Adding a present member changes nothing.
    pub fn add_maintainer(&mut self, caller: &Vec<u8>, identity: &Vec<u8>) -> (r: Result<
        (),
        TokenError,
    >)
        requires
            old(self)@.wf(),
        ensures
            final(self)@.wf(),
            r is Ok <==> old(self)@.is_admin(caller@),
            r is Ok ==> final(self)@ == (IdentityV {
                maintainers: add_member(old(self)@.maintainers, identity@),
                ..old(self)@
            }),
            r is Err ==> final(self)@ == old(self)@ && r == Err::<(), TokenError>(
                TokenError::Unauthorized,
            ),
    {
        if !self.is_admin(caller) {
            return Err(TokenError::Unauthorized);
        }
        if !contains_bytes(&self.maintainers, identity) {
            self.maintainers.push(clone_bytes(identity));
            proof {
                assert(views_of(self.maintainers@) =~= add_member(
                    old(self)@.maintainers,
                    identity@,
                ));
                assert forall|i: int, j: int|
                    0 <= i < j < self@.maintainers.len() implies self@.maintainers[i]
                    != self@.maintainers[j] by {
                    if j == self@.maintainers.len() - 1 {
                        if old(self)@.maintainers[i] == identity@ {
                            assert(old(self)@.maintainers.contains(identity@));
                        }
                    }
                }
            }
        }
        proof {
            assert(self@ =~= (IdentityV {
                maintainers: add_member(old(self)@.maintainers, identity@),
                ..old(self)@
            }));
        }
        Ok(())
    }

    /// Removes `identity` from the maintainer set. Only the admin may do so;
    /// any other caller is refused with `Unauthorized` and changes nothing.
    /// Removing an absent member changes nothing.
    #[verifier::loop_isolation(false)]
    pub fn remove_maintainer(&mut self, caller: &Vec<u8>, identity: &Vec<u8>) -> (r: Result<
        (),
        TokenError,
    >)
        requires
            old(self)@.wf(),
        ensures
            final(self)@.wf(),
            r is Ok <==> old(self)@.is_admin(caller@),
            r is Ok ==> final(self)@ == (IdentityV {
                maintainers: old(self)@.maintainers.remove_value(identity@),
                ..old(self)@
            }),
            r is Err ==> final(self)@ == old(self)@ && r == Err::<(), TokenError>(
                TokenError::Unauthorized,
            ),
    {
        if !self.is_admin(caller) {
            return Err(TokenError::Unauthorized);
        }
        let ghost before = self@.maintainers;
        let n = self.maintainers.len();
        for i in 0..n
            invariant
                n == self.maintainers@.len(),
                self@ == old(self)@,
                forall|k: int| 0 <= k < i ==> views_of(self.maintainers@)[k] != identity@,
        {
            if bytes_eq(&self.maintainers[i], identity) {
                proof {
                    assert(before[i as int] == identity@);
                    assert(before.contains(identity@));
                    before.index_of_first_ensures(identity@);
                    match before.index_of_first(identity@) {
                        Some(fi) => {
                            if fi < i {
                                assert(before[fi] != identity@);
                                assert(false);
                            }
                            if fi > i {
                                assert(before[i as int] != identity@);
                                assert(false);
                            }
                            assert(fi == i);
                        },
                        None => {
                            assert(false);
                        },
                    }
                }
                self.maintainers.remove(i);
                proof {
                    assert(views_of(self.maintainers@) =~= before.remove(i as int));
                    assert(self@.maintainers =~= before.remove_value(identity@));
                    assert forall|p: int, q: int|
                        0 <= p < q < self@.maintainers.len() implies self@.maintainers[p]
                        != self@.maintainers[q] by {
                        let bp = if p < i { p } else { p + 1 };
                        let bq = if q < i { q } else { q + 1 };
                        assert(self@.maintainers[p] == before[bp]);
                        assert(self@.maintainers[q] == before[bq]);
                    }
                    assert(self@ =~= (IdentityV {
                        maintainers: old(self)@.maintainers.remove_value(identity@),
                        ..old(self)@
                    }));
                }
                return Ok(());
            }
        }
        proof {
            before.index_of_first_ensures(identity@);
            match before.index_of_first(identity@) {
                Some(fi) => {
                    assert(views_of(self.maintainers@)[fi] != identity@);
                    assert(false);
                },
                None => {},
            }
            assert(self@ =~= (IdentityV {
                maintainers: old(self)@.maintainers.remove_value(identity@),
                ..old(self)@
            }));
        }
        Ok(())
    }

    /// Adds `identity` to the whitelist. Only the admin or the sub-admin may
    /// do so; any other caller is refused with `Unauthorized` and changes
    /// nothing. Adding a present member changes nothing.
    pub fn add_whitelisted(&mut self, caller: &Vec<u8>, identity: &Vec<u8>) -> (r: Result<
        (),
        TokenError,
    >)
        requires
            old(self)@.wf(),
        ensures
            final(self)@.wf(),
            r is Ok <==> old(self)@.is_admin_or_sub_admin(caller@),
            r is Ok ==> final(self)@ == (IdentityV {
                whitelist: add_member(old(self)@.whitelist, identity@),
                ..old(self)@
            }),
            r is Err ==> final(self)@ == old(self)@ && r == Err::<(), TokenError>(
                TokenError::Unauthorized,
            ),
    {
        if !self.is_admin_or_sub_admin(caller) {
            return Err(TokenError::Unauthorized);
        }
        if !contains_bytes(&self.whitelist, identity) {
            self.whitelist.push(clone_bytes(identity));
            proof {
                assert(views_of(self.whitelist@) =~= add_member(old(self)@.whitelist, identity@));
                assert forall|i: int, j: int|
                    0 <= i < j < self@.whitelist.len() implies self@.whitelist[i]
                    != self@.whitelist[j] by {
                    if j == self@.whitelist.len() - 1 {
                        if old(self)@.whitelist[i] == identity@ {
                            assert(old(self)@.whitelist.contains(identity@));
                        }
                    }
                }
            }
        }
        proof {
            assert(self@ =~= (IdentityV {
                whitelist: add_member(old(self)@.whitelist, identity@),
                ..old(self)@
            }));
        }
        Ok(())
    }

    /// Removes `identity` from the whitelist. Only the admin or the
    /// sub-admin may do so; any other caller is refused with `Unauthorized`
    /// and changes nothing. Removing an absent member changes nothing.
    #[verifier::loop_isolation(false)]
    pub fn remove_whitelisted(&mut self, caller: &Vec<u8>, identity: &Vec<u8>) -> (r: Result<
        (),
        TokenError,
    >)
        requires
            old(self)@.wf(),
        ensures
            final(self)@.wf(),
            r is Ok <==> old(self)@.is_admin_or_sub_admin(caller@),
            r is Ok ==> final(self)@ == (IdentityV {
                whitelist: old(self)@.whitelist.remove_value(identity@),
                ..old(self)@
            }),
            r is Err ==> final(self)@ == old(self)@ && r == Err::<(), TokenError>(
                TokenError::Unauthorized,
            ),
    {
        if !self.is_admin_or_sub_admin(caller) {
            return Err(TokenError::Unauthorized);
        }
        let ghost before = self@.whitelist;
        let n = self.whitelist.len();
        for i in 0..n
            invariant
                n == self.whitelist@.len(),
                self@ == old(self)@,
                forall|k: int| 0 <= k < i ==> views_of(self.whitelist@)[k] != identity@,
        {
            if bytes_eq(&self.whitelist[i], identity) {
                proof {
                    assert(before[i as int] == identity@);
                    assert(before.contains(identity@));
                    before.index_of_first_ensures(identity@);
                    match before.index_of_first(identity@) {
                        Some(fi) => {
                            if fi < i {
                                assert(before[fi] != identity@);
                                assert(false);
                            }
                            if fi > i {
                                assert(before[i as int] != identity@);
                                assert(false);
                            }
                            assert(fi == i);
                        },
                        None => {
                            assert(false);
                        },
                    }
                }
                self.whitelist.remove(i);
                proof {
                    assert(views_of(self.whitelist@) =~= before.remove(i as int));
                    assert(self@.whitelist =~= before.remove_value(identity@));
                    assert forall|p: int, q: int|
                        0 <= p < q < self@.whitelist.len() implies self@.whitelist[p]
                        != self@.whitelist[q] by {
                        let bp = if p < i { p } else { p + 1 };
                        let bq = if q < i { q } else { q + 1 };
                        assert(self@.whitelist[p] == before[bp]);
                        assert(self@.whitelist[q] == before[bq]);
                    }
                    assert(self@ =~= (IdentityV {
                        whitelist: old(self)@.whitelist.remove_value(identity@),
                        ..old(self)@
                    }));
                }
                return Ok(());
            }
        }
        proof {
            before.index_of_first_ensures(identity@);
            match before.index_of_first(identity@) {
                Some(fi) => {
                    assert(views_of(self.whitelist@)[fi] != identity@);
                    assert(false);
                },
                None => {},
            }
            assert(self@ =~= (IdentityV {
                whitelist: old(self)@.whitelist.remove_value(identity@),
                ..old(self)@
            }));
        }
        Ok(())
    }
}

} // verus!
