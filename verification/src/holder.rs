use vstd::prelude::*;

verus! {

/// A snapshot of an arbitrary holder's token account, as the external
/// token-accounting collaborator stores it: its balance and the delegation
/// (approval) recorded on it, if any. The library never owns such accounts;
/// a delegated burn takes one, validates it, and hands it back debited.
pub struct HolderAccount {
    /// The identity that owns the account.
    pub owner: Vec<u8>,
    /// The account's balance.
    pub balance: u64,
    /// The identity delegated to spend from the account, if any.
    pub delegate: Option<Vec<u8>>,
    /// How much the delegate may still spend.
    pub delegated_amount: u64,
}

/// The mathematical value of a `HolderAccount`.
#[verifier::ext_equal]
pub ghost struct HolderV {
    pub owner: Seq<u8>,
    pub balance: u64,
    pub delegate: Option<Seq<u8>>,
    pub delegated_amount: u64,
}

impl View for HolderAccount {
    type V = HolderV;

    open spec fn view(&self) -> HolderV {
        HolderV {
            owner: self.owner@,
            balance: self.balance,
            delegate: match self.delegate {
                Some(ref d) => Some(d@),
                None => None,
            },
            delegated_amount: self.delegated_amount,
        }
    }
}

impl HolderV {
    /// Whether `caller` holds a delegation over the account sufficient for
    /// `amount`.
    pub open spec fn delegation_covers(self, caller: Seq<u8>, amount: u64) -> bool {
        self.delegate matches Some(d) && d == caller && amount <= self.delegated_amount
    }
}

} // verus!
