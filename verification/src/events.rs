use vstd::prelude::*;

verus! {

/// Emitted once, by the successful initialization of the deployment.
#[derive(Clone, Debug, PartialEq, Eq)]
pub struct InitEvent {
    pub admin: Vec<u8>,
    pub sub_admin: Vec<u8>,
}

/// Emitted by the successful creation of a token.
#[derive(Clone, Debug, PartialEq, Eq)]
pub struct CreateTokenEvent {
    /// Token Name
    pub name: Vec<u8>,
}

/// Emitted by a successful mint: `amount` was credited to the vault of `token`.
#[derive(Clone, Debug, PartialEq, Eq)]
pub struct MintEvent {
    pub token: Vec<u8>,
    pub amount: u64,
}

/// Emitted by a successful transfer of `amount` of `token` from `from` to `to`.
#[derive(Clone, Debug, PartialEq, Eq)]
pub struct TransferEvent {
    pub token: Vec<u8>,
    pub from: Vec<u8>,
    pub to: Vec<u8>,
    pub amount: u64,
}

/// Emitted beside `CreateTokenEvent`: the derived escrow and vault resource
/// identifiers of the new token.
#[derive(Clone, Debug, PartialEq, Eq)]
pub struct InitResourcesEvent {
    pub token: Vec<u8>,
    pub escrow_account: Vec<u8>,
    pub vault_account: Vec<u8>,
}

/// Emitted by a successful burn, from the vault or from a holder's account.
#[derive(Clone, Debug, PartialEq, Eq)]
pub struct BurnEvent {
    pub token: Vec<u8>,
    pub amount: u64,
}

/// One entry of the deployment's append-only audit log: the typed record of
/// one successful operation. Entries are written once and never mutated or
/// consumed by this library.
#[derive(Clone, Debug, PartialEq, Eq)]
pub enum Event {
    Init(InitEvent),
    CreateToken(CreateTokenEvent),
    Mint(MintEvent),
    Transfer(TransferEvent),
    InitResources(InitResourcesEvent),
    Burn(BurnEvent),
}

/// The mathematical value of an `Event`.
#[verifier::ext_equal]
pub ghost enum EventV {
    Init { admin: Seq<u8>, sub_admin: Seq<u8> },
    CreateToken { name: Seq<u8> },
    Mint { token: Seq<u8>, amount: u64 },
    Transfer { token: Seq<u8>, from: Seq<u8>, to: Seq<u8>, amount: u64 },
    InitResources { token: Seq<u8>, escrow_account: Seq<u8>, vault_account: Seq<u8> },
    Burn { token: Seq<u8>, amount: u64 },
}

impl View for Event {
    type V = EventV;

    open spec fn view(&self) -> EventV {
        match self {
            Event::Init(e) => EventV::Init { admin: e.admin@, sub_admin: e.sub_admin@ },
            Event::CreateToken(e) => EventV::CreateToken { name: e.name@ },
            Event::Mint(e) => EventV::Mint { token: e.token@, amount: e.amount },
            Event::Transfer(e) => EventV::Transfer {
                token: e.token@,
                from: e.from@,
                to: e.to@,
                amount: e.amount,
            },
            Event::InitResources(e) => EventV::InitResources {
                token: e.token@,
                escrow_account: e.escrow_account@,
                vault_account: e.vault_account@,
            },
            Event::Burn(e) => EventV::Burn { token: e.token@, amount: e.amount },
        }
    }
}

} // verus!
