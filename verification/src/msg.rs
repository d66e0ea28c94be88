//! Request and response shapes of the escrow, already decoded into plain
//! values: the wire encoding and address validation happen outside the
//! library, which only sees these types.

use vstd::prelude::*;

use crate::asset::Balance;
use crate::expiration::Expiration;
use crate::state::{OTCInfo, UserInfo};

verus! {

/// Bootstrap request. Carries nothing; the deployer becomes the admin.
#[derive(Debug)]
pub struct InstantiateMsg {}

/// A request to open a new offer. The deposited asset arrives alongside the
/// request (native coins attached to the call, or the token transfer that
/// triggered it); this names what is asked in return.
#[derive(Debug)]
pub struct NewOTC {
    pub ask_balance: Balance,
    pub expires: Option<Expiration>,
    pub user_info: Option<UserInfo>,
    pub description: Option<String>,
}

/// The request decoded from a token-contract transfer notification.
#[derive(Debug)]
pub enum ReceiveMsg {
    Create(NewOTC),
    Swap { otc_id: u32 },
}

/// A token-contract transfer notification: the token contract calls the
/// escrow after moving `amount` units from `sender` into the escrow's
/// custody, carrying the decoded request.
#[derive(Debug)]
pub struct Cw20Receive {
    pub sender: String,
    pub amount: u128,
    pub msg: ReceiveMsg,
}

/// An inbound call on the native path, or a forwarded token notification.
#[derive(Debug)]
pub enum ExecuteMsg {
    Create(NewOTC),
    Swap { otc_id: u32 },
    Receive(Cw20Receive),
}

/// A read-only request.
#[derive(Debug)]
pub enum QueryMsg {
    GetOtcs { include_expired: Option<bool>, start_after: Option<u32>, limit: Option<u32> },
}

/// One outbound transfer instruction, handed to the host ledger for
/// execution; the escrow itself never moves currency.
#[derive(Debug, PartialEq, Eq)]
pub enum TransferMsg {
    /// Send native coins out of the escrow's custody.
    Native { to_address: String, denom: String, amount: u128 },
    /// Instruct a token contract to transfer token units.
    Cw20 { contract_addr: String, recipient: String, amount: u128 },
}

/// The page an offer scan returns: identifier and record, ascending.
#[derive(Debug)]
pub struct GetOTCsResponse {
    pub otcs: Vec<(u32, OTCInfo)>,
}

/// What a successful create returns: the allocated identifier and a copy of
/// the stored offer.
#[derive(Debug)]
pub struct NewOTCResponse {
    pub id: u32,
    pub otc: OTCInfo,
}

/// What a successful call returns: the persisted offer for a create, or the
/// two transfer instructions of a settled swap, to be submitted to the
/// ledger as one atomic unit.
#[derive(Debug)]
pub enum ContractResponse {
    Created(NewOTCResponse),
    Swapped { payment_to_seller: TransferMsg, payment_to_payer: TransferMsg },
}

} // verus!
