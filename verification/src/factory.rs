//! The factory variant of the escrow: instead of keeping an offer store, it
//! spawns one escrow instance per offer. Its config carries the code hash
//! of the instance to spawn and a monotonic allocation index that grows
//! without bound and is never reused.

use vstd::prelude::*;

use crate::error::ContractError;
use crate::state::UserInfo;

verus! {

/// A denomination: the chain's native currency by name, or a fungible
/// token by its contract address.
#[derive(Debug, PartialEq, Eq)]
pub enum Denom {
    Native(String),
    Cw20(String),
}

/// Bootstrap request: the code hash of the escrow instance to spawn per
/// offer.
#[derive(Debug)]
pub struct InstantiateMsg {
    pub otc_code_hash: u64,
}

/// An inbound call: open a new offer by spawning an escrow instance.
#[derive(Debug)]
pub enum ExecuteMsg {
    NewOTC {
        /// String label for the spawned instance.
        label: String,
        sell_denom: Denom,
        ask_denom: Denom,
        sell_amount: u128,
        ask_amount: u128,
        /// Seconds since epoch.
        ends_at: u64,
        user_info: Option<UserInfo>,
        description: Option<String>,
    },
}

/// A read-only request.
#[derive(Debug)]
pub enum QueryMsg {
    Hello {},
}

/// The liveness probe's answer.
#[derive(Debug)]
pub struct HelloResponse {
    pub msg: String,
}

/// The factory's singleton config: the deployer, the code hash of the
/// escrow instance, the monotonic allocation index, and the active flag.
#[derive(Debug)]
pub struct State {
    pub admin: String,
    pub otc_code_hash: u64,
    pub index: u64,
    pub active: bool,
}

/// What a spawned escrow instance is initialized with.
#[derive(Debug)]
pub struct OTCInitMsg {
    /// The offer's index with the factory.
    pub index: u64,
    /// The offer's creator.
    pub seller: String,
    pub sell_denom: Denom,
    pub ask_denom: Denom,
    pub sell_amount: u128,
    /// The minimum amount asked in return.
    pub ask_amount: u128,
    /// Seconds since epoch.
    pub ends_at: u64,
    pub user_info: Option<UserInfo>,
    pub description: Option<String>,
}

/// What a spawned escrow instance reports back.
#[derive(Debug)]
pub struct OTCInitResponse {
    pub otc_address: String,
}

/// Bootstrap: the deployer becomes the admin, the index starts at zero,
/// and creation starts out active.
pub fn instantiate(sender: String, msg: InstantiateMsg) -> (r: State)
    ensures
        r == (State { admin: sender, otc_code_hash: msg.otc_code_hash, index: 0, active: true }),
{
    State { admin: sender, otc_code_hash: msg.otc_code_hash, index: 0, active: true }
}

/// Open a new offer: when the factory is active, build the init message of
/// the escrow instance to spawn under the current index, and advance the
/// index past it so it is never reused.
pub fn try_create_otc(
    config: &mut State,
    seller: String,
    sell_denom: Denom,
    ask_denom: Denom,
    sell_amount: u128,
    ask_amount: u128,
    ends_at: u64,
    user_info: Option<UserInfo>,
    description: Option<String>,
) -> (r: Result<OTCInitMsg, ContractError>)
    requires
        old(config).index < u64::MAX,
    ensures
        match r {
            Err(e) => {
                &&& e == ContractError::Inactive
                &&& !old(config).active
                &&& *final(config) == *old(config)
            },
            Ok(m) => {
                &&& old(config).active
                &&& m == (OTCInitMsg {
                    index: old(config).index,
                    seller,
                    sell_denom,
                    ask_denom,
                    sell_amount,
                    ask_amount,
                    ends_at,
                    user_info,
                    description,
                })
                &&& final(config).index == old(config).index + 1
                &&& final(config).admin == old(config).admin
                &&& final(config).otc_code_hash == old(config).otc_code_hash
                &&& final(config).active == old(config).active
            },
        },
{
    if !config.active {
        return Err(ContractError::Inactive);
    }
    let msg = OTCInitMsg {
        index: config.index,
        seller,
        sell_denom,
        ask_denom,
        sell_amount,
        ask_amount,
        ends_at,
        user_info,
        description,
    };
    config.index = config.index + 1;
    Ok(msg)
}

/// The liveness probe.
pub fn hello_world() -> (r: HelloResponse)
    ensures
        r.msg@ == "Hello, Archway!"@,
{
    HelloResponse { msg: "Hello, Archway!".to_owned() }
}

/// Answer a read-only request.
pub fn query(msg: QueryMsg) -> (r: HelloResponse)
    ensures
        r.msg@ == "Hello, Archway!"@,
{
    match msg {
        QueryMsg::Hello {} => hello_world(),
    }
}

} // verus!
