//! The escrow state machine: bootstrap, offer creation, atomic swap, and the
//! expiration-aware paginated scan.
//!
//! Every operation takes the persistent records (config and offer store) by
//! reference and either completes with all its writes applied, or fails with
//! an error kind and no write at all.

use vstd::prelude::*;

use crate::asset::{AssetValue, Balance, Coin, Cw20Coin, normalize_balance};
use crate::error::ContractError;
use crate::expiration::{BlockInfo, Expiration};
use crate::msg::{
    ContractResponse, Cw20Receive, ExecuteMsg, GetOTCsResponse, InstantiateMsg, NewOTCResponse,
    QueryMsg, ReceiveMsg, TransferMsg,
};
use crate::state::{
    contains_key, is_first_free_from, lookup, OtcStore, OTCInfo, State, UserInfo,
};

verus! {

/// How many entries a scan returns when the caller names no limit.
pub const DEFAULT_LIMIT: u32 = 20;

/// The cap a caller-requested limit is clamped to.
pub const MAX_LIMIT: u32 = 60;

/// An omitted expiration means the offer never expires.
pub open spec fn expiration_or_never(expires: Option<Expiration>) -> Expiration {
    match expires {
        Some(e) => e,
        None => Expiration::Never,
    }
}

/// The asset a single-denomination payment resolves to (meaningful once the
/// payment carries exactly one denomination).
pub open spec fn spec_asset_of(balance: Balance) -> AssetValue {
    match balance {
        Balance::Native(coins) => AssetValue::Native(coins@[0]),
        Balance::Cw20(token) => AssetValue::Token(token),
    }
}

/// The kind flag, amount, denomination and contract address one leg of an
/// offer stores for an asset.
pub open spec fn leg_fields(asset: AssetValue) -> (bool, u128, Option<String>, Option<String>) {
    match asset {
        AssetValue::Native(coin) => (true, coin.amount, Some(coin.denom), None::<String>),
        AssetValue::Token(token) => (false, token.amount, None::<String>, Some(token.address)),
    }
}

/// The offer record a create request persists.
pub open spec fn spec_new_otc(
    seller: String,
    sell_balance: Balance,
    ask_balance: Balance,
    expires: Option<Expiration>,
    user_info: Option<UserInfo>,
    description: Option<String>,
) -> OTCInfo {
    let sell = leg_fields(spec_asset_of(sell_balance));
    let ask = leg_fields(spec_asset_of(ask_balance));
    OTCInfo {
        seller,
        sell_native: sell.0,
        sell_amount: sell.1,
        sell_denom: sell.2,
        sell_address: sell.3,
        ask_native: ask.0,
        ask_amount: ask.1,
        ask_denom: ask.2,
        ask_address: ask.3,
        expires: expiration_or_never(expires),
        user_info,
        description,
    }
}

/// The error a create request fails with, or `None` when it succeeds: an
/// inactive config, an already-elapsed expiration, and a multi-denomination
/// native payment on either leg are rejected, in that order.
pub open spec fn create_error(
    config: State,
    block: BlockInfo,
    sell_balance: Balance,
    ask_balance: Balance,
    expires: Option<Expiration>,
) -> Option<ContractError> {
    if !config.active {
        Some(ContractError::Inactive)
    } else if expiration_or_never(expires).spec_is_expired(block) {
        Some(ContractError::Expired)
    } else if sell_balance matches Balance::Native(coins) && coins@.len() > 1 {
        Some(ContractError::TooManyDenominations)
    } else if ask_balance matches Balance::Native(coins) && coins@.len() > 1 {
        Some(ContractError::TooManyDenominations)
    } else {
        None
    }
}

/// Everything a finished create request guarantees, relating the records
/// before the call, the records after it, and the result.
pub open spec fn create_post(
    old_config: State,
    old_s: Seq<(u32, OTCInfo)>,
    new_config: State,
    new_s: Seq<(u32, OTCInfo)>,
    block: BlockInfo,
    seller: String,
    sell_balance: Balance,
    ask_balance: Balance,
    expires: Option<Expiration>,
    user_info: Option<UserInfo>,
    description: Option<String>,
    r: Result<NewOTCResponse, ContractError>,
) -> bool {
    match r {
        Err(e) => {
            &&& create_error(old_config, block, sell_balance, ask_balance, expires) == Some(e)
            &&& new_config == old_config
            &&& new_s == old_s
        },
        Ok(resp) => {
            &&& create_error(old_config, block, sell_balance, ask_balance, expires) is None
            &&& resp.otc == spec_new_otc(
                seller,
                sell_balance,
                ask_balance,
                expires,
                user_info,
                description,
            )
            &&& is_first_free_from(old_s, old_config.index, resp.id)
            &&& !contains_key(old_s, resp.id)
            &&& new_config.admin == old_config.admin
            &&& new_config.active == old_config.active
            &&& new_config.index == resp.id
            &&& contains_key(new_s, resp.id)
            &&& lookup(new_s, resp.id) == resp.otc
            &&& forall|k: u32|
                k != resp.id ==> #[trigger] contains_key(new_s, k) == contains_key(old_s, k)
            &&& forall|k: u32|
                k != resp.id && contains_key(old_s, k) ==> #[trigger] lookup(new_s, k) == lookup(
                    old_s,
                    k,
                )
            &&& new_s.len() == old_s.len() + 1
        },
    }
}

/// The error a swap fails with, or `None` when it settles. Checked in
/// order: the offer must exist, the payment kind must match the ask kind,
/// the payer must not be the seller, the offer must not have expired, and
/// the payment must carry one denomination matching the ask with at least
/// the asked amount.
pub open spec fn swap_error(
    s: Seq<(u32, OTCInfo)>,
    block: BlockInfo,
    payer: Seq<char>,
    otc_id: u32,
    balance: Balance,
    native: bool,
) -> Option<ContractError> {
    if !contains_key(s, otc_id) {
        Some(ContractError::NotFound)
    } else {
        let otc = lookup(s, otc_id);
        if otc.ask_native != native {
            Some(ContractError::WrongDenomination)
        } else if otc.seller@ == payer {
            Some(ContractError::SelfTrade)
        } else if otc.expires.spec_is_expired(block) {
            Some(ContractError::Expired)
        } else {
            match balance {
                Balance::Native(coins) => {
                    if coins@.len() > 1 {
                        Some(ContractError::TooManyDenominations)
                    } else if coins@[0].denom@ != (otc.ask_denom->0)@ {
                        Some(ContractError::WrongDenomination)
                    } else if coins@[0].amount < otc.ask_amount {
                        Some(ContractError::InsufficientPayment)
                    } else {
                        None
                    }
                },
                Balance::Cw20(token) => {
                    if token.address@ != (otc.ask_address->0)@ {
                        Some(ContractError::WrongDenomination)
                    } else if token.amount < otc.ask_amount {
                        Some(ContractError::InsufficientPayment)
                    } else {
                        None
                    }
                },
            }
        }
    }
}

/// The first settlement leg: the full validated payment goes to the seller.
/// An overpayment is not refunded; the excess goes to the seller with the
/// rest.
pub open spec fn spec_payment_to_seller(otc: OTCInfo, balance: Balance) -> TransferMsg {
    match balance {
        Balance::Native(coins) => (TransferMsg::Native {
            to_address: otc.seller,
            denom: coins@[0].denom,
            amount: coins@[0].amount,
        }),
        Balance::Cw20(token) => (TransferMsg::Cw20 {
            contract_addr: token.address,
            recipient: otc.seller,
            amount: token.amount,
        }),
    }
}

/// The second settlement leg: the escrowed amount goes to the payer.
pub open spec fn spec_payment_to_payer(otc: OTCInfo, payer: String) -> TransferMsg {
    if otc.sell_native {
        TransferMsg::Native { to_address: payer, denom: otc.sell_denom->0, amount: otc.sell_amount }
    } else {
        TransferMsg::Cw20 {
            contract_addr: otc.sell_address->0,
            recipient: payer,
            amount: otc.sell_amount,
        }
    }
}

/// Everything a finished swap guarantees: on success exactly the referenced
/// offer is removed and exactly two transfer instructions come back; on
/// failure the store is untouched.
pub open spec fn swap_post(
    old_s: Seq<(u32, OTCInfo)>,
    new_s: Seq<(u32, OTCInfo)>,
    block: BlockInfo,
    payer: String,
    otc_id: u32,
    balance: Balance,
    native: bool,
    r: Result<(TransferMsg, TransferMsg), ContractError>,
) -> bool {
    match r {
        Err(e) => {
            &&& swap_error(old_s, block, payer@, otc_id, balance, native) == Some(e)
            &&& new_s == old_s
        },
        Ok(payments) => {
            &&& swap_error(old_s, block, payer@, otc_id, balance, native) is None
            &&& contains_key(old_s, otc_id)
            &&& payments.0 == spec_payment_to_seller(lookup(old_s, otc_id), balance)
            &&& payments.1 == spec_payment_to_payer(lookup(old_s, otc_id), payer)
            &&& !contains_key(new_s, otc_id)
            &&& forall|k: u32|
                k != otc_id ==> #[trigger] contains_key(new_s, k) == contains_key(old_s, k)
            &&& forall|k: u32|
                k != otc_id && contains_key(old_s, k) ==> #[trigger] lookup(new_s, k) == lookup(
                    old_s,
                    k,
                )
            &&& new_s.len() == old_s.len() - 1
        },
    }
}

/// Whether a scan keeps an entry: its identifier must lie strictly after
/// the resume cursor, and an offer whose expiration has elapsed is kept
/// only when expired entries are requested.
pub open spec fn passes_filter(
    entry: (u32, OTCInfo),
    block: BlockInfo,
    include_expired: bool,
    start_after: Option<u32>,
) -> bool {
    &&& match start_after {
        Some(cursor) => entry.0 > cursor,
        None => true,
    }
    &&& include_expired || !entry.1.expires.spec_is_expired(block)
}

/// The full ascending scan of an entry sequence: every entry the filter
/// keeps, in stored order, before any limit is applied.
pub open spec fn listing(
    s: Seq<(u32, OTCInfo)>,
    block: BlockInfo,
    include_expired: bool,
    start_after: Option<u32>,
) -> Seq<(u32, OTCInfo)> {
    s.filter(|entry: (u32, OTCInfo)| passes_filter(entry, block, include_expired, start_after))
}

/// A sequence cut off after `n` entries; shorter sequences are unchanged.
pub open spec fn take_up_to(s: Seq<(u32, OTCInfo)>, n: nat) -> Seq<(u32, OTCInfo)> {
    if s.len() <= n {
        s
    } else {
        s.take(n as int)
    }
}

/// The limit a scan truncates to: the default when the caller names none,
/// and never more than the cap.
pub open spec fn clamped_limit(limit: Option<u32>) -> nat {
    match limit {
        Some(l) => if l > MAX_LIMIT {
            MAX_LIMIT as nat
        } else {
            l as nat
        },
        None => DEFAULT_LIMIT as nat,
    }
}

/// A scan of concatenated halves is the concatenation of the halves'
/// scans.
pub proof fn lemma_listing_add(
    a: Seq<(u32, OTCInfo)>,
    b: Seq<(u32, OTCInfo)>,
    block: BlockInfo,
    include_expired: bool,
    start_after: Option<u32>,
)
    ensures
        listing(a + b, block, include_expired, start_after) == listing(
            a,
            block,
            include_expired,
            start_after,
        ) + listing(b, block, include_expired, start_after),
    decreases b.len(),
{
    reveal(Seq::filter);
    if b.len() == 0 {
        assert(a + b =~= a);
        assert(listing(b, block, include_expired, start_after) =~= Seq::<(u32, OTCInfo)>::empty());
        assert(listing(a + b, block, include_expired, start_after) =~= listing(
            a,
            block,
            include_expired,
            start_after,
        ) + listing(b, block, include_expired, start_after));
    } else {
        lemma_listing_add(a, b.drop_last(), block, include_expired, start_after);
        assert((a + b).drop_last() =~= a + b.drop_last());
        assert((a + b).last() == b.last());
        if passes_filter(b.last(), block, include_expired, start_after) {
            assert(listing(a, block, include_expired, start_after) + listing(
                b.drop_last(),
                block,
                include_expired,
                start_after,
            ).push(b.last()) =~= (listing(a, block, include_expired, start_after) + listing(
                b.drop_last(),
                block,
                include_expired,
                start_after,
            )).push(b.last()));
        }
    }
}

/// Bootstrap: the deployer becomes the admin, the allocation cursor starts
/// at zero, and creation starts out active.
pub fn instantiate(sender: String, _msg: InstantiateMsg) -> (r: State)
    ensures
        r == (State { admin: sender, index: 0, active: true }),
{
    State { admin: sender, index: 0, active: true }
}

/// Create a new offer: validate, normalize both legs, allocate the next
/// free identifier by probing from the config's cursor, persist the offer
/// there, and move the cursor to the chosen identifier.
///
/// The deposited asset is presumed already in the escrow's custody: the
/// host moved it with the call that carries this request.
pub fn try_create_otc(
    config: &mut State,
    otcs: &mut OtcStore,
    block: &BlockInfo,
    seller: &String,
    sell_balance: Balance,
    ask_balance: Balance,
    expires: Option<Expiration>,
    user_info: Option<UserInfo>,
    description: Option<String>,
) -> (r: Result<NewOTCResponse, ContractError>)
    requires
        old(otcs).wf(),
        old(otcs)@.len() < 0x1_0000_0000,
        sell_balance matches Balance::Native(coins) ==> coins@.len() >= 1,
        ask_balance matches Balance::Native(coins) ==> coins@.len() >= 1,
    ensures
        create_post(
            *old(config),
            old(otcs)@,
            *final(config),
            final(otcs)@,
            *block,
            *seller,
            sell_balance,
            ask_balance,
            expires,
            user_info,
            description,
            r,
        ),
        final(otcs).wf(),
{
    if !config.active {
        return Err(ContractError::Inactive);
    }

    let expires_v = match expires {
        Some(e) => e,
        None => Expiration::default(),
    };
    if expires_v.is_expired(block) {
        return Err(ContractError::Expired);
    }

    let sell = match normalize_balance(sell_balance) {
        Ok(asset) => asset,
        Err(e) => {
            return Err(e);
        },
    };
    let ask = match normalize_balance(ask_balance) {
        Ok(asset) => asset,
        Err(e) => {
            return Err(e);
        },
    };

    let mut new_otc = OTCInfo {
        seller: seller.clone(),
        sell_native: false,
        sell_amount: 0,
        sell_denom: None,
        sell_address: None,
        ask_native: false,
        ask_amount: 0,
        ask_denom: None,
        ask_address: None,
        expires: expires_v,
        user_info,
        description,
    };

    match sell {
        AssetValue::Native(coin) => {
            new_otc.sell_native = true;
            new_otc.sell_amount = coin.amount;
            new_otc.sell_denom = Some(coin.denom);
        },
        AssetValue::Token(token) => {
            new_otc.sell_native = false;
            new_otc.sell_amount = token.amount;
            new_otc.sell_address = Some(token.address);
        },
    };

    match ask {
        AssetValue::Native(coin) => {
            new_otc.ask_native = true;
            new_otc.ask_amount = coin.amount;
            new_otc.ask_denom = Some(coin.denom);
        },
        AssetValue::Token(token) => {
            new_otc.ask_native = false;
            new_otc.ask_amount = token.amount;
            new_otc.ask_address = Some(token.address);
        },
    };

    let id = otcs.allocate(config.index);
    otcs.save(id, new_otc.clone());
    config.index = id;

    Ok(NewOTCResponse { id, otc: new_otc })
}

/// Settle an offer: validate the payment against the ask, emit the two
/// transfer instructions (ask amount and any excess to the seller, the
/// escrowed amount to the payer), and remove the offer. The caller submits
/// both instructions to the ledger as one atomic unit.
pub fn try_swap(
    otcs: &mut OtcStore,
    block: &BlockInfo,
    payer: &String,
    otc_id: u32,
    balance: Balance,
    native: bool,
) -> (r: Result<(TransferMsg, TransferMsg), ContractError>)
    requires
        old(otcs).wf(),
        native <==> balance matches Balance::Native(_),
        balance matches Balance::Native(coins) ==> coins@.len() >= 1,
    ensures
        swap_post(old(otcs)@, final(otcs)@, *block, *payer, otc_id, balance, native, r),
        final(otcs).wf(),
{
    let otc = match otcs.get(otc_id) {
        Some(found) => found.clone(),
        None => {
            return Err(ContractError::NotFound);
        },
    };
    proof {
        assert(otc.wf());
    }

    if otc.ask_native != native {
        return Err(ContractError::WrongDenomination);
    }

    let seller = otc.seller.clone();
    if seller == *payer {
        return Err(ContractError::SelfTrade);
    }

    if otc.expires.is_expired(block) {
        return Err(ContractError::Expired);
    }

    let asset = match normalize_balance(balance) {
        Ok(asset) => asset,
        Err(e) => {
            return Err(e);
        },
    };

    let payment_1: TransferMsg = match asset {
        AssetValue::Native(coin) => {
            let ask_denom = match &otc.ask_denom {
                Some(denom) => denom,
                None => {
                    proof {
                        assert(false);
                    }
                    &otc.seller
                },
            };
            if coin.denom != *ask_denom {
                return Err(ContractError::WrongDenomination);
            }
            if coin.amount < otc.ask_amount {
                return Err(ContractError::InsufficientPayment);
            }
            TransferMsg::Native { to_address: seller, denom: coin.denom, amount: coin.amount }
        },
        AssetValue::Token(token) => {
            let ask_address = match &otc.ask_address {
                Some(address) => address,
                None => {
                    proof {
                        assert(false);
                    }
                    &otc.seller
                },
            };
            if token.address != *ask_address {
                return Err(ContractError::WrongDenomination);
            }
            if token.amount < otc.ask_amount {
                return Err(ContractError::InsufficientPayment);
            }
            TransferMsg::Cw20 {
                contract_addr: token.address,
                recipient: seller,
                amount: token.amount,
            }
        },
    };

    let payment_2: TransferMsg = if otc.sell_native {
        let sell_denom = match otc.sell_denom {
            Some(denom) => denom,
            None => {
                proof {
                    assert(false);
                }
                String::new()
            },
        };
        TransferMsg::Native {
            to_address: payer.clone(),
            denom: sell_denom,
            amount: otc.sell_amount,
        }
    } else {
        let sell_address = match otc.sell_address {
            Some(address) => address,
            None => {
                proof {
                    assert(false);
                }
                String::new()
            },
        };
        TransferMsg::Cw20 {
            contract_addr: sell_address,
            recipient: payer.clone(),
            amount: otc.sell_amount,
        }
    };

    otcs.remove(otc_id);

    Ok((payment_1, payment_2))
}

/// Dispatch an inbound call: a create funded by the attached native coins,
/// a swap paid with them, or a forwarded token-transfer notification.
pub fn execute(
    config: &mut State,
    otcs: &mut OtcStore,
    block: &BlockInfo,
    sender: &String,
    funds: Vec<Coin>,
    msg: ExecuteMsg,
) -> (r: Result<ContractResponse, ContractError>)
    requires
        old(otcs).wf(),
        old(otcs)@.len() < 0x1_0000_0000,
        (msg matches ExecuteMsg::Create(_) || msg matches ExecuteMsg::Swap { .. }) ==> funds@.len()
            >= 1,
        msg matches ExecuteMsg::Create(m) ==> (m.ask_balance matches Balance::Native(coins)
            ==> coins@.len() >= 1),
        msg matches ExecuteMsg::Receive(w) ==> (w.msg matches ReceiveMsg::Create(m)
            ==> (m.ask_balance matches Balance::Native(coins) ==> coins@.len() >= 1)),
    ensures
        final(otcs).wf(),
        match msg {
            ExecuteMsg::Create(m) => {
                &&& (r matches Ok(cr) ==> cr matches ContractResponse::Created(resp)
                    && create_post(
                    *old(config),
                    old(otcs)@,
                    *final(config),
                    final(otcs)@,
                    *block,
                    *sender,
                    Balance::Native(funds),
                    m.ask_balance,
                    m.expires,
                    m.user_info,
                    m.description,
                    Ok(resp),
                ))
                &&& (r matches Err(e) ==> create_post(
                    *old(config),
                    old(otcs)@,
                    *final(config),
                    final(otcs)@,
                    *block,
                    *sender,
                    Balance::Native(funds),
                    m.ask_balance,
                    m.expires,
                    m.user_info,
                    m.description,
                    Err(e),
                ))
            },
            ExecuteMsg::Swap { otc_id } => {
                &&& *final(config) == *old(config)
                &&& (r matches Ok(cr) ==> cr matches ContractResponse::Swapped {
                    payment_to_seller,
                    payment_to_payer,
                } && swap_post(
                    old(otcs)@,
                    final(otcs)@,
                    *block,
                    *sender,
                    otc_id,
                    Balance::Native(funds),
                    true,
                    Ok((payment_to_seller, payment_to_payer)),
                ))
                &&& (r matches Err(e) ==> swap_post(
                    old(otcs)@,
                    final(otcs)@,
                    *block,
                    *sender,
                    otc_id,
                    Balance::Native(funds),
                    true,
                    Err(e),
                ))
            },
            ExecuteMsg::Receive(w) => receive_post(
                *old(config),
                old(otcs)@,
                *final(config),
                final(otcs)@,
                *block,
                *sender,
                w,
                r,
            ),
        },
{
    match msg {
        ExecuteMsg::Create(m) => {
            match try_create_otc(
                config,
                otcs,
                block,
                sender,
                Balance::Native(funds),
                m.ask_balance,
                m.expires,
                m.user_info,
                m.description,
            ) {
                Ok(resp) => Ok(ContractResponse::Created(resp)),
                Err(e) => Err(e),
            }
        },
        ExecuteMsg::Swap { otc_id } => {
            match try_swap(otcs, block, sender, otc_id, Balance::Native(funds), true) {
                Ok(payments) => Ok(
                    ContractResponse::Swapped {
                        payment_to_seller: payments.0,
                        payment_to_payer: payments.1,
                    },
                ),
                Err(e) => Err(e),
            }
        },
        ExecuteMsg::Receive(w) => execute_receive(config, otcs, block, sender, w),
    }
}

/// Everything a finished token-notification call guarantees: the notified
/// amount of the calling token contract is the incoming asset, and the
/// decoded request is dispatched as a create or a swap for the original
/// sender.
pub open spec fn receive_post(
    old_config: State,
    old_s: Seq<(u32, OTCInfo)>,
    new_config: State,
    new_s: Seq<(u32, OTCInfo)>,
    block: BlockInfo,
    token_contract: String,
    wrapper: Cw20Receive,
    r: Result<ContractResponse, ContractError>,
) -> bool {
    let balance = Balance::Cw20(
        Cw20Coin { address: token_contract, amount: wrapper.amount },
    );
    match wrapper.msg {
        ReceiveMsg::Create(m) => {
            &&& (r matches Ok(cr) ==> cr matches ContractResponse::Created(resp) && create_post(
                old_config,
                old_s,
                new_config,
                new_s,
                block,
                wrapper.sender,
                balance,
                m.ask_balance,
                m.expires,
                m.user_info,
                m.description,
                Ok(resp),
            ))
            &&& (r matches Err(e) ==> create_post(
                old_config,
                old_s,
                new_config,
                new_s,
                block,
                wrapper.sender,
                balance,
                m.ask_balance,
                m.expires,
                m.user_info,
                m.description,
                Err(e),
            ))
        },
        ReceiveMsg::Swap { otc_id } => {
            &&& new_config == old_config
            &&& (r matches Ok(cr) ==> cr matches ContractResponse::Swapped {
                payment_to_seller,
                payment_to_payer,
            } && swap_post(
                old_s,
                new_s,
                block,
                wrapper.sender,
                otc_id,
                balance,
                false,
                Ok((payment_to_seller, payment_to_payer)),
            ))
            &&& (r matches Err(e) ==> swap_post(
                old_s,
                new_s,
                block,
                wrapper.sender,
                otc_id,
                balance,
                false,
                Err(e),
            ))
        },
    }
}

/// Handle a token-contract transfer notification: the calling token
/// contract vouches that `wrapper.amount` of its token moved from
/// `wrapper.sender` into the escrow's custody, and the decoded request says
/// what to do with it.
pub fn execute_receive(
    config: &mut State,
    otcs: &mut OtcStore,
    block: &BlockInfo,
    token_contract: &String,
    wrapper: Cw20Receive,
) -> (r: Result<ContractResponse, ContractError>)
    requires
        old(otcs).wf(),
        old(otcs)@.len() < 0x1_0000_0000,
        wrapper.msg matches ReceiveMsg::Create(m) ==> (m.ask_balance matches Balance::Native(coins)
            ==> coins@.len() >= 1),
    ensures
        final(otcs).wf(),
        receive_post(
            *old(config),
            old(otcs)@,
            *final(config),
            final(otcs)@,
            *block,
            *token_contract,
            wrapper,
            r,
        ),
{
    let balance = Balance::Cw20(
        Cw20Coin { address: token_contract.clone(), amount: wrapper.amount },
    );
    match wrapper.msg {
        ReceiveMsg::Create(m) => {
            match try_create_otc(
                config,
                otcs,
                block,
                &wrapper.sender,
                balance,
                m.ask_balance,
                m.expires,
                m.user_info,
                m.description,
            ) {
                Ok(resp) => Ok(ContractResponse::Created(resp)),
                Err(e) => Err(e),
            }
        },
        ReceiveMsg::Swap { otc_id } => {
            match try_swap(otcs, block, &wrapper.sender, otc_id, balance, false) {
                Ok(payments) => Ok(
                    ContractResponse::Swapped {
                        payment_to_seller: payments.0,
                        payment_to_payer: payments.1,
                    },
                ),
                Err(e) => Err(e),
            }
        },
    }
}

/// The ascending, expiration-aware, resumable scan of the offer store:
/// entries strictly after `start_after` (from the beginning when absent),
/// without elapsed offers unless `include_expired`, cut off at the clamped
/// limit. Read-only.
pub fn query_otcs(
    otcs: &OtcStore,
    block: &BlockInfo,
    include_expired: bool,
    start_after: Option<u32>,
    limit: Option<u32>,
) -> (r: GetOTCsResponse)
    requires
        otcs.wf(),
    ensures
        r.otcs@ == take_up_to(
            listing(otcs@, *block, include_expired, start_after),
            clamped_limit(limit),
        ),
{
    let limit_n = match limit {
        Some(l) => if l > MAX_LIMIT {
            MAX_LIMIT
        } else {
            l
        },
        None => DEFAULT_LIMIT,
    };
    let limit_c = limit_n as usize;

    let ghost s = otcs@;
    let n = otcs.len();
    let mut result: Vec<(u32, OTCInfo)> = Vec::new();
    let mut i: usize = 0;
    while i < n && result.len() < limit_c
        invariant
            otcs.wf(),
            s == otcs@,
            n == s.len(),
            i <= n,
            limit_c == clamped_limit(limit),
            result@.len() <= limit_c,
            result@ == listing(s.take(i as int), *block, include_expired, start_after),
        decreases n - i,
    {
        let entry = otcs.get_at(i);
        let after_cursor = match start_after {
            Some(cursor) => entry.0 > cursor,
            None => true,
        };
        let keep = after_cursor && (include_expired || !entry.1.expires.is_expired(block));
        if keep {
            result.push((entry.0, entry.1.clone()));
        }
        proof {
            reveal(Seq::filter);
            assert(s.take(i + 1).drop_last() =~= s.take(i as int));
            assert(s.take(i + 1).last() == s[i as int]);
            assert(keep == passes_filter(s[i as int], *block, include_expired, start_after));
            if keep {
                assert((s[i as int].0, s[i as int].1) == s[i as int]);
            }
            assert(result@ == listing(s.take(i + 1), *block, include_expired, start_after));
        }
        i += 1;
    }
    proof {
        let f = listing(s, *block, include_expired, start_after);
        if i == n {
            assert(s.take(n as int) =~= s);
        } else {
            assert(result@.len() == limit_c);
            assert(s =~= s.take(i as int) + s.skip(i as int));
            lemma_listing_add(
                s.take(i as int),
                s.skip(i as int),
                *block,
                include_expired,
                start_after,
            );
            assert(f == result@ + listing(s.skip(i as int), *block, include_expired, start_after));
            assert(f.take(limit_c as int) =~= result@);
        }
    }
    GetOTCsResponse { otcs: result }
}

/// Answer a read-only request.
pub fn query(otcs: &OtcStore, block: &BlockInfo, msg: QueryMsg) -> (r: GetOTCsResponse)
    requires
        otcs.wf(),
    ensures
        match msg {
            QueryMsg::GetOtcs { include_expired, start_after, limit } => r.otcs@ == take_up_to(
                listing(otcs@, *block, include_expired == Some(true), start_after),
                clamped_limit(limit),
            ),
        },
{
    match msg {
        QueryMsg::GetOtcs { include_expired, start_after, limit } => {
            let inc = match include_expired {
                Some(b) => b,
                None => false,
            };
            query_otcs(otcs, block, inc, start_after, limit)
        },
    }
}

} // verus!
