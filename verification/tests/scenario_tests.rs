//! End-to-end scenarios and the validation rules: single-denomination
//! payments, atomic settlement, expiration handling, and the token paths.

use otc::asset::{Balance, Coin, Cw20Coin};
use otc::contract::{
    execute, execute_receive, instantiate, query_otcs, try_create_otc, try_swap,
};
use otc::error::ContractError;
use otc::expiration::{BlockInfo, Expiration};
use otc::msg::{
    ContractResponse, Cw20Receive, ExecuteMsg, InstantiateMsg, NewOTC, ReceiveMsg, TransferMsg,
};
use otc::state::{OtcStore, State, UserInfo};

fn mock_block() -> BlockInfo {
    BlockInfo {
        height: 12_345,
        time: 1_571_797_419_879_305_533,
    }
}

fn coins(amount: u128, denom: &str) -> Vec<Coin> {
    vec![Coin {
        denom: denom.to_string(),
        amount,
    }]
}

fn setup() -> (State, OtcStore) {
    (
        instantiate("admin".to_string(), InstantiateMsg {}),
        OtcStore::new(),
    )
}

fn create_native(
    config: &mut State,
    otcs: &mut OtcStore,
    seller: &str,
    sell: (u128, &str),
    ask: (u128, &str),
    expires: Option<Expiration>,
) -> Result<u32, ContractError> {
    let r = try_create_otc(
        config,
        otcs,
        &mock_block(),
        &seller.to_string(),
        Balance::Native(coins(sell.0, sell.1)),
        Balance::Native(coins(ask.0, ask.1)),
        expires,
        None,
        None,
    )?;
    Ok(r.id)
}

/// The full offer lifecycle: create, the failing swaps, the settling swap,
/// and the emptied listing afterwards.
#[test]
fn end_to_end_scenario() {
    let (mut config, mut otcs) = setup();
    let env = mock_block();

    // create: selling 5 units of token_1 asking 10 units of token_2
    let id = create_native(
        &mut config,
        &mut otcs,
        "alice",
        (5, "token_1"),
        (10, "token_2"),
        None,
    )
    .unwrap();
    assert_eq!(id, 0);

    let stored = query_otcs(&otcs, &env, false, None, None).otcs;
    assert_eq!(stored.len(), 1);
    assert_eq!(stored[0].0, 0);
    assert_eq!(stored[0].1.sell_amount, 5);
    assert_eq!(stored[0].1.sell_denom, Some("token_1".to_string()));
    assert_eq!(stored[0].1.ask_amount, 10);
    assert_eq!(stored[0].1.ask_denom, Some("token_2".to_string()));

    // an underpayment buys nothing
    let res = try_swap(
        &mut otcs,
        &env,
        &"bob".to_string(),
        0,
        Balance::Native(coins(1, "token_2")),
        true,
    );
    assert_eq!(res.unwrap_err(), ContractError::InsufficientPayment);

    // the wrong denomination buys nothing
    let res = try_swap(
        &mut otcs,
        &env,
        &"bob".to_string(),
        0,
        Balance::Native(coins(10, "token_3")),
        true,
    );
    assert_eq!(res.unwrap_err(), ContractError::WrongDenomination);

    // nothing was removed by the failures
    assert_eq!(otcs.len(), 1);

    // the right payment settles: seller receives 10 token_2, payer 5 token_1
    let (to_seller, to_payer) = try_swap(
        &mut otcs,
        &env,
        &"bob".to_string(),
        0,
        Balance::Native(coins(10, "token_2")),
        true,
    )
    .unwrap();
    assert_eq!(
        to_seller,
        TransferMsg::Native {
            to_address: "alice".to_string(),
            denom: "token_2".to_string(),
            amount: 10,
        }
    );
    assert_eq!(
        to_payer,
        TransferMsg::Native {
            to_address: "bob".to_string(),
            denom: "token_1".to_string(),
            amount: 5,
        }
    );

    // offer 0 is gone from the listing
    assert_eq!(query_otcs(&otcs, &env, false, None, None).otcs.len(), 0);

    // and from the store: swapping again finds nothing
    let res = try_swap(
        &mut otcs,
        &env,
        &"bob".to_string(),
        0,
        Balance::Native(coins(10, "token_2")),
        true,
    );
    assert_eq!(res.unwrap_err(), ContractError::NotFound);
}

/// A native payment with two denominations is rejected on both legs of a
/// create and on a swap, and nothing is stored or removed.
#[test]
fn multi_denomination_rejected() {
    let (mut config, mut otcs) = setup();
    let env = mock_block();

    let two_denoms = vec![
        Coin {
            denom: "token_1".to_string(),
            amount: 5,
        },
        Coin {
            denom: "token_4".to_string(),
            amount: 7,
        },
    ];

    // selling two denominations at once
    let res = try_create_otc(
        &mut config,
        &mut otcs,
        &env,
        &"alice".to_string(),
        Balance::Native(two_denoms.clone()),
        Balance::Native(coins(10, "token_2")),
        None,
        None,
        None,
    );
    assert_eq!(res.unwrap_err(), ContractError::TooManyDenominations);
    assert_eq!(otcs.len(), 0);
    assert_eq!(config.index, 0);

    // asking for two denominations at once
    let res = try_create_otc(
        &mut config,
        &mut otcs,
        &env,
        &"alice".to_string(),
        Balance::Native(coins(5, "token_1")),
        Balance::Native(two_denoms.clone()),
        None,
        None,
        None,
    );
    assert_eq!(res.unwrap_err(), ContractError::TooManyDenominations);
    assert_eq!(otcs.len(), 0);

    // paying with two denominations at once
    create_native(
        &mut config,
        &mut otcs,
        "alice",
        (5, "token_1"),
        (10, "token_2"),
        None,
    )
    .unwrap();
    let res = try_swap(
        &mut otcs,
        &env,
        &"bob".to_string(),
        0,
        Balance::Native(vec![
            Coin {
                denom: "token_2".to_string(),
                amount: 10,
            },
            Coin {
                denom: "token_3".to_string(),
                amount: 10,
            },
        ]),
        true,
    );
    assert_eq!(res.unwrap_err(), ContractError::TooManyDenominations);
    assert_eq!(otcs.len(), 1);
}

/// A self-trade fails whatever the payment looks like, and removes nothing.
#[test]
fn self_trade_rejected() {
    let (mut config, mut otcs) = setup();
    let env = mock_block();
    create_native(
        &mut config,
        &mut otcs,
        "alice",
        (5, "token_1"),
        (10, "token_2"),
        None,
    )
    .unwrap();

    // exact payment, underpayment, wrong denomination, several denominations
    let payments: Vec<Vec<Coin>> = vec![
        coins(10, "token_2"),
        coins(1, "token_2"),
        coins(10, "token_3"),
        vec![
            Coin {
                denom: "token_2".to_string(),
                amount: 10,
            },
            Coin {
                denom: "token_3".to_string(),
                amount: 10,
            },
        ],
    ];
    for payment in payments {
        let res = try_swap(
            &mut otcs,
            &env,
            &"alice".to_string(),
            0,
            Balance::Native(payment),
            true,
        );
        assert_eq!(res.unwrap_err(), ContractError::SelfTrade);
        assert_eq!(otcs.len(), 1);
    }
}

/// Creation against an inactive config is rejected.
#[test]
fn inactive_config_rejects_creation() {
    let (mut config, mut otcs) = setup();
    config.active = false;
    let res = create_native(
        &mut config,
        &mut otcs,
        "alice",
        (5, "token_1"),
        (10, "token_2"),
        None,
    );
    assert_eq!(res.unwrap_err(), ContractError::Inactive);
    assert_eq!(otcs.len(), 0);

    // existing offers would still be swappable and listable; creation alone
    // is stopped
    config.active = true;
    create_native(
        &mut config,
        &mut otcs,
        "alice",
        (5, "token_1"),
        (10, "token_2"),
        None,
    )
    .unwrap();
    config.active = false;
    let env = mock_block();
    assert_eq!(query_otcs(&otcs, &env, false, None, None).otcs.len(), 1);
    let res = try_swap(
        &mut otcs,
        &env,
        &"bob".to_string(),
        0,
        Balance::Native(coins(10, "token_2")),
        true,
    );
    assert!(res.is_ok());
}

/// An already-elapsed expiration is rejected at creation; an offer that
/// elapses later drops out of the default listing, stays in the inclusive
/// one, and can no longer be swapped.
#[test]
fn expiration_is_enforced() {
    let (mut config, mut otcs) = setup();
    let mut env = mock_block();

    // elapsed at creation: height bound at the current height
    let res = create_native(
        &mut config,
        &mut otcs,
        "alice",
        (5, "token_1"),
        (10, "token_2"),
        Some(Expiration::AtHeight(12_345)),
    );
    assert_eq!(res.unwrap_err(), ContractError::Expired);
    assert_eq!(otcs.len(), 0);

    // elapsed at creation: time bound in the past
    let res = create_native(
        &mut config,
        &mut otcs,
        "alice",
        (5, "token_1"),
        (10, "token_2"),
        Some(Expiration::AtTime(1)),
    );
    assert_eq!(res.unwrap_err(), ContractError::Expired);

    // not yet elapsed: accepted
    let id = create_native(
        &mut config,
        &mut otcs,
        "alice",
        (5, "token_1"),
        (10, "token_2"),
        Some(Expiration::AtHeight(12_346)),
    )
    .unwrap();
    assert_eq!(id, 0);
    assert_eq!(query_otcs(&otcs, &env, false, None, None).otcs.len(), 1);

    // the bound elapses
    env.height = 12_346;
    assert_eq!(query_otcs(&otcs, &env, false, None, None).otcs.len(), 0);
    assert_eq!(query_otcs(&otcs, &env, true, None, None).otcs.len(), 1);

    let res = try_swap(
        &mut otcs,
        &env,
        &"bob".to_string(),
        0,
        Balance::Native(coins(10, "token_2")),
        true,
    );
    assert_eq!(res.unwrap_err(), ContractError::Expired);
    assert_eq!(otcs.len(), 1);
}

/// An overpayment is accepted and not refunded: the whole payment goes to
/// the seller.
#[test]
fn overpayment_goes_to_seller() {
    let (mut config, mut otcs) = setup();
    let env = mock_block();
    create_native(
        &mut config,
        &mut otcs,
        "alice",
        (5, "token_1"),
        (10, "token_2"),
        None,
    )
    .unwrap();

    let (to_seller, to_payer) = try_swap(
        &mut otcs,
        &env,
        &"bob".to_string(),
        0,
        Balance::Native(coins(100, "token_2")),
        true,
    )
    .unwrap();
    assert_eq!(
        to_seller,
        TransferMsg::Native {
            to_address: "alice".to_string(),
            denom: "token_2".to_string(),
            amount: 100,
        }
    );
    assert_eq!(
        to_payer,
        TransferMsg::Native {
            to_address: "bob".to_string(),
            denom: "token_1".to_string(),
            amount: 5,
        }
    );
}

/// The token path: an offer created from a token-transfer notification and
/// settled by another one, with the transfer instructions aimed at the
/// token contracts.
#[test]
fn token_paths_work() {
    let (mut config, mut otcs) = setup();
    let env = mock_block();

    // alice's token_contract_1 transfer funds an offer asking 10 token_2
    let res = execute_receive(
        &mut config,
        &mut otcs,
        &env,
        &"token_contract_1".to_string(),
        Cw20Receive {
            sender: "alice".to_string(),
            amount: 5,
            msg: ReceiveMsg::Create(NewOTC {
                ask_balance: Balance::Cw20(Cw20Coin {
                    address: "token_contract_2".to_string(),
                    amount: 10,
                }),
                expires: None,
                user_info: None,
                description: None,
            }),
        },
    )
    .unwrap();
    let created = match res {
        ContractResponse::Created(resp) => resp,
        _ => panic!("expected a create response"),
    };
    assert_eq!(created.id, 0);
    assert!(!created.otc.sell_native);
    assert_eq!(created.otc.sell_address, Some("token_contract_1".to_string()));
    assert!(!created.otc.ask_native);
    assert_eq!(created.otc.ask_address, Some("token_contract_2".to_string()));

    // paying through the wrong token contract is rejected
    let res = execute_receive(
        &mut config,
        &mut otcs,
        &env,
        &"token_contract_3".to_string(),
        Cw20Receive {
            sender: "bob".to_string(),
            amount: 10,
            msg: ReceiveMsg::Swap { otc_id: 0 },
        },
    );
    assert_eq!(res.unwrap_err(), ContractError::WrongDenomination);

    // paying on the native path against a token ask is a kind mismatch
    let res = execute(
        &mut config,
        &mut otcs,
        &env,
        &"bob".to_string(),
        coins(10, "token_2"),
        ExecuteMsg::Swap { otc_id: 0 },
    );
    assert_eq!(res.unwrap_err(), ContractError::WrongDenomination);

    // the right token contract settles the offer
    let res = execute_receive(
        &mut config,
        &mut otcs,
        &env,
        &"token_contract_2".to_string(),
        Cw20Receive {
            sender: "bob".to_string(),
            amount: 10,
            msg: ReceiveMsg::Swap { otc_id: 0 },
        },
    )
    .unwrap();
    match res {
        ContractResponse::Swapped {
            payment_to_seller,
            payment_to_payer,
        } => {
            assert_eq!(
                payment_to_seller,
                TransferMsg::Cw20 {
                    contract_addr: "token_contract_2".to_string(),
                    recipient: "alice".to_string(),
                    amount: 10,
                }
            );
            assert_eq!(
                payment_to_payer,
                TransferMsg::Cw20 {
                    contract_addr: "token_contract_1".to_string(),
                    recipient: "bob".to_string(),
                    amount: 5,
                }
            );
        }
        _ => panic!("expected a swap response"),
    }
    assert_eq!(otcs.len(), 0);
}

/// Every error kind carries its message.
#[test]
fn error_messages() {
    assert_eq!(
        ContractError::Inactive.message(),
        "The factory has been stopped.  No new otc can be created"
    );
    assert_eq!(ContractError::Expired.message(), "Expired");
    assert_eq!(
        ContractError::TooManyDenominations.message(),
        "Too many denominations"
    );
    assert_eq!(
        ContractError::WrongDenomination.message(),
        "Wrong denomination"
    );
    assert_eq!(
        ContractError::InsufficientPayment.message(),
        "Sent amount is smaller than what being asked"
    );
    assert_eq!(ContractError::NotFound.message(), "Not found");
    assert_eq!(
        ContractError::SelfTrade.message(),
        "Can't swap with yourself"
    );
    assert_eq!(ContractError::Unauthorized.message(), "Unauthorized");
}

/// A native deposit asking for a token, and a token deposit asking for
/// native coins, each settled on the other path.
#[test]
fn mixed_legs_work() {
    let (mut config, mut otcs) = setup();
    let env = mock_block();

    // alice sells 5 token_1 (native) and asks 10 units of a token
    let res = execute(
        &mut config,
        &mut otcs,
        &env,
        &"alice".to_string(),
        coins(5, "token_1"),
        ExecuteMsg::Create(NewOTC {
            ask_balance: Balance::Cw20(Cw20Coin {
                address: "token_contract_2".to_string(),
                amount: 10,
            }),
            expires: None,
            user_info: None,
            description: None,
        }),
    )
    .unwrap();
    match res {
        ContractResponse::Created(resp) => {
            assert!(resp.otc.sell_native && !resp.otc.ask_native);
        }
        _ => panic!("expected a create response"),
    }

    // an underpaying token transfer is rejected
    let res = execute_receive(
        &mut config,
        &mut otcs,
        &env,
        &"token_contract_2".to_string(),
        Cw20Receive {
            sender: "bob".to_string(),
            amount: 9,
            msg: ReceiveMsg::Swap { otc_id: 0 },
        },
    );
    assert_eq!(res.unwrap_err(), ContractError::InsufficientPayment);

    // the asked token settles it
    let res = execute_receive(
        &mut config,
        &mut otcs,
        &env,
        &"token_contract_2".to_string(),
        Cw20Receive {
            sender: "bob".to_string(),
            amount: 10,
            msg: ReceiveMsg::Swap { otc_id: 0 },
        },
    )
    .unwrap();
    match res {
        ContractResponse::Swapped {
            payment_to_seller,
            payment_to_payer,
        } => {
            assert_eq!(
                payment_to_seller,
                TransferMsg::Cw20 {
                    contract_addr: "token_contract_2".to_string(),
                    recipient: "alice".to_string(),
                    amount: 10,
                }
            );
            assert_eq!(
                payment_to_payer,
                TransferMsg::Native {
                    to_address: "bob".to_string(),
                    denom: "token_1".to_string(),
                    amount: 5,
                }
            );
        }
        _ => panic!("expected a swap response"),
    }

    // carol deposits a token and asks 10 token_2 (native)
    let res = execute_receive(
        &mut config,
        &mut otcs,
        &env,
        &"token_contract_1".to_string(),
        Cw20Receive {
            sender: "carol".to_string(),
            amount: 5,
            msg: ReceiveMsg::Create(NewOTC {
                ask_balance: Balance::Native(coins(10, "token_2")),
                expires: None,
                user_info: None,
                description: None,
            }),
        },
    )
    .unwrap();
    let id = match res {
        ContractResponse::Created(resp) => {
            assert!(!resp.otc.sell_native && resp.otc.ask_native);
            resp.id
        }
        _ => panic!("expected a create response"),
    };

    let (to_seller, to_payer) = try_swap(
        &mut otcs,
        &env,
        &"bob".to_string(),
        id,
        Balance::Native(coins(10, "token_2")),
        true,
    )
    .unwrap();
    assert_eq!(
        to_seller,
        TransferMsg::Native {
            to_address: "carol".to_string(),
            denom: "token_2".to_string(),
            amount: 10,
        }
    );
    assert_eq!(
        to_payer,
        TransferMsg::Cw20 {
            contract_addr: "token_contract_1".to_string(),
            recipient: "bob".to_string(),
            amount: 5,
        }
    );
}

/// User info and description pass through uninterpreted.
#[test]
fn passthrough_fields_are_kept() {
    let (mut config, mut otcs) = setup();
    let env = mock_block();
    let r = try_create_otc(
        &mut config,
        &mut otcs,
        &env,
        &"alice".to_string(),
        Balance::Native(coins(5, "token_1")),
        Balance::Native(coins(10, "token_2")),
        None,
        Some(UserInfo {
            user: "Alice".to_string(),
            account_type: Some("personal".to_string()),
        }),
        Some("selling five".to_string()),
    )
    .unwrap();
    assert_eq!(
        r.otc.user_info,
        Some(UserInfo {
            user: "Alice".to_string(),
            account_type: Some("personal".to_string()),
        })
    );
    assert_eq!(r.otc.description, Some("selling five".to_string()));

    let stored = query_otcs(&otcs, &env, false, None, None).otcs;
    assert_eq!(stored[0].1.description, Some("selling five".to_string()));
}

/// A time-based bound elapses with the block time, like a height-based one
/// with the block height.
#[test]
fn time_expiration_elapses() {
    let (mut config, mut otcs) = setup();
    let mut env = mock_block();
    let bound = env.time + 1;
    create_native(
        &mut config,
        &mut otcs,
        "alice",
        (5, "token_1"),
        (10, "token_2"),
        Some(Expiration::AtTime(bound)),
    )
    .unwrap();
    assert_eq!(query_otcs(&otcs, &env, false, None, None).otcs.len(), 1);
    env.time = bound;
    assert_eq!(query_otcs(&otcs, &env, false, None, None).otcs.len(), 0);
    assert_eq!(query_otcs(&otcs, &env, true, None, None).otcs.len(), 1);
}
