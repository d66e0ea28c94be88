//! Asset values and payment normalization.
//!
//! A payment arrives either as a list of native coins attached to a call, or
//! as a token-contract transfer notification. Normalization turns either
//! shape into one value: N units of a native denomination, or N units of a
//! fungible token identified by its contract address.

use vstd::prelude::*;

use crate::error::ContractError;

verus! {

/// An amount of the chain's native currency in one denomination.
#[derive(Debug, PartialEq, Eq)]
pub struct Coin {
    pub denom: String,
    pub amount: u128,
}

/// An amount of a fungible token, identified by the token contract address.
#[derive(Debug, PartialEq, Eq)]
pub struct Cw20Coin {
    pub address: String,
    pub amount: u128,
}

/// A raw incoming payment: the native coins attached to a call, or a single
/// token-contract transfer.
#[derive(Debug)]
pub enum Balance {
    Native(Vec<Coin>),
    Cw20(Cw20Coin),
}

/// One normalized asset: exactly one denomination or one token contract.
#[derive(Debug)]
pub enum AssetValue {
    Native(Coin),
    Token(Cw20Coin),
}

impl Clone for Coin {
    fn clone(&self) -> (r: Self)
        ensures
            r == *self,
    {
        Coin { denom: self.denom.clone(), amount: self.amount }
    }
}

impl Clone for Cw20Coin {
    fn clone(&self) -> (r: Self)
        ensures
            r == *self,
    {
        Cw20Coin { address: self.address.clone(), amount: self.amount }
    }
}

/// Turn a raw payment into one asset value.
///
/// A native payment must carry exactly one denomination: more than one is
/// rejected with `TooManyDenominations`, never merged. A token transfer is
/// wrapped directly, since the transfer has already happened by the time the
/// notification arrives.
pub fn normalize_balance(balance: Balance) -> (r: Result<AssetValue, ContractError>)
    requires
        balance matches Balance::Native(coins) ==> coins@.len() >= 1,
    ensures
        match balance {
            Balance::Native(coins) => {
                if coins@.len() == 1 {
                    r == Ok::<AssetValue, ContractError>(AssetValue::Native(coins@[0]))
                } else {
                    r == Err::<AssetValue, ContractError>(ContractError::TooManyDenominations)
                }
            },
            Balance::Cw20(token) => r == Ok::<AssetValue, ContractError>(AssetValue::Token(token)),
        },
{
    match balance {
        Balance::Native(mut coins) => {
            let coin = match coins.pop() {
                Some(c) => c,
                None => {
                    proof {
                        assert(false);
                    }
                    Coin { denom: String::new(), amount: 0 }
                },
            };
            if coins.len() != 0 {
                return Err(ContractError::TooManyDenominations);
            }
            Ok(AssetValue::Native(coin))
        },
        Balance::Cw20(token) => Ok(AssetValue::Token(token)),
    }
}

} // verus!
