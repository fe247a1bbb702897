use vstd::prelude::*;

use crate::error::ContractError;
use crate::state::MinterData;

verus! {

/// One row of the initial distribution: a validated account identifier and
/// the amount it starts with.
#[derive(Clone, Debug, PartialEq, Eq)]
pub struct InitialBalance {
    pub address: String,
    pub amount: u128,
}

/// Everything initialization needs: the descriptive token fields, the
/// initial distribution, and the minting authority if one is wanted.
#[derive(Clone, Debug)]
pub struct InitMsg {
    pub name: String,
    pub symbol: String,
    pub decimals: u8,
    pub initial_balances: Vec<InitialBalance>,
    pub mint: Option<MinterData>,
}

/// A distribution list as (identifier, amount) pairs.
pub open spec fn accounts_view(accounts: Seq<InitialBalance>) -> Seq<(Seq<char>, u128)> {
    accounts.map_values(|e: InitialBalance| (e.address@, e.amount))
}

/// The total that a distribution list grants to `id`; a repeated identifier
/// accumulates rather than overwrites.
pub open spec fn total_of_id(s: Seq<(Seq<char>, u128)>, id: Seq<char>) -> int
    decreases s.len(),
{
    if s.len() == 0 {
        0
    } else {
        total_of_id(s.drop_last(), id) + if s.last().0 == id {
            s.last().1 as int
        } else {
            0
        }
    }
}

impl InitMsg {
    /// The configured cap, when the message configures a minter with one.
    pub open spec fn spec_cap(self) -> Option<u128> {
        match self.mint {
            Some(md) => md.cap,
            None => None,
        }
    }

    /// The cap the message asks for, if any.
    pub fn get_cap(&self) -> (r: Option<u128>)
        ensures
            r == self.spec_cap(),
    {
        match &self.mint {
            Some(md) => md.cap,
            None => None,
        }
    }

    /// Rejects a `decimals` field above 18; nothing else is checked here.
    pub fn validate(&self) -> (r: Result<(), ContractError>)
        ensures
            r is Ok <==> self.decimals <= 18,
            match r {
                Ok(_) => self.decimals <= 18,
                Err(e) => self.decimals > 18 && e == ContractError::InvalidDecimals,
            },
    {
        if self.decimals > 18 {
            return Err(ContractError::InvalidDecimals);
        }
        Ok(())
    }
}

/// What a metadata query reports.
#[derive(Clone, Debug, PartialEq, Eq)]
pub struct TokenInfoResponse {
    pub name: String,
    pub symbol: String,
    pub decimals: u8,
    pub total_supply: u128,
}

/// What a balance query reports.
#[derive(Clone, Copy, Debug, PartialEq, Eq, Structural)]
pub struct BalanceResponse {
    pub balance: u128,
}

/// The audit record of a successful mint, in its logical field order.
#[derive(Clone, Debug, PartialEq, Eq)]
pub struct MintEvent {
    pub action: String,
    pub to: String,
    pub amount: u128,
}

} // verus!
