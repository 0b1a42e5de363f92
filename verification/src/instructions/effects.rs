//! What an instruction asks of its surroundings.

use vstd::prelude::*;
use crate::error::GarError;

verus! {

/// Who holds tokens.
#[derive(Clone, Copy, Debug, PartialEq, Eq, Structural)]
pub enum Holder {
    /// The token account that the signer brought along.
    Wallet,
    /// The one account that holds all stake.
    StakePool,
    /// The protocol treasury.
    Treasury,
}

/// Why an instruction that reads accounts of several types is refused.
#[derive(Clone, Copy, Debug, PartialEq, Eq, Structural)]
pub enum Refusal {
    /// By a rule of the program.
    Gar(GarError),
    /// An account is not of the type that its place calls for.
    WrongAccountType,
    /// An address that the instruction needs cannot be derived: no bump seed
    /// moves it off the curve.
    NoProgramAddress,
}

/// A token transfer to be made.
#[derive(Clone, Copy, Debug, PartialEq, Eq, Structural)]
pub struct TokenTransfer {
    pub from: Holder,
    pub to: Holder,
    pub amount: u64,
}

pub open spec fn transfer(from: Holder, to: Holder, amount: int) -> TokenTransfer {
    TokenTransfer { from, to, amount: amount as u64 }
}

/// The transfer of `amount`, if there is anything to transfer.
pub open spec fn transfer_if_any(from: Holder, to: Holder, amount: int) -> Seq<TokenTransfer> {
    if amount > 0 {
        seq![transfer(from, to, amount)]
    } else {
        Seq::empty()
    }
}

/// What a successful instruction leaves behind: the accounts as they are to be
/// written back, the transfers to make in this order, and the event to emit.
pub struct Outcome<A, E> {
    pub accounts: A,
    pub transfers: Vec<TokenTransfer>,
    pub event: E,
}

pub fn one_transfer(from: Holder, to: Holder, amount: u64) -> (r: Vec<TokenTransfer>)
    ensures
        r@ == seq![transfer(from, to, amount as int)],
{
    let mut r: Vec<TokenTransfer> = Vec::new();
    r.push(TokenTransfer { from, to, amount });
    r
}

} // verus!
