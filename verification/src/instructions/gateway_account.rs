//! A gateway account as it is passed to the instructions that work through the
//! registry in batches.

use vstd::prelude::*;
use crate::pubkey::Pubkey;
use crate::state::accounts::Gateway;

verus! {

/// An account that is passed as that of a gateway.
#[derive(Clone, Debug)]
pub struct GatewayAccount {
    pub key: Pubkey,
    /// Whether the account belongs to this program.
    pub owned: bool,
    pub writable: bool,
    /// What the account holds; `None` if it is not a gateway.
    pub gateway: Option<Gateway>,
}

} // verus!
