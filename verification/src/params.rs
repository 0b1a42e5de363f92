//! The arguments of instructions that take many.

use vstd::prelude::*;
use crate::pubkey::Pubkey;
use crate::state::accounts::Protocol;

verus! {

#[derive(Clone, Copy, Debug)]
pub struct InitializeParams {
    pub authority: Pubkey,
    pub migration_authority: Pubkey,
    /// The token account that will hold all stake.
    pub stake_token_account: Pubkey,
    /// The token account of the protocol treasury.
    pub protocol_token_account: Pubkey,
    /// The program that owns the name registry.
    pub arns_program_id: Pubkey,
}

#[derive(Clone, Copy, Debug)]
pub struct InitializeEpochParams {
    pub authority: Pubkey,
    pub epoch_duration: i64,
    pub observer_count: u8,
    pub name_count: u8,
    pub min_observer_stake: u64,
    pub slash_rate: u16,
    pub tenure_weight_duration: i64,
    pub max_tenure_weight: u64,
}

#[derive(Clone, Debug)]
pub struct JoinNetworkParams {
    pub operator_stake: u64,
    pub label: String,
    pub fqdn: String,
    pub port: u16,
    pub protocol: Protocol,
    pub properties: Option<String>,
    pub note: Option<String>,
    pub allow_delegated_staking: bool,
    /// Delegates' share of the rewards, in percent.
    pub delegate_reward_share_ratio: u8,
    pub min_delegate_stake: Option<u64>,
    /// The address that will submit observations; the operator's own by default.
    pub observer_address: Pubkey,
}

/// The settings to change; `None` leaves one as it is.
#[derive(Clone, Debug)]
pub struct UpdateGatewayParams {
    pub label: Option<String>,
    pub fqdn: Option<String>,
    pub port: Option<u16>,
    pub protocol: Option<Protocol>,
    pub properties: Option<String>,
    pub note: Option<String>,
    pub allow_delegated_staking: Option<bool>,
    /// Delegates' share of the rewards, in percent.
    pub delegate_reward_share_ratio: Option<u8>,
    pub min_delegate_stake: Option<u64>,
}

impl Default for UpdateGatewayParams {
    /// Nothing to change.
    fn default() -> (r: UpdateGatewayParams)
        ensures
            r.label is None,
            r.fqdn is None,
            r.port is None,
            r.protocol is None,
            r.properties is None,
            r.note is None,
            r.allow_delegated_staking is None,
            r.delegate_reward_share_ratio is None,
            r.min_delegate_stake is None,
    {
        UpdateGatewayParams {
            label: None,
            fqdn: None,
            port: None,
            protocol: None,
            properties: None,
            note: None,
            allow_delegated_staking: None,
            delegate_reward_share_ratio: None,
            min_delegate_stake: None,
        }
    }
}

} // verus!
