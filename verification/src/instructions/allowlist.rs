//! The allowlist of a gateway.

use vstd::prelude::*;
use crate::error::GarError;
use crate::events::{AllowlistToggledEvent, DelegateAllowlistedEvent};
use crate::instructions::gateway::UpdateGatewaySettings;
use crate::pubkey::Pubkey;
use crate::state::accounts::{AllowlistEntry, Gateway, GatewaySettings2};
use crate::state::constants::allowlist_entry_version;

verus! {

/// The accounts of `allow_delegate`.
#[derive(Clone, Debug)]
pub struct AllowDelegate {
    pub gateway: Gateway,
    pub delegate: Pubkey,
    pub operator: Pubkey,
    /// The bump seed of the entry to be opened.
    pub allowlist_entry_bump: u8,
}

/// Puts a delegate on a gateway's allowlist.
pub fn allow_delegate(ctx: AllowDelegate, now: i64) -> (r: Result<
    (AllowlistEntry, DelegateAllowlistedEvent),
    GarError,
>)
    ensures
        match r {
            Err(e) => ctx.gateway.operator != ctx.operator && e == GarError::NotOperator,
            Ok((entry, event)) => {
                &&& ctx.gateway.operator == ctx.operator
                &&& entry == (AllowlistEntry {
                    gateway: ctx.gateway.operator,
                    delegate: ctx.delegate,
                    added_at: now,
                    bump: ctx.allowlist_entry_bump,
                    version: allowlist_entry_version(),
                })
                &&& event == (DelegateAllowlistedEvent {
                    operator: ctx.gateway.operator,
                    delegate: ctx.delegate,
                    allowed: true,
                    timestamp: now,
                })
            },
        },
{
    if ctx.gateway.operator != ctx.operator {
        return Err(GarError::NotOperator);
    }
    let entry = AllowlistEntry {
        gateway: ctx.gateway.operator,
        delegate: ctx.delegate,
        added_at: now,
        bump: ctx.allowlist_entry_bump,
        version: allowlist_entry_version(),
    };
    let event = DelegateAllowlistedEvent {
        operator: entry.gateway,
        delegate: entry.delegate,
        allowed: true,
        timestamp: now,
    };
    Ok((entry, event))
}

/// The accounts of `disallow_delegate`. The entry's account is closed.
#[derive(Clone, Debug)]
pub struct DisallowDelegate {
    pub gateway: Gateway,
    pub delegate: Pubkey,
    pub operator: Pubkey,
}

/// Takes a delegate off a gateway's allowlist. Stake that is there stays.
pub fn disallow_delegate(ctx: DisallowDelegate, now: i64) -> (r: Result<DelegateAllowlistedEvent, GarError>)
    ensures
        match r {
            Err(e) => ctx.gateway.operator != ctx.operator && e == GarError::NotOperator,
            Ok(event) => {
                &&& ctx.gateway.operator == ctx.operator
                &&& event == (DelegateAllowlistedEvent {
                    operator: ctx.operator,
                    delegate: ctx.delegate,
                    allowed: false,
                    timestamp: now,
                })
            },
        },
{
    if ctx.gateway.operator != ctx.operator {
        return Err(GarError::NotOperator);
    }
    Ok(
        DelegateAllowlistedEvent {
            operator: ctx.operator,
            delegate: ctx.delegate,
            allowed: false,
            timestamp: now,
        },
    )
}

/// Turns a gateway's allowlist on or off.
pub fn set_allowlist_enabled(ctx: UpdateGatewaySettings, enabled: bool, now: i64) -> (r: Result<
    (UpdateGatewaySettings, AllowlistToggledEvent),
    GarError,
>)
    ensures
        match r {
            Err(e) => ctx.gateway.operator != ctx.operator && e == GarError::NotOperator,
            Ok((after, event)) => {
                &&& ctx.gateway.operator == ctx.operator
                &&& after == (UpdateGatewaySettings {
                    gateway: Gateway {
                        settings: GatewaySettings2 { allowlist_enabled: enabled, ..ctx.gateway.settings },
                        ..ctx.gateway
                    },
                    ..ctx
                })
                &&& event == (AllowlistToggledEvent {
                    operator: ctx.gateway.operator,
                    enabled,
                    timestamp: now,
                })
            },
        },
{
    let mut ctx = ctx;
    if ctx.gateway.operator != ctx.operator {
        return Err(GarError::NotOperator);
    }
    ctx.gateway.settings.allowlist_enabled = enabled;
    let event = AllowlistToggledEvent { operator: ctx.gateway.operator, enabled, timestamp: now };
    Ok((ctx, event))
}

/// Only the operator of a gateway keeps its allowlist. An entry names the gateway and the
/// delegate that was let in, and switching the list on or off changes nothing else.
pub proof fn only_the_operator_keeps_the_allowlist(
    allow: AllowDelegate,
    allowed: Result<(AllowlistEntry, DelegateAllowlistedEvent), GarError>,
    disallow: DisallowDelegate,
    disallowed: Result<DelegateAllowlistedEvent, GarError>,
    update: UpdateGatewaySettings,
    enabled: bool,
    switched: Result<(UpdateGatewaySettings, AllowlistToggledEvent), GarError>,
    now: i64,
)
    requires
        call_ensures(allow_delegate, (allow, now), allowed),
        call_ensures(disallow_delegate, (disallow, now), disallowed),
        call_ensures(set_allowlist_enabled, (update, enabled, now), switched),
    ensures
        allowed is Ok <==> allow.operator == allow.gateway.operator,
        disallowed is Ok <==> disallow.operator == disallow.gateway.operator,
        switched is Ok <==> update.operator == update.gateway.operator,
        allowed matches Err(e) ==> e == GarError::NotOperator,
        disallowed matches Err(e) ==> e == GarError::NotOperator,
        switched matches Err(e) ==> e == GarError::NotOperator,
        allowed matches Ok((entry, event)) ==> {
            &&& entry.gateway == allow.gateway.operator
            &&& entry.delegate == allow.delegate
            &&& entry.added_at == now
            &&& entry.bump == allow.allowlist_entry_bump
            &&& entry.version.major == 1 && entry.version.minor == 0 && entry.version.patch == 0
            &&& event.operator == allow.gateway.operator
            &&& event.delegate == allow.delegate
            &&& event.allowed
            &&& event.timestamp == now
        },
        disallowed matches Ok(event) ==> {
            &&& event.operator == disallow.gateway.operator
            &&& event.delegate == disallow.delegate
            &&& !event.allowed
            &&& event.timestamp == now
        },
        switched matches Ok((after, event)) ==> {
            let (g, g2) = (update.gateway, after.gateway);
            &&& g2.settings.allowlist_enabled == enabled
            &&& g2 == (Gateway { settings: g2.settings, ..g })
            &&& g2.settings == (GatewaySettings2 { allowlist_enabled: enabled, ..g.settings })
            &&& after.settings == update.settings
            &&& event.operator == g.operator
            &&& event.enabled == enabled
            &&& event.timestamp == now
        },
{
}

} // verus!
