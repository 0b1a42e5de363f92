//! The accounts of the program, and the calculations that belong to them.

pub mod accounts;
pub mod constants;
pub mod epoch;
pub mod name_registry;
pub mod rewards;
pub mod weights;

pub use accounts::{
    AllowlistEntry, Delegation, EpochSettings, Gateway, GatewayRegistry, GatewaySettings,
    GatewaySettings2, GatewaySlot, GatewayStats, GatewayStatus, Observation, ObserverLookup,
    Protocol, RedelegationRecord, RegistryIndex, SchemaVersion, Withdrawal, WithdrawalCounter,
};

pub use epoch::Epoch;
pub use name_registry::{read_name_entry, read_name_registry_header, NameEntryReader};
pub use rewards::{compute_reward_rate, settle_delegate_rewards};
pub use weights::GatewayWeights;
