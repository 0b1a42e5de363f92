pub mod addresses;
pub mod arith;
pub mod error;
pub mod event_log;
pub mod events;
pub mod instructions;
pub mod migration;
pub mod params;
pub mod pubkey;
pub mod schema_migration;
pub mod state;
pub mod text;
