//! The instructions. Each takes the accounts that it names by value, checks
//! them, and returns them as they are to be written back, along with the token
//! transfers to make and the event to emit. An instruction that is refused
//! returns no accounts: nothing is written.

pub mod allowlist;
pub mod delegate;
pub mod distribution;
pub mod effects;
pub mod epoch;
pub mod funding_plan;
pub mod gateway;
pub mod gateway_account;
pub mod gateway_exit;
pub mod initialize;
pub mod observation;
pub mod operator_stake;
pub mod payment;
pub mod places;
pub mod prescribe;
pub mod roulette;
pub mod tally;
pub mod withdrawal;
