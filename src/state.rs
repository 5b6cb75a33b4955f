//! Account state that the engine reads and updates.
pub mod amm_state;
pub mod exchange;
pub mod liquidation_state;
pub mod margin_stress;
pub mod user_account;
