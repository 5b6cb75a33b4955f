//! Pricing and risk engine of an options exchange, over fixed-point integers.
//!
//! Prices, spot values, stress fractions and deltas are integers scaled by
//! [`constants::DECIMAL_SCALE`]; times to maturity are whole seconds.
pub mod amm;
pub mod asset;
pub mod constants;
pub mod errors;
pub mod margin;
pub mod oracle;
pub mod orderbook;
pub mod orders;
pub mod pubkey;
pub mod pricing;
pub mod state;
pub mod stress;
