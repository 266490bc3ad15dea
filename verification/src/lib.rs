//! Pricing for two-outcome prediction markets run by an automated market
//! maker that keeps the product of its two share reserves constant.

pub mod ledger;
pub mod outcome;
pub mod market;
pub mod paired;
pub mod pricing;

pub use market::{Bet, BinaryMarket, MarketError, Probability};
pub use outcome::Outcome;
pub use paired::YesNoValues;
