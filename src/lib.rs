//! A prediction-market state machine: markets, trades on a linear-impact
//! price curve, trader profiles, comments and a cache of market insights.
pub mod backend;
pub mod identity;
pub mod insight;
pub mod market;
pub mod pricing;
