pub mod expression;
pub mod filter;
pub mod physical;
