//! Verified core of a liquidity-book swap bot: price and bin arithmetic,
//! the account plan of a swap, and the decisions of the transaction senders.

pub mod decimal;
pub mod dlmm;
pub mod price;
pub mod accounts;
pub mod swap;
pub mod plan;
pub mod sender;
