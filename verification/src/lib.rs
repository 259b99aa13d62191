//! Token streaming and vesting: a sender locks an amount of a token for a
//! recipient, who can claim it as it vests linearly over a time window; the
//! sender may cancel, splitting what is left between the two.

pub mod address;
pub mod error;
pub mod stream;
pub mod effects;
pub mod contract;
pub mod laws;
