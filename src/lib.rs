//! Currency conversion: the amount grammar, the rate table and the rules that
//! turn a rate service's answer into a rate or an error.

pub mod amount;
pub mod convert;
pub mod rates;
