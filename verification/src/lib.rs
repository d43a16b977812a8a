//! Multi-currency arithmetic: amounts tagged with a currency, sums that keep
//! their parts apart, and a bank that folds such a sum into one currency.

pub mod amount;
pub mod bank;
pub mod laws;
pub mod money;

pub use amount::Amount;
pub use bank::Bank;
pub use money::Currency;
pub use money::Money;
