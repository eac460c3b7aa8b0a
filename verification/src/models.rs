//! What the rates are about.

pub mod currency;
pub mod exchange_rate_result;

pub use currency::{Currency, CurrencyError};
pub use exchange_rate_result::ExchangeRateResult;
