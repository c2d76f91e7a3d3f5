//! Row-level parsing and validation of the frozen CSV inputs. Reading the
//! files is left to the caller; these functions take the rows' texts.
pub mod daily_flows;
pub mod daily_response;
pub mod daily_supply;
pub mod reference_returns;
