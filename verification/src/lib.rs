//! A fungible-token ledger with verified accounting: balances, allowances, and the
//! transfers, mints and burns that keep the supply equal to the sum of the balances.

pub mod address;
pub mod allowances;
pub mod amount;
pub mod erc20;
pub mod error;
pub mod ledger;
pub mod mock;
pub mod notification;
pub mod state;

pub use crate::address::Address;
pub use crate::allowances::AllowanceRegistry;
pub use crate::amount::Amount;
pub use crate::erc20::{ERC20, ERC20Params};
pub use crate::error::ERC20Error;
pub use crate::ledger::Ledger;
pub use crate::mock::Mock;
pub use crate::notification::{Approval, Transfer};
