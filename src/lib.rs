pub mod collection;
pub mod decimal;
pub mod error;
pub mod get;
pub mod ins;
pub mod resp;
pub mod state;

pub use crate::error::ContractError;
