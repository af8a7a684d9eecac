//! Errors of the registry operations.
use vstd::prelude::*;

verus! {

#[derive(Debug, PartialEq, Eq)]
pub enum ContractError {
    /// The store failed; its message is kept.
    Std { message: String },
    /// The caller is not on the allow-list.
    Unauthorized {},
    /// No record is stored at the key, or the stored record has no key.
    InvalidLandNft {},
    /// A record is already stored at the key being created.
    AlreadyExists { key: String },
    /// The record has been minted, so it can no longer change.
    AlreadyMinted { key: String },
    /// A payment leg would carry no funds.
    InvalidAmount {},
    /// The token subsystem refused an operation; its message is kept.
    CustomError { message: String },
    /// Any other failure, with its message.
    CustomErrorMesg { message: String },
}

} // verus!
