//! The failures a ledger operation can end in.

use vstd::prelude::*;
use cosmwasm_std::StdError;

verus! {

/// `cosmwasm_std::StdError`, carried through unopened: nothing is claimed of
/// what a value of it holds.
#[verifier::external_type_specification]
#[verifier::external_body]
pub struct ExStdError(cosmwasm_std::StdError);

/// Why an operation was refused. Every variant is terminal for the call that
/// produced it, and no state is changed by a call that returns one.
#[derive(Debug)]
pub enum ContractError {
    /// A failure handed in from outside the ledger rules (an address the
    /// validator rejected), passed on as it came.
    Std(StdError),
    /// The caller lacks the authority the operation needs.
    Unauthorized {},
    /// Minting is switched off in the configuration.
    MintingDisabled {},
    /// The mint would lift the total supply above the cap.
    SupplyCapExceeded {},
    /// The identity to add is already a minter.
    MinterAlreadyExists {},
    /// The identity to remove is not a minter.
    MinterNotFound {},
}

/// Calls `to_string` on a `cosmwasm_std::StdError`, which renders it through
/// its `Display`. Nothing is claimed of the text.
#[verifier::external_body]
pub(crate) fn std_error_text(e: &StdError) -> (text: String) {
    e.to_string()
}

impl ContractError {
    /// The fixed message of a refusal by the ledger's own rules; `None` for
    /// a failure handed in from outside, whose text is its own.
    pub open spec fn fixed_message(&self) -> Option<Seq<char>> {
        match self {
            ContractError::Std(_) => None,
            ContractError::Unauthorized {  } => Some("Unauthorized"@),
            ContractError::MintingDisabled {  } => Some("Minting is currently disabled"@),
            ContractError::SupplyCapExceeded {  } => Some("Supply cap exceeded"@),
            ContractError::MinterAlreadyExists {  } => Some("Minter already exists"@),
            ContractError::MinterNotFound {  } => Some("Minter not found"@),
        }
    }

    /// The human-readable message of the error.
    pub fn message(&self) -> (text: String)
        ensures
            self.fixed_message() matches Some(fixed) ==> text@ == fixed,
    {
        match self {
            ContractError::Std(e) => std_error_text(e),
            ContractError::Unauthorized {  } => "Unauthorized".to_owned(),
            ContractError::MintingDisabled {  } => "Minting is currently disabled".to_owned(),
            ContractError::SupplyCapExceeded {  } => "Supply cap exceeded".to_owned(),
            ContractError::MinterAlreadyExists {  } => "Minter already exists".to_owned(),
            ContractError::MinterNotFound {  } => "Minter not found".to_owned(),
        }
    }
}

} // verus!
