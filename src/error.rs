use vstd::prelude::*;

verus! {

/// Every failure that the registry or the issuer reports.
#[derive(Debug, Clone, PartialEq, Eq)]
pub enum ContractError {
    /// A record or denomination is not registered.
    NotFound {},
    /// No price point lies within the recency window.
    PriceUnavailable {},
    /// A stored price identifier is not 64 hexadecimal digits.
    InvalidPriceId {},
    /// An arithmetic step left the representable range.
    OverflowError {},
    /// The reply payload of a child creation could not be parsed.
    ParseReply {},
    /// The child token component has not been created yet.
    TokenNotReady {},
    Unauthorized {},
    UnrecognizedReply {},
    InvalidDenom { got: String, expected: String },
    InvalidFunds { got: String, expected: String },
    InsufficientFunds {},
    MissingFunds {},
    ExtraFunds {},
    InvalidDecimal {},
}

impl ContractError {
    /// A short human-readable description of the error.
    pub fn message(&self) -> String {
        match self {
            ContractError::NotFound {} => String::from_str("Not found"),
            ContractError::PriceUnavailable {} => String::from_str("Current price is not available"),
            ContractError::InvalidPriceId {} => String::from_str("Invalid price identifier"),
            ContractError::OverflowError {} => String::from_str("Overflow"),
            ContractError::ParseReply {} => String::from_str("Failure parsing reply data"),
            ContractError::TokenNotReady {} => String::from_str("Token contract is not instantiated"),
            ContractError::Unauthorized {} => String::from_str("Unauthorized"),
            ContractError::UnrecognizedReply {} => String::from_str("The reply ID is unrecognized"),
            ContractError::InvalidDenom { .. } => String::from_str("Invalid denom!"),
            ContractError::InvalidFunds { .. } => String::from_str("Invalid funds!"),
            ContractError::InsufficientFunds {} => String::from_str("Insufficient funds!"),
            ContractError::MissingFunds {} => String::from_str("No funds found!"),
            ContractError::ExtraFunds {} => String::from_str(
                "Extra funds found! Only one coin is allowed to be sent to this message.",
            ),
            ContractError::InvalidDecimal {} => String::from_str("Invalid decimal"),
        }
    }
}

} // verus!
