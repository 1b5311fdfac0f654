use vstd::prelude::*;

verus! {

/// Why an operation on a pool was rejected. A rejected operation changes nothing.
#[derive(Debug, PartialEq, Eq, Structural, Clone, Copy)]
pub enum ContractError {
    /// Reserved for operations restricted to some callers; nothing returns it yet.
    Unauthorized {},
    /// The supplied funds have the wrong count or a denomination the pool lacks.
    FundsMismatched {},
    /// A payout exceeds the reserve, or the payment offered is below the price.
    InsufficientFunds {},
    /// A pool with this id exists already.
    AlreadyInUse {},
    /// No pool has this id.
    NotFound {},
    /// An amount would leave the range of `u128`.
    Overflow {},
    /// A price was asked against an empty reserve.
    DivideByZero {},
}

/// The description of each error.
pub open spec fn message_of(e: ContractError) -> Seq<char> {
    match e {
        ContractError::Unauthorized {  } => "Unauthorized"@,
        ContractError::FundsMismatched {  } => "Funds Mismatch"@,
        ContractError::InsufficientFunds {  } => "Insufficient Funds"@,
        ContractError::AlreadyInUse {  } => "Pool id already in use"@,
        ContractError::NotFound {  } => "Pool not found"@,
        ContractError::Overflow {  } => "Amount overflow"@,
        ContractError::DivideByZero {  } => "Division by zero"@,
    }
}

impl ContractError {
    /// A short human-readable description of the error.
    pub fn message(&self) -> (r: String)
        ensures
            r@ == message_of(*self),
    {
        match self {
            ContractError::Unauthorized {} => "Unauthorized".to_owned(),
            ContractError::FundsMismatched {} => "Funds Mismatch".to_owned(),
            ContractError::InsufficientFunds {} => "Insufficient Funds".to_owned(),
            ContractError::AlreadyInUse {} => "Pool id already in use".to_owned(),
            ContractError::NotFound {} => "Pool not found".to_owned(),
            ContractError::Overflow {} => "Amount overflow".to_owned(),
            ContractError::DivideByZero {} => "Division by zero".to_owned(),
        }
    }
}

} // verus!
