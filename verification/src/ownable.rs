//! The owner check shared by the owner-gated contracts.
use vstd::prelude::*;

verus! {

/// Why an owner-gated call was refused.
#[derive(Debug, PartialEq, Eq, Structural)]
pub enum OwnershipError {
    /// The contract has no owner (ownership was renounced).
    NoOwner,
    /// The caller is not the contract's current owner.
    NotOwner,
}

impl OwnershipError {
    /// The text of the error.
    pub open spec fn message_text(&self) -> Seq<char> {
        match self {
            OwnershipError::NoOwner => "Contract ownership has been renounced"@,
            OwnershipError::NotOwner => "Caller is not the contract's current owner"@,
        }
    }

    /// The message of the error.
    pub fn message(&self) -> (r: String)
        ensures
            r@ == self.message_text(),
    {
        match self {
            OwnershipError::NoOwner => String::from_str("Contract ownership has been renounced"),
            OwnershipError::NotOwner => String::from_str("Caller is not the contract's current owner"),
        }
    }
}

/// Whether `sender` is the contract owner `owner`.
pub open spec fn is_owner_spec(owner: Option<String>, sender: Seq<char>) -> bool {
    match owner {
        Some(o) => o@ == sender,
        None => false,
    }
}

/// The refusal of an owner-gated call by someone who is not the owner:
/// `NoOwner` once ownership was renounced, `NotOwner` otherwise.
pub open spec fn owner_error(owner: Option<String>) -> OwnershipError {
    match owner {
        None => OwnershipError::NoOwner,
        Some(_) => OwnershipError::NotOwner,
    }
}

/// Succeeds when `sender` is the contract's current owner.
pub fn assert_owner(owner: &Option<String>, sender: &str) -> (r: Result<(), OwnershipError>)
    ensures
        r is Ok <==> is_owner_spec(*owner, sender@),
        owner is None ==> r == Err::<(), OwnershipError>(OwnershipError::NoOwner),
        (owner is Some && !is_owner_spec(*owner, sender@)) ==> r == Err::<(), OwnershipError>(
            OwnershipError::NotOwner,
        ),
{
    match owner {
        None => Err(OwnershipError::NoOwner),
        Some(o) => {
            if crate::common::str_eq(o.as_str(), sender) {
                Ok(())
            } else {
                Err(OwnershipError::NotOwner)
            }
        },
    }
}

} // verus!
