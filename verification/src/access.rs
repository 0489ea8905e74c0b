//! The one question that a privileged operation asks: does the caller hold the
//! role?

use crate::types::{AccessControlError, GameError};
use vstd::prelude::*;

verus! {

/// What a privileged operation answers to a caller, given whether the caller
/// holds the role that it asks for.
pub open spec fn role_error(has_role: bool) -> Option<GameError> {
    if has_role {
        None
    } else {
        Some(GameError::AccessControlError(AccessControlError::MissingRole))
    }
}

/// Lets a privileged operation go on only for a caller who holds the role.
pub fn only_role(has_role: bool) -> (r: Result<(), GameError>)
    ensures
        match role_error(has_role) {
            Some(e) => r == Err::<(), GameError>(e),
            None => r == Ok::<(), GameError>(()),
        },
{
    if has_role {
        Ok(())
    } else {
        Err(GameError::AccessControlError(AccessControlError::MissingRole))
    }
}

} // verus!
