//! The operator-facing menus: each choice a plain enum the session logic
//! dispatches on.

use vstd::prelude::*;

verus! {

/// Create a new group, or join an existing one.
#[derive(Debug, Clone, PartialEq, Eq)]
pub enum Group {
    Create,
    Join,
}

/// How to proceed at the authentication prompt.
#[derive(Debug, Clone, PartialEq, Eq)]
pub enum Register {
    Register,
    Login,
    Retry,
}

} // verus!
