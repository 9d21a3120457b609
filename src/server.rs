//! The lifecycle states of a server.

use vstd::prelude::*;

verus! {

/// The server accepts connections.
#[derive(Debug, Clone, Copy, PartialEq, Eq, Structural)]
pub struct Listening;

/// The server does not accept connections.
#[derive(Debug, Clone, Copy, PartialEq, Eq, Structural)]
pub struct Closed;

} // verus!
