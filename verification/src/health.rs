//! The liveness answer of the service.

use vstd::prelude::*;

verus! {

/// Whether the service considers itself able to serve.
#[derive(Clone, Debug, PartialEq, Eq, Hash, Structural)]
pub enum Health {
    Healthy,
    Sick,
}

/// The body of the liveness response.
#[derive(Clone, Debug, PartialEq, Eq, Hash, Structural)]
pub struct Status {
    pub health: Health,
}

/// The liveness route always reports a healthy status.
pub fn healthy_status() -> (r: Status)
    ensures
        r == (Status { health: Health::Healthy }),
{
    Status { health: Health::Healthy }
}

} // verus!
