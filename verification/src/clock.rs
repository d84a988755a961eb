//! The session clock: decides when a session boundary has been reached.

use vstd::prelude::*;

verus! {

/// True when `tick` lies on a session boundary for the given session length.
///
/// The predicate deliberately fires on tick 0 as well; a host that never
/// delivers a tick-0 command simply never observes that boundary.
pub open spec fn is_boundary_spec(tick: u64, session_length: u64) -> bool
    recommends
        session_length > 0,
{
    tick % session_length == 0
}

/// Decides, from the current tick count and the configured session length,
/// whether a session boundary has been reached.
pub fn is_boundary(tick: u64, session_length: u64) -> (r: bool)
    requires
        session_length > 0,
    ensures
        r == is_boundary_spec(tick, session_length),
{
    tick % session_length == 0
}

} // verus!
