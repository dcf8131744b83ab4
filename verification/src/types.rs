use vstd::prelude::*;

verus! {

/// A connection identifier: unique for the process lifetime, assigned once per
/// connection at registration time, never reused within a single run. The
/// value `0` is reserved as a sentinel meaning "no specific sender" and is
/// never assigned to a real connection.
pub type SessionId = usize;

/// An opaque, clonable capability that lets the hub push a text payload to
/// exactly one connection. The surrounding runtime keeps the association from
/// `token` to the actual transport sink; the verified core only stores and
/// hands back the capability.
#[derive(Clone, Copy, PartialEq, Eq, Structural, Debug)]
pub struct DeliveryHandle {
    pub token: usize,
}

} // verus!
