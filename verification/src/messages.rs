use vstd::prelude::*;

use crate::types::{DeliveryHandle, SessionId};

verus! {

/// An outbound text payload, pushed by the hub to one connection, which
/// writes it back onto its own transport stream as a text frame.
pub struct OutMessage(pub String);

impl OutMessage {
    /// The characters of the payload.
    pub open spec fn text(self) -> Seq<char> {
        self.0@
    }
}

/// A request to register a new connection with the hub, carrying the
/// delivery handle the hub will use to push text to that connection.
pub struct NewConnection {
    pub addr: DeliveryHandle,
}

/// A notice that the connection with this identifier is gone and must be
/// removed from the registry.
pub struct Disconnect {
    pub id: SessionId,
}

/// A text message received from the connection with this identifier, to be
/// relayed to every other registered connection.
pub struct InMessage {
    pub id: SessionId,
    pub content: String,
}

} // verus!
