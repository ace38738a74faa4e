use vstd::prelude::*;

verus! {

/// Handshake sent on the stream port before the raw byte pipe starts.
pub struct Request {
    pub id: i32,
    pub initiator: bool,
}

impl Request {
    /// The handshake the agent sends to attach to stream `id`: the agent is
    /// never the initiator.
    pub fn attach(id: i32) -> (r: Request)
        ensures
            r.id == id,
            !r.initiator,
    {
        Request { id, initiator: false }
    }
}

} // verus!
