//! The envelope that carries an encoded request to the connection writer, and
//! the shutdown marker that travels through the same queue.
use vstd::prelude::*;
use crate::request::RequestHeader;

verus! {

/// Packet type of an ordinary request.
pub const REQUEST_PTYPE: i8 = 0;
/// Packet type of the shutdown marker.
pub const DEATH_PTYPE: i8 = -1;

/// A request on its way to the connection writer, or the marker that tells
/// the writer to stop. The marker is never written to the network.
#[derive(Debug)]
pub enum ReqPacket {
    /// An optional header (the handshake has none) and the encoded payload.
    Request { rh: Option<RequestHeader>, req: bytes::BytesMut },
    Death,
}

impl ReqPacket {
    pub fn new(rh: Option<RequestHeader>, req: bytes::BytesMut) -> (r: ReqPacket)
        ensures
            r == (ReqPacket::Request { rh, req }),
            r.spec_ptype() == REQUEST_PTYPE,
    {
        ReqPacket::Request { rh, req }
    }

    /// The shutdown marker.
    pub fn death_request() -> (r: ReqPacket)
        ensures
            r is Death,
            r.spec_ptype() == DEATH_PTYPE,
            r.spec_header() is None,
            r.spec_payload() is None,
    {
        ReqPacket::Death
    }

    pub open spec fn spec_ptype(&self) -> i8 {
        match self {
            ReqPacket::Request { .. } => REQUEST_PTYPE,
            ReqPacket::Death => DEATH_PTYPE,
        }
    }

    pub open spec fn spec_header(&self) -> Option<RequestHeader> {
        match self {
            ReqPacket::Request { rh, .. } => *rh,
            ReqPacket::Death => None,
        }
    }

    pub open spec fn spec_payload(&self) -> Option<bytes::BytesMut> {
        match self {
            ReqPacket::Request { req, .. } => Some(*req),
            ReqPacket::Death => None,
        }
    }

    #[verifier::when_used_as_spec(spec_ptype)]
    pub fn ptype(&self) -> (r: i8)
        ensures
            r == self.spec_ptype(),
    {
        match self {
            ReqPacket::Request { .. } => REQUEST_PTYPE,
            ReqPacket::Death => DEATH_PTYPE,
        }
    }

    pub fn header(&self) -> (r: Option<&RequestHeader>)
        ensures
            match r {
                Some(h) => self.spec_header() == Some(*h),
                None => self.spec_header() is None,
            },
    {
        match self {
            ReqPacket::Request { rh, .. } => rh.as_ref(),
            ReqPacket::Death => None,
        }
    }

    pub fn payload(&self) -> (r: Option<&bytes::BytesMut>)
        ensures
            match r {
                Some(p) => self.spec_payload() == Some(*p),
                None => self.spec_payload() is None,
            },
    {
        match self {
            ReqPacket::Request { req, .. } => Some(req),
            ReqPacket::Death => None,
        }
    }
}

/// How many packets at the front of `queue` the writer sends before it meets
/// the shutdown marker: every packet before the first marker, none after it.
pub fn packets_before_shutdown(queue: &Vec<ReqPacket>) -> (n: usize)
    ensures
        n <= queue@.len(),
        forall|i: int| 0 <= i < n ==> !(#[trigger] queue@[i] is Death),
        n < queue@.len() ==> queue@[n as int] is Death,
{
    let mut i: usize = 0;
    while i < queue.len()
        invariant
            i <= queue@.len(),
            forall|j: int| 0 <= j < i ==> !(#[trigger] queue@[j] is Death),
        decreases queue@.len() - i,
    {
        if queue[i].ptype() == DEATH_PTYPE {
            return i;
        }
        i = i + 1;
    }
    i
}

} // verus!
