//! Connection-offer exchange payloads, reduced to the identifiers the
//! core routes by.

use vstd::prelude::*;

verus! {

/// A connection offer from a dialing peer.
#[derive(Clone, Copy, Debug, PartialEq, Eq, Structural)]
pub struct Offer {
    pub sdp: u64,
}

/// The answer to a connection offer.
#[derive(Clone, Copy, Debug, PartialEq, Eq, Structural)]
pub struct Answer {
    pub sdp: u64,
}

} // verus!
