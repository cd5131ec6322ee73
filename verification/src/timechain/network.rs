//! What a node knows of its peers.

use vstd::prelude::*;

verus! {

/// What is known of a peer (nothing yet).
pub struct PeerInfo {}

} // verus!
