//! Identifiers of the runtime's registries: components, peers and
//! instances.

use vstd::prelude::*;
use vstd::string::StringExecFns;
use crate::text::{decimal, decimal_string};

verus! {

/// Strong type for component identifiers.
#[derive(Copy, Clone, Debug, Hash, PartialEq, Eq, Structural)]
pub struct ComponentId(pub u64);

/// Strong type for peer identifiers.
///
/// A stable logical identity for a remote peer, independent of network
/// address or transport protocol.
#[derive(Copy, Clone, Debug, Hash, PartialEq, Eq, Structural)]
pub struct PeerId(pub u64);

/// Strong type for instance identifiers.
#[derive(Copy, Clone, Debug, Hash, PartialEq, Eq, Structural)]
pub struct InstanceId(pub u64);

/// A handle to the resources needed to bind a remote target: a peer,
/// resolved when a call is made, and the target on that peer.
#[derive(Clone, Debug)]
pub struct PeerInstance {
    pub peer_id: PeerId,
    pub target_id: String,
}

/// A remote target for linking an interface: a peer and the target on it.
pub struct RemoteTarget {
    pub peer_id: PeerId,
    pub target_id: String,
}

impl ComponentId {
    /// The display form of the identifier: `component-` and its number.
    pub fn to_string(&self) -> (s: String)
        ensures
            s@ == "component-"@ + decimal(self.0 as nat),
    {
        let digits = decimal_string(self.0);
        String::from_str("component-").concat(digits.as_str())
    }
}

impl InstanceId {
    /// The display form of the identifier: `instance-` and its number.
    pub fn to_string(&self) -> (s: String)
        ensures
            s@ == "instance-"@ + decimal(self.0 as nat),
    {
        let digits = decimal_string(self.0);
        String::from_str("instance-").concat(digits.as_str())
    }
}

impl PeerId {
    /// The display form of the identifier: `peer-` and its number.
    pub fn to_string(&self) -> (s: String)
        ensures
            s@ == "peer-"@ + decimal(self.0 as nat),
    {
        let digits = decimal_string(self.0);
        String::from_str("peer-").concat(digits.as_str())
    }

    /// The handle of a target on this peer.
    pub fn get_instance(&self, target_id: String) -> (r: PeerInstance)
        ensures
            r.peer_id == *self,
            r.target_id@ == target_id@,
    {
        PeerInstance { peer_id: *self, target_id }
    }
}

} // verus!
