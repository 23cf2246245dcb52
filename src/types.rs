use vstd::prelude::*;

verus! {

/// Identity of a node, as seen by the core: an opaque key value.
pub type PublicKey = u64;

/// Identifier of a funds request.
pub type Uid = u64;

/// Whether a friend relationship is active.
#[derive(Clone, Copy, Debug, PartialEq, Eq, Structural)]
pub enum FriendStatus {
    Enabled,
    Disabled,
}

/// Whether a side of a channel accepts new funds requests.
#[derive(Clone, Copy, Debug, PartialEq, Eq, Structural)]
pub enum RequestsStatus {
    Open,
    Closed,
}

/// The command categories that an application connection may invoke.
#[derive(Clone, Copy, Debug, PartialEq, Eq, Structural)]
pub struct AppPermissions {
    /// Receives reports about state
    pub reports: bool,
    /// Can request routes
    pub routes: bool,
    /// Can send credits
    pub send_funds: bool,
    /// Can configure friends
    pub config: bool,
}

/// A node report mutation could not be applied.
#[derive(Clone, Copy, Debug, PartialEq, Eq, Structural)]
pub struct NodeReportMutateError;

/// Starts a secure channel without knowing the identity of the remote side
/// ahead of time, through the transform that it holds.
#[derive(Clone, Debug)]
pub struct AnonSecureChannel<ET> {
    pub encrypt_transform: ET,
}

impl<ET> AnonSecureChannel<ET> {
    pub fn new(encrypt_transform: ET) -> (r: Self)
        ensures
            r.encrypt_transform == encrypt_transform,
    {
        AnonSecureChannel { encrypt_transform }
    }
}

} // verus!
