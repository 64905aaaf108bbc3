//! Capability negotiation: the fixed set of optional protocol features a
//! server advertises at startup, and the membership test that every
//! inbound client event must pass before it is honored.

use vstd::prelude::*;

verus! {

/// An optional protocol feature that the server advertises to clients.
/// The advertised set is fixed at server start and never changes for the
/// lifetime of the server; it is the single source of truth for which
/// inbound message kinds are legal.
#[derive(Clone, Copy, PartialEq, Eq, Structural, Debug)]
pub enum Capability {
    /// Clients may advertise channels and send data messages to the server.
    ClientPublish,
    /// Clients may get and set parameters.
    Parameters,
    /// The server publishes its authoritative time to clients.
    Time,
    /// Clients may invoke remote services exposed by the server.
    Services,
}

/// The kind of an inbound client event, used to look up the capability
/// that must have been advertised before the event is honored.
#[derive(Clone, Copy, PartialEq, Eq, Structural, Debug)]
pub enum EventKind {
    /// A data message published by a client on one of its channels.
    MessageData,
    /// A client advertises a new channel.
    Advertise,
    /// A client withdraws a previously advertised channel.
    Unadvertise,
    /// A client asks for the values of named parameters.
    GetParameters,
    /// A client asks to update parameters.
    SetParameters,
    /// A client invokes a named service.
    ServiceCall,
}

impl EventKind {
    /// The capability a client must have been granted for an event of this
    /// kind to reach a handler.  No capability implies another.
    pub open spec fn spec_required_capability(self) -> Capability {
        match self {
            EventKind::MessageData => Capability::ClientPublish,
            EventKind::Advertise => Capability::ClientPublish,
            EventKind::Unadvertise => Capability::ClientPublish,
            EventKind::GetParameters => Capability::Parameters,
            EventKind::SetParameters => Capability::Parameters,
            EventKind::ServiceCall => Capability::Services,
        }
    }

    /// Executable form of [`Self::spec_required_capability`].
    pub fn required_capability(self) -> (c: Capability)
        ensures
            c == self.spec_required_capability(),
    {
        match self {
            EventKind::MessageData => Capability::ClientPublish,
            EventKind::Advertise => Capability::ClientPublish,
            EventKind::Unadvertise => Capability::ClientPublish,
            EventKind::GetParameters => Capability::Parameters,
            EventKind::SetParameters => Capability::Parameters,
            EventKind::ServiceCall => Capability::Services,
        }
    }
}

/// The set of capabilities advertised by a server, represented as one
/// membership flag per member of the closed [`Capability`] enumeration.
#[derive(Clone, Copy, PartialEq, Eq, Structural, Debug)]
pub struct CapabilitySet {
    /// Membership flag for [`Capability::ClientPublish`].
    pub client_publish: bool,
    /// Membership flag for [`Capability::Parameters`].
    pub parameters: bool,
    /// Membership flag for [`Capability::Time`].
    pub time: bool,
    /// Membership flag for [`Capability::Services`].
    pub services: bool,
}

impl CapabilitySet {
    /// Membership test on the advertised set.
    pub open spec fn spec_has(self, c: Capability) -> bool {
        match c {
            Capability::ClientPublish => self.client_publish,
            Capability::Parameters => self.parameters,
            Capability::Time => self.time,
            Capability::Services => self.services,
        }
    }

    /// The empty capability set: the server still accepts connections, but
    /// every event kind that requires a capability is rejected.
    pub fn none() -> (s: CapabilitySet)
        ensures
            forall|c: Capability| !s.spec_has(c),
    {
        CapabilitySet { client_publish: false, parameters: false, time: false, services: false }
    }

    /// Builds the advertised set from the startup configuration list.
    /// A capability is a member of the result exactly when it occurs in the
    /// list; duplicates and order are irrelevant.
    pub fn from_list(caps: &Vec<Capability>) -> (s: CapabilitySet)
        ensures
            forall|c: Capability| s.spec_has(c) <==> caps@.contains(c),
    {
        let mut s = CapabilitySet::none();
        let mut i: usize = 0;
        while i < caps.len()
            invariant
                i <= caps.len(),
                forall|c: Capability|
                    s.spec_has(c) <==> exists|j: int| 0 <= j < i && caps@[j] == c,
            decreases caps.len() - i,
        {
            let c = caps[i];
            let ghost s0 = s;
            match c {
                Capability::ClientPublish => {
                    s.client_publish = true;
                },
                Capability::Parameters => {
                    s.parameters = true;
                },
                Capability::Time => {
                    s.time = true;
                },
                Capability::Services => {
                    s.services = true;
                },
            }
            proof {
                assert forall|d: Capability|
                    s.spec_has(d) implies exists|j: int| 0 <= j < i + 1 && caps@[j] == d by {
                    if s0.spec_has(d) {
                        let j = choose|j: int| 0 <= j < i && caps@[j] == d;
                        assert(0 <= j < i + 1 && caps@[j] == d);
                    } else {
                        assert(d == c);
                        assert(caps@[i as int] == d);
                    }
                }
                assert forall|d: Capability|
                    (exists|j: int| 0 <= j < i + 1 && caps@[j] == d) implies s.spec_has(d) by {
                    let j = choose|j: int| 0 <= j < i + 1 && caps@[j] == d;
                    if j < i {
                        assert(s0.spec_has(d));
                    } else {
                        assert(d == c);
                    }
                }
            }
            i = i + 1;
        }
        s
    }

    /// Membership test used by every component before honoring an inbound
    /// protocol message of a gated kind.
    pub fn has(&self, c: Capability) -> (r: bool)
        ensures
            r == self.spec_has(c),
    {
        match c {
            Capability::ClientPublish => self.client_publish,
            Capability::Parameters => self.parameters,
            Capability::Time => self.time,
            Capability::Services => self.services,
        }
    }

    /// Gate test for a whole event kind.
    pub fn allows(&self, kind: EventKind) -> (r: bool)
        ensures
            r == self.spec_has(kind.spec_required_capability()),
    {
        self.has(kind.required_capability())
    }
}

} // verus!
