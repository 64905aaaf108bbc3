//! The server session controller: lifecycle, session identity, and the
//! outbound broadcasts a running server owes its clients.
//!
//! The controller follows `Unstarted -> Running -> Stopped`, with `Stopped`
//! terminal and `stop` idempotent.  Binding the listening endpoint and
//! pushing frames down connections is transport work outside the library;
//! the functions here decide what a start, a stop, a session reset or a
//! broadcast means for the server's state and which clients must hear of
//! it.  The transport supplies the wall clock as plain milliseconds.

use vstd::prelude::*;

use crate::bridge::ProtocolError;
use crate::capability::{Capability, CapabilitySet, EventKind};
use crate::registry::{
    channel_index, client_index, has_channel, has_client, AdvertiseOutcome, ChannelModel,
    ClientModel, ClientRegistry,
};
use crate::services::{unique_service_names, ConfigError, Service, ServiceTable};
use crate::values::{find_inconsistent, params_consistent, Parameter, ParameterError};

verus! {

/// The opaque token clients use to detect server restarts and resets: a
/// change of session id tells every client to discard cached state.
#[derive(PartialEq, Debug)]
pub enum SessionId {
    /// An id supplied by configuration or by a reset request.
    Custom(String),
    /// An id derived from the wall clock, fresh across restarts within
    /// clock resolution.
    Generated {
        /// Wall-clock milliseconds at generation time.
        millis: u64,
        /// Distinguishes regenerations within one clock millisecond.
        seq: u64,
    },
}

/// Generates a session id from the clock that provably differs from the
/// current one, whatever the clock returned.
pub fn fresh_session_id(current: &SessionId, now_millis: u64) -> (r: SessionId)
    ensures
        r != *current,
        r matches SessionId::Generated { millis, seq } && (millis == now_millis || (*current
            matches SessionId::Generated { millis: m, .. } && millis == m)),
{
    match current {
        SessionId::Custom(_) => SessionId::Generated { millis: now_millis, seq: 0 },
        SessionId::Generated { millis, seq } => {
            if now_millis != *millis {
                SessionId::Generated { millis: now_millis, seq: 0 }
            } else if *seq == u64::MAX {
                SessionId::Generated { millis: *millis, seq: 0 }
            } else {
                SessionId::Generated { millis: *millis, seq: *seq + 1 }
            }
        },
    }
}

/// The lifecycle of a server.
#[derive(Clone, Copy, PartialEq, Eq, Structural, Debug)]
pub enum Lifecycle {
    /// Configured but not yet started.
    Unstarted,
    /// Serving; broadcasts reach connected clients.
    Running,
    /// Torn down; terminal.
    Stopped,
}

/// Startup configuration, consumed by [`start_server`].
pub struct ServerConfig {
    /// Optional server name advertised to clients.
    pub name: Option<String>,
    /// Session id to start under; when absent one is derived from the
    /// clock.
    pub session_id: Option<String>,
    /// The capability set to advertise, fixed for the server's lifetime.
    pub capabilities: CapabilitySet,
    /// The data encodings supported for client-side publishing.
    pub supported_encodings: Vec<String>,
    /// The services to expose, each validated for a unique name.
    pub services: Vec<Service>,
}

/// The protocol state of one server.
pub struct Server {
    /// Where the server stands in its lifecycle.
    pub lifecycle: Lifecycle,
    /// The current session id.
    pub session_id: SessionId,
    /// Optional server name.
    pub name: Option<String>,
    /// The advertised capability set; immutable after start.
    pub capabilities: CapabilitySet,
    /// The supported encodings; immutable after start.
    pub supported_encodings: Vec<String>,
    /// The registered services; immutable after start.
    pub services: ServiceTable,
    /// The connected clients and their channels.
    pub registry: ClientRegistry,
}

/// A session reset owed to the clients: each recipient must be told the
/// server's new session id and discard cached state.
#[derive(PartialEq, Debug)]
pub struct SessionResetNotice {
    /// All currently-connected clients, in registration order.
    pub recipients: Vec<u32>,
}

/// A best-effort time broadcast.
#[derive(PartialEq, Debug)]
pub struct TimeBroadcast {
    /// The timestamp to push, in nanoseconds.
    pub timestamp_nanos: u64,
    /// The clients the value goes to: all connected clients when the
    /// `Time` capability is advertised, nobody otherwise.
    pub recipients: Vec<u32>,
}

/// An unsolicited parameter-change notification.
#[derive(PartialEq, Debug)]
pub struct ParameterBroadcast {
    /// The parameter values to push.
    pub parameters: Vec<Parameter>,
    /// The clients the values go to: all connected clients of a running
    /// server.
    pub recipients: Vec<u32>,
}

/// Validates a startup configuration and brings the server to `Running`.
/// Accepted exactly when the configured service names are unique; a
/// supplied session id is taken as given, and a missing one is derived
/// from the wall-clock milliseconds, guaranteeing a fresh value across
/// restarts within clock resolution.  Binding the endpoint happens in the
/// transport after this returns; a bind failure is fatal there and no
/// server runs.
pub fn start_server(config: ServerConfig, now_millis: u64) -> (r: Result<Server, ConfigError>)
    ensures
        match r {
            Ok(s) => {
                &&& unique_service_names(config.services@)
                &&& s.wf()
                &&& s.lifecycle == Lifecycle::Running
                &&& s.session_id == (match config.session_id {
                    Some(id) => SessionId::Custom(id),
                    None => SessionId::Generated { millis: now_millis, seq: 0 },
                })
                &&& s.name == config.name
                &&& s.capabilities == config.capabilities
                &&& s.supported_encodings == config.supported_encodings
                &&& s.services.services == config.services
                &&& s.registry@.len() == 0
                &&& s.registry.next_id == 0
            },
            Err(e) => !unique_service_names(config.services@) && e matches
                ConfigError::DuplicateServiceName { .. },
        },
{
    let services = match ServiceTable::new(config.services) {
        Ok(t) => t,
        Err(e) => {
            return Err(e);
        },
    };
    let session_id = match config.session_id {
        Some(id) => SessionId::Custom(id),
        None => SessionId::Generated { millis: now_millis, seq: 0 },
    };
    Ok(
        Server {
            lifecycle: Lifecycle::Running,
            session_id,
            name: config.name,
            capabilities: config.capabilities,
            supported_encodings: config.supported_encodings,
            services,
            registry: ClientRegistry::new(),
        },
    )
}

impl Server {
    /// Well-formedness: the registry and the service table keep their
    /// invariants.
    pub open spec fn wf(self) -> bool {
        self.registry.wf() && self.services.wf()
    }

    /// Everything but the lifecycle and the registry: the configuration
    /// that is immutable once the server runs.
    pub open spec fn same_config(self, other: Server) -> bool {
        &&& self.session_id == other.session_id
        &&& self.name == other.name
        &&& self.capabilities == other.capabilities
        &&& self.supported_encodings == other.supported_encodings
        &&& self.services == other.services
    }

    /// Stops the server.  Idempotent: stopping an already-stopped server
    /// is a no-op, never an error.  Tearing down connections and joining
    /// the workers is transport work that follows this transition;
    /// in-flight callback invocations complete first.
    pub fn stop(&mut self)
        ensures
            final(self).lifecycle == Lifecycle::Stopped,
            final(self).same_config(*old(self)),
            final(self).registry == old(self).registry,
    {
        self.lifecycle = Lifecycle::Stopped;
    }

    /// Registers a new connection on a running server and assigns it a
    /// fresh id no currently-connected client holds.  The id bound is a
    /// machine limit of the `u32` id space.
    pub fn on_connect(&mut self) -> (id: u32)
        requires
            old(self).wf(),
            old(self).registry.next_id < u32::MAX,
        ensures
            final(self).wf(),
            !has_client(old(self).registry@, id),
            forall|i: int|
                0 <= i < old(self).registry@.len() ==> (#[trigger] old(self).registry@[i]).id
                    != id,
            final(self).registry@ == old(self).registry@.push(
                ClientModel { id, channels: Seq::empty() },
            ),
            final(self).registry.next_id == old(self).registry.next_id + 1,
            final(self).same_config(*old(self)),
            final(self).lifecycle == old(self).lifecycle,
    {
        self.registry.register()
    }

    /// Releases a disconnected client's id and all its channels.
    pub fn on_disconnect(&mut self, id: u32) -> (was_connected: bool)
        requires
            old(self).wf(),
        ensures
            final(self).wf(),
            final(self).registry.next_id == old(self).registry.next_id,
            !has_client(final(self).registry@, id),
            was_connected == has_client(old(self).registry@, id),
            was_connected ==> final(self).registry@ == old(self).registry@.remove(
                client_index(old(self).registry@, id),
            ),
            !was_connected ==> final(self).registry@ == old(self).registry@,
            final(self).same_config(*old(self)),
            final(self).lifecycle == old(self).lifecycle,
    {
        self.registry.unregister(id)
    }

    /// Handles a channel advertisement.  Without the `ClientPublish`
    /// capability the advertisement is rejected with a protocol error
    /// signaled back to the client, the connection stays open and no state
    /// changes; with it, the registry records the channel unless the id is
    /// already taken or the client unknown.
    pub fn handle_advertise(&mut self, client_id: u32, channel_id: u32, topic: String) -> (r:
        Result<(), ProtocolError>)
        requires
            old(self).wf(),
        ensures
            final(self).wf(),
            final(self).same_config(*old(self)),
            final(self).lifecycle == old(self).lifecycle,
            !old(self).capabilities.spec_has(Capability::ClientPublish) ==> r == Err::<
                (),
                ProtocolError,
            >(
                ProtocolError::CapabilityAbsent {
                    kind: EventKind::Advertise,
                    missing: Capability::ClientPublish,
                },
            ) && final(self).registry@ == old(self).registry@,
            old(self).capabilities.spec_has(Capability::ClientPublish) ==> {
                let reg = old(self).registry@;
                if !has_client(reg, client_id) {
                    r == Err::<(), ProtocolError>(ProtocolError::UnknownClient { client_id })
                        && final(self).registry@ == reg
                } else if has_channel(reg[client_index(reg, client_id)], channel_id) {
                    r == Err::<(), ProtocolError>(ProtocolError::DuplicateChannel { channel_id })
                        && final(self).registry@ == reg
                } else {
                    r == Ok::<(), ProtocolError>(()) && final(self).registry@ == reg.update(
                        client_index(reg, client_id),
                        ClientModel {
                            id: client_id,
                            channels: reg[client_index(reg, client_id)].channels.push(
                                ChannelModel { id: channel_id, topic: topic@ },
                            ),
                        },
                    )
                }
            },
    {
        if !self.capabilities.has(Capability::ClientPublish) {
            return Err(
                ProtocolError::CapabilityAbsent {
                    kind: EventKind::Advertise,
                    missing: Capability::ClientPublish,
                },
            );
        }
        match self.registry.advertise_channel(client_id, channel_id, topic) {
            AdvertiseOutcome::Accepted => Ok(()),
            AdvertiseOutcome::DuplicateChannel => Err(
                ProtocolError::DuplicateChannel { channel_id },
            ),
            AdvertiseOutcome::UnknownClient => Err(ProtocolError::UnknownClient { client_id }),
        }
    }

    /// Handles a channel withdrawal, under the same capability gate as an
    /// advertisement.  Withdrawing an unknown channel is ignored.
    pub fn handle_unadvertise(&mut self, client_id: u32, channel_id: u32) -> (r: Result<
        bool,
        ProtocolError,
    >)
        requires
            old(self).wf(),
        ensures
            final(self).wf(),
            final(self).same_config(*old(self)),
            final(self).lifecycle == old(self).lifecycle,
            !old(self).capabilities.spec_has(Capability::ClientPublish) ==> r == Err::<
                bool,
                ProtocolError,
            >(
                ProtocolError::CapabilityAbsent {
                    kind: EventKind::Unadvertise,
                    missing: Capability::ClientPublish,
                },
            ) && final(self).registry@ == old(self).registry@,
            old(self).capabilities.spec_has(Capability::ClientPublish) ==> {
                let reg = old(self).registry@;
                let removed = has_client(reg, client_id) && has_channel(
                    reg[client_index(reg, client_id)],
                    channel_id,
                );
                r == Ok::<bool, ProtocolError>(removed) && if removed {
                    final(self).registry@ == reg.update(
                        client_index(reg, client_id),
                        ClientModel {
                            id: client_id,
                            channels: reg[client_index(reg, client_id)].channels.remove(
                                channel_index(reg[client_index(reg, client_id)], channel_id),
                            ),
                        },
                    )
                } else {
                    final(self).registry@ == reg
                }
            },
    {
        if !self.capabilities.has(Capability::ClientPublish) {
            return Err(
                ProtocolError::CapabilityAbsent {
                    kind: EventKind::Unadvertise,
                    missing: Capability::ClientPublish,
                },
            );
        }
        Ok(self.registry.withdraw_channel(client_id, channel_id))
    }

    /// Resets the session.  On a running server the id is replaced, by the
    /// supplied one or by a clock-derived id guaranteed to differ from the
    /// current one, and every connected client must be notified so it
    /// discards cached state.  On a server that is not running this is a
    /// no-op.
    pub fn clear_session(&mut self, session_id: Option<String>, now_millis: u64) -> (notice:
        Option<SessionResetNotice>)
        requires
            old(self).wf(),
        ensures
            final(self).wf(),
            final(self).lifecycle == old(self).lifecycle,
            final(self).registry == old(self).registry,
            final(self).name == old(self).name,
            final(self).capabilities == old(self).capabilities,
            final(self).supported_encodings == old(self).supported_encodings,
            final(self).services == old(self).services,
            old(self).lifecycle != Lifecycle::Running ==> final(self).session_id == old(
                self,
            ).session_id && notice is None,
            old(self).lifecycle == Lifecycle::Running ==> {
                &&& match session_id {
                    Some(id) => final(self).session_id == SessionId::Custom(id),
                    None => ({
                        &&& final(self).session_id != old(self).session_id
                        &&& (final(self).session_id matches SessionId::Generated { millis, .. }
                            && (millis == now_millis || (old(self).session_id
                            matches SessionId::Generated { millis: m, .. } && millis == m)))
                    }),
                }
                &&& notice matches Some(n) && n.recipients@ == old(self).registry.spec_ids()
            },
    {
        match self.lifecycle {
            Lifecycle::Running => {
                let new_id = match session_id {
                    Some(id) => SessionId::Custom(id),
                    None => fresh_session_id(&self.session_id, now_millis),
                };
                self.session_id = new_id;
                Some(SessionResetNotice { recipients: self.registry.connected_ids() })
            },
            _ => None,
        }
    }

    /// Computes a time broadcast.  Never rejected: with the `Time`
    /// capability advertised on a running server the value goes to every
    /// connected client, otherwise to nobody, and the call is a no-op.
    pub fn broadcast_time(&self, timestamp_nanos: u64) -> (b: TimeBroadcast)
        ensures
            b.timestamp_nanos == timestamp_nanos,
            self.lifecycle == Lifecycle::Running && self.capabilities.spec_has(Capability::Time)
                ==> b.recipients@ == self.registry.spec_ids(),
            !(self.lifecycle == Lifecycle::Running && self.capabilities.spec_has(Capability::Time))
                ==> b.recipients@.len() == 0,
    {
        let running = match self.lifecycle {
            Lifecycle::Running => true,
            _ => false,
        };
        if running && self.capabilities.has(Capability::Time) {
            TimeBroadcast { timestamp_nanos, recipients: self.registry.connected_ids() }
        } else {
            TimeBroadcast { timestamp_nanos, recipients: Vec::new() }
        }
    }

    /// Computes an unsolicited parameter-change notification: on a running
    /// server the values go to every connected client.  The type/value
    /// invariant is enforced at this boundary: a batch holding a
    /// `ByteArray`-typed parameter with a non-`Bytes` value is rejected
    /// whole, and nothing is broadcast.
    pub fn publish_parameter_values(&self, parameters: Vec<Parameter>) -> (r: Result<
        ParameterBroadcast,
        ParameterError,
    >)
        ensures
            match r {
                Ok(b) => {
                    &&& params_consistent(parameters@)
                    &&& b.parameters == parameters
                    &&& self.lifecycle == Lifecycle::Running ==> b.recipients@
                        == self.registry.spec_ids()
                    &&& self.lifecycle != Lifecycle::Running ==> b.recipients@.len() == 0
                },
                Err(e) => {
                    &&& !params_consistent(parameters@)
                    &&& (e matches ParameterError::ByteArrayValueMismatch { name } && exists|k: int|
                        0 <= k < parameters@.len() && !(#[trigger] parameters@[k]).spec_consistent()
                            && parameters@[k].name == name)
                },
            },
    {
        match find_inconsistent(&parameters) {
            Some(i) => {
                let name = parameters[i].name.clone();
                proof {
                    assert(!(parameters@[i as int]).spec_consistent() && parameters@[i as int].name
                        == name);
                }
                Err(ParameterError::ByteArrayValueMismatch { name })
            },
            None => match self.lifecycle {
                Lifecycle::Running => Ok(
                    ParameterBroadcast {
                        parameters,
                        recipients: self.registry.connected_ids(),
                    },
                ),
                _ => Ok(ParameterBroadcast { parameters, recipients: Vec::new() }),
            },
        }
    }
}

} // verus!
