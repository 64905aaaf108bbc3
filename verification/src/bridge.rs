//! The listener dispatch bridge: translates inbound client events into
//! invocations of a single externally supplied listener, and translates
//! the listener's outcome back into what the transport must send.
//!
//! The listener itself is host code the library never sees.  The bridge
//! therefore works in two verified halves around each invocation: routing
//! decides, from the advertised capability set and the registry, whether a
//! handler may run at all and with which arguments; completion takes
//! whatever the handler produced, a result or a failure, and computes the
//! responses and notifications owed to the clients.  A failure never
//! propagates past the completion: it degrades to a safe default and the
//! server keeps serving.
//!
//! All entries into handler code are serialized through the reentry gate,
//! modelled and proved exclusive at the end of this module.

use vstd::prelude::*;

use crate::capability::{Capability, CapabilitySet, EventKind};
use crate::registry::{
    channel_index, client_index, has_channel, has_client, ClientChannelView, ClientRegistry,
};
use crate::services::{has_service, Request, ServiceCallError, ServiceTable};
use crate::values::{find_inconsistent, params_consistent, Parameter};

verus! {

/// An inbound client event, as decoded by the transport.
#[derive(PartialEq, Debug)]
pub enum ClientEvent {
    /// A data message published on one of the client's advertised
    /// channels.
    MessageData {
        /// The id of the channel the client publishes on.
        channel_id: u32,
        /// The message payload.
        payload: Vec<u8>,
    },
    /// A request for the values of named parameters; an empty name list
    /// asks for all known parameters.
    GetParameters {
        /// The requested parameter names.
        names: Vec<String>,
        /// Correlation token to be echoed back, never interpreted.
        request_id: Option<String>,
    },
    /// A request to update parameters.
    SetParameters {
        /// The requested updates.
        parameters: Vec<Parameter>,
        /// Correlation token to be echoed back, never interpreted.
        request_id: Option<String>,
    },
    /// An invocation of a named service.
    ServiceCall {
        /// The decoded call.
        request: Request,
    },
}

impl ClientEvent {
    /// The kind of this event, which determines the required capability.
    pub open spec fn spec_kind(self) -> EventKind {
        match self {
            ClientEvent::MessageData { .. } => EventKind::MessageData,
            ClientEvent::GetParameters { .. } => EventKind::GetParameters,
            ClientEvent::SetParameters { .. } => EventKind::SetParameters,
            ClientEvent::ServiceCall { .. } => EventKind::ServiceCall,
        }
    }

    /// Executable form of [`Self::spec_kind`].
    pub fn kind(&self) -> (k: EventKind)
        ensures
            k == self.spec_kind(),
    {
        match self {
            ClientEvent::MessageData { .. } => EventKind::MessageData,
            ClientEvent::GetParameters { .. } => EventKind::GetParameters,
            ClientEvent::SetParameters { .. } => EventKind::SetParameters,
            ClientEvent::ServiceCall { .. } => EventKind::ServiceCall,
        }
    }
}

/// A protocol-legality rejection: reported to the offending client at the
/// point of the specific request, while the connection stays open.
#[derive(PartialEq, Debug)]
pub enum ProtocolError {
    /// The capability required for this event kind is not advertised.
    CapabilityAbsent {
        /// The kind of the rejected event.
        kind: EventKind,
        /// The capability that would have been required.
        missing: Capability,
    },
    /// A data message arrived for a channel the client never advertised.
    UnknownChannel {
        /// The unknown channel id.
        channel_id: u32,
    },
    /// A service call named a service that is not registered.
    ServiceNotFound {
        /// The call id of the rejected request, for correlation.
        call_id: u32,
    },
    /// A channel operation named a client that is not connected.
    UnknownClient {
        /// The unknown client id.
        client_id: u32,
    },
    /// An advertisement reused a channel id the client already holds.
    DuplicateChannel {
        /// The already-taken channel id.
        channel_id: u32,
    },
    /// A parameter in an inbound batch broke the type/value invariant: a
    /// `ByteArray`-typed parameter carried a non-`Bytes` value.
    InvalidParameter {
        /// The name of the offending parameter.
        name: String,
    },
}

/// What the worker owning an inbound event must do next.  The `Invoke`
/// variants are the only paths into handler code, and every one of them
/// must be entered through the reentry gate.
#[derive(PartialEq, Debug)]
pub enum Action {
    /// Invoke `on_message_data`: fire-and-forget, return value ignored.
    InvokeMessageData {
        /// The publishing client.
        client_id: u32,
        /// The resolved channel projection, passed by value.
        channel: ClientChannelView,
        /// The message payload.
        payload: Vec<u8>,
    },
    /// Invoke `on_get_parameters`; complete with
    /// [`complete_get_parameters`].
    InvokeGetParameters {
        /// The requesting client.
        client_id: u32,
        /// The requested names; empty means all known parameters.
        names: Vec<String>,
        /// Correlation token to echo in the response envelope.
        request_id: Option<String>,
    },
    /// Invoke `on_set_parameters`; complete with
    /// [`complete_set_parameters`].
    InvokeSetParameters {
        /// The requesting client.
        client_id: u32,
        /// The requested updates.
        parameters: Vec<Parameter>,
        /// Correlation token to echo in the response envelope.
        request_id: Option<String>,
    },
    /// Invoke the handler of the resolved service; complete with
    /// [`crate::services::complete_call`].
    InvokeService {
        /// The calling client.
        client_id: u32,
        /// Position of the resolved service in the service table.
        index: usize,
        /// The call to hand to the handler.
        request: Request,
    },
    /// Reject the event back to its client; no handler runs.
    Reject {
        /// Why the event was rejected.
        error: ProtocolError,
    },
}

impl Action {
    /// Whether this action enters handler code.
    pub open spec fn is_invoke(self) -> bool {
        match self {
            Action::Reject { .. } => false,
            _ => true,
        }
    }
}

/// Whether routing invokes a handler for this event in the given state:
/// the required capability is advertised and the event's target resolves.
/// Handler invocations over any batch of events are exactly its qualifying
/// events, each routed in receipt order.
pub open spec fn qualifies(
    caps: CapabilitySet,
    reg: Seq<crate::registry::ClientModel>,
    services: Seq<crate::services::Service>,
    client_id: u32,
    event: ClientEvent,
) -> bool {
    caps.spec_has(event.spec_kind().spec_required_capability()) && match event {
        ClientEvent::MessageData { channel_id, .. } => has_client(reg, client_id) && has_channel(
            reg[client_index(reg, client_id)],
            channel_id,
        ),
        ClientEvent::GetParameters { .. } => true,
        ClientEvent::SetParameters { parameters, .. } => params_consistent(parameters@),
        ClientEvent::ServiceCall { request } => has_service(services, request.service_name@),
    }
}

/// The whole contract of routing one event: the action enters handler
/// code exactly when the event qualifies; an absent capability means the
/// exact capability rejection; and with the capability present each event
/// kind resolves to the one action its case prescribes.
pub open spec fn routed_correctly(
    caps: CapabilitySet,
    reg: Seq<crate::registry::ClientModel>,
    services: Seq<crate::services::Service>,
    client_id: u32,
    event: ClientEvent,
    r: Action,
) -> bool {
    &&& r.is_invoke() == qualifies(caps, reg, services, client_id, event)
    &&& (!caps.spec_has(event.spec_kind().spec_required_capability()) ==> r == (Action::Reject {
        error: ProtocolError::CapabilityAbsent {
            kind: event.spec_kind(),
            missing: event.spec_kind().spec_required_capability(),
        },
    }))
    &&& (caps.spec_has(event.spec_kind().spec_required_capability()) ==> match event {
        ClientEvent::MessageData { channel_id, payload } => {
            if has_client(reg, client_id) && has_channel(
                reg[client_index(reg, client_id)],
                channel_id,
            ) {
                r matches Action::InvokeMessageData { client_id: c, channel, payload: p } && c
                    == client_id && p == payload && channel@ == reg[client_index(
                    reg,
                    client_id,
                )].channels[channel_index(reg[client_index(reg, client_id)], channel_id)]
            } else {
                r == (Action::Reject { error: ProtocolError::UnknownChannel { channel_id } })
            }
        },
        ClientEvent::GetParameters { names, request_id } => r == (Action::InvokeGetParameters {
            client_id,
            names,
            request_id,
        }),
        ClientEvent::SetParameters { parameters, request_id } => {
            if params_consistent(parameters@) {
                r == (Action::InvokeSetParameters { client_id, parameters, request_id })
            } else {
                r matches Action::Reject {
                    error: ProtocolError::InvalidParameter { name },
                } && exists|k: int|
                    0 <= k < parameters@.len() && !(#[trigger] parameters@[k]).spec_consistent()
                        && parameters@[k].name == name
            }
        },
        ClientEvent::ServiceCall { request } => {
            if has_service(services, request.service_name@) {
                r matches Action::InvokeService { client_id: c, index, request: q } && c
                    == client_id && q == request && index < services.len()
                    && services[index as int].name@ == request.service_name@
            } else {
                r == (Action::Reject {
                    error: ProtocolError::ServiceNotFound { call_id: request.call_id },
                })
            }
        },
    })
}

/// Routes one inbound event.  No handler is ever invoked for an event
/// kind whose required capability is absent: the event is rejected to the
/// client instead, and the connection stays open.  With the capability
/// present, a data message resolves its channel in the registry, a service
/// call resolves its service by name, a set-parameters batch is held to
/// the type/value invariant before any handler runs, and a get-parameters
/// request goes through unchanged.
pub fn route_event(
    caps: &CapabilitySet,
    registry: &ClientRegistry,
    services: &ServiceTable,
    client_id: u32,
    event: ClientEvent,
) -> (r: Action)
    requires
        registry.wf(),
    ensures
        r.is_invoke() == qualifies(*caps, registry@, services.services@, client_id, event),
        routed_correctly(*caps, registry@, services.services@, client_id, event, r),
{
    let kind = event.kind();
    if !caps.allows(kind) {
        return Action::Reject {
            error: ProtocolError::CapabilityAbsent {
                kind,
                missing: kind.required_capability(),
            },
        };
    }
    match event {
        ClientEvent::MessageData { channel_id, payload } => {
            match registry.channel_view(client_id, channel_id) {
                Some(channel) => Action::InvokeMessageData { client_id, channel, payload },
                None => Action::Reject {
                    error: ProtocolError::UnknownChannel { channel_id },
                },
            }
        },
        ClientEvent::GetParameters { names, request_id } => Action::InvokeGetParameters {
            client_id,
            names,
            request_id,
        },
        ClientEvent::SetParameters { parameters, request_id } => {
            match find_inconsistent(&parameters) {
                Some(i) => {
                    let name = parameters[i].name.clone();
                    proof {
                        assert(!(parameters@[i as int]).spec_consistent() && parameters@[i as int].name
                            == name);
                    }
                    Action::Reject { error: ProtocolError::InvalidParameter { name } }
                },
                None => Action::InvokeSetParameters { client_id, parameters, request_id },
            }
        },
        ClientEvent::ServiceCall { request } => {
            match services.route(&request) {
                Ok(index) => Action::InvokeService { client_id, index, request },
                Err(ServiceCallError::ServiceNotFound { call_id }) => Action::Reject {
                    error: ProtocolError::ServiceNotFound { call_id },
                },
                Err(ServiceCallError::HandlerFailed { call_id, .. }) => {
                    // Routing happens before any handler runs, so it can
                    // never report a handler failure.
                    proof {
                        assert(false);
                    }
                    Action::Reject { error: ProtocolError::ServiceNotFound { call_id } }
                },
            }
        },
    }
}

/// Routes a batch of inbound events against one registry and service
/// state, in receipt order.  One action comes back per event, at the
/// event's own position, routed exactly as [`route_event`] prescribes:
/// over any batch, handler invocations are the qualifying events with the
/// arguments their cases fix, observed in receipt order.
pub fn route_batch(
    caps: &CapabilitySet,
    registry: &ClientRegistry,
    services: &ServiceTable,
    events: Vec<(u32, ClientEvent)>,
) -> (r: Vec<Action>)
    requires
        registry.wf(),
    ensures
        r@.len() == events@.len(),
        forall|i: int|
            0 <= i < events@.len() ==> routed_correctly(
                *caps,
                registry@,
                services.services@,
                events@[i].0,
                events@[i].1,
                #[trigger] r@[i],
            ),
{
    let ghost evs = events@;
    let mut actions: Vec<Action> = Vec::new();
    // Events are taken from the front, so receipt order is kept.
    let mut rest = events;
    let mut i: usize = 0;
    let n = rest.len();
    while i < n
        invariant
            i <= n,
            n == evs.len(),
            rest@ == evs.subrange(i as int, n as int),
            registry.wf(),
            actions@.len() == i,
            forall|j: int|
                0 <= j < i ==> routed_correctly(
                    *caps,
                    registry@,
                    services.services@,
                    evs[j].0,
                    evs[j].1,
                    #[trigger] actions@[j],
                ),
        decreases n - i,
    {
        let (client_id, event) = rest.remove(0);
        proof {
            assert(evs.subrange(i as int, n as int)[0] == evs[i as int]);
            assert(rest@ =~= evs.subrange(i + 1, n as int));
        }
        let action = route_event(caps, registry, services, client_id, event);
        actions.push(action);
        i = i + 1;
    }
    actions
}

/// A parameter response envelope owed to the requesting client.
#[derive(PartialEq, Debug)]
pub struct ParameterResponse {
    /// The parameters handed back by the listener, empty after a failure.
    pub parameters: Vec<Parameter>,
    /// The correlation token of the request, echoed back uninterpreted.
    pub request_id: Option<String>,
}

/// Completes an `on_get_parameters` invocation.  A listener failure
/// degrades to an empty parameter sequence; the correlation token is
/// echoed back in either case, and nothing reaches past this point, so
/// the server keeps serving this client and the others.
pub fn complete_get_parameters(
    handler_result: Result<Vec<Parameter>, String>,
    request_id: Option<String>,
) -> (r: ParameterResponse)
    ensures
        r.request_id == request_id,
        match handler_result {
            Ok(parameters) => r.parameters == parameters,
            Err(_) => r.parameters@.len() == 0,
        },
{
    match handler_result {
        Ok(parameters) => ParameterResponse { parameters, request_id },
        Err(_) => ParameterResponse { parameters: Vec::new(), request_id },
    }
}

/// The connected ids other than `requester`, in registration order.
pub open spec fn others(ids: Seq<u32>, requester: u32) -> Seq<u32>
    decreases ids,
{
    if ids.len() == 0 {
        Seq::empty()
    } else {
        let rest = others(ids.drop_last(), requester);
        if ids.last() == requester {
            rest
        } else {
            rest.push(ids.last())
        }
    }
}

/// Membership in [`others`]: exactly the given ids, minus the requester.
pub proof fn lemma_others_members(ids: Seq<u32>, requester: u32, id: u32)
    ensures
        others(ids, requester).contains(id) <==> ids.contains(id) && id != requester,
    decreases ids,
{
    if ids.len() > 0 {
        lemma_others_members(ids.drop_last(), requester, id);
        if ids.last() == id && id != requester {
            assert(others(ids, requester).last() == id);
            assert(others(ids, requester).contains(id));
        }
        if others(ids.drop_last(), requester).contains(id) {
            let k = choose|k: int|
                0 <= k < others(ids.drop_last(), requester).len() && others(
                    ids.drop_last(),
                    requester,
                )[k] == id;
            assert(others(ids, requester)[k] == id);
        }
        if ids.contains(id) && id != requester && ids.last() != id {
            let k = choose|k: int| 0 <= k < ids.len() && ids[k] == id;
            assert(ids.drop_last()[k] == id);
            assert(ids.drop_last().contains(id));
        }
    }
}

/// Everything owed after an `on_set_parameters` invocation.
#[derive(PartialEq, Debug)]
pub struct SetParametersOutcome {
    /// The authoritative post-set state returned by the listener, empty
    /// after a failure.  Echoed to the requester and broadcast, as one and
    /// the same sequence, to every client in `notify`.
    pub values: Vec<Parameter>,
    /// The correlation token of the request, echoed to the requester.
    pub request_id: Option<String>,
    /// The change-notification recipients: every currently-connected
    /// client other than the requester, in registration order.
    pub notify: Vec<u32>,
}

/// Completes an `on_set_parameters` invocation.  The listener's returned
/// sequence is the authoritative post-set state: it is echoed to the
/// requester under the request's own correlation token and broadcast,
/// unchanged, to all other connected clients.  A listener failure degrades
/// to an empty sequence and the server keeps serving.
pub fn complete_set_parameters(
    requester: u32,
    registry: &ClientRegistry,
    handler_result: Result<Vec<Parameter>, String>,
    request_id: Option<String>,
) -> (r: SetParametersOutcome)
    ensures
        r.request_id == request_id,
        match handler_result {
            Ok(parameters) => r.values == parameters,
            Err(_) => r.values@.len() == 0,
        },
        r.notify@ == others(registry.spec_ids(), requester),
{
    let ids = registry.connected_ids();
    let mut notify: Vec<u32> = Vec::new();
    let mut i: usize = 0;
    while i < ids.len()
        invariant
            i <= ids.len(),
            ids@ == registry.spec_ids(),
            notify@ == others(ids@.subrange(0, i as int), requester),
        decreases ids.len() - i,
    {
        let ghost pre = ids@.subrange(0, i as int);
        if ids[i] != requester {
            notify.push(ids[i]);
        }
        proof {
            let cur = ids@.subrange(0, i + 1);
            assert(cur.drop_last() =~= pre);
            assert(cur.last() == ids@[i as int]);
        }
        i = i + 1;
    }
    proof {
        assert(ids@.subrange(0, ids@.len() as int) =~= ids@);
    }
    let values = match handler_result {
        Ok(parameters) => parameters,
        Err(_) => Vec::new(),
    };
    SetParametersOutcome { values, request_id, notify }
}

/// The reentry gate: the single lock that spans a callback invocation.
/// Only one worker may be executing inside external handler code at a
/// time; a worker enters before invoking and leaves after the handler
/// returns.  Blocking until entry is possible is the transport's duty; the
/// core's contract is that no entry ever succeeds while another worker is
/// inside.
pub struct ReentryGate {
    /// Whether some worker is currently inside handler code.
    pub engaged: bool,
}

impl ReentryGate {
    /// A gate with nobody inside.
    pub fn new() -> (g: ReentryGate)
        ensures
            !g.engaged,
    {
        ReentryGate { engaged: false }
    }

    /// Attempts to enter handler code.  Entry succeeds exactly when nobody
    /// is inside; afterwards somebody is, either way.
    pub fn try_enter(&mut self) -> (entered: bool)
        ensures
            entered == !old(self).engaged,
            final(self).engaged,
    {
        let entered = !self.engaged;
        self.engaged = true;
        entered
    }

    /// Leaves handler code, freeing entry for the next worker.
    pub fn leave(&mut self)
        requires
            old(self).engaged,
        ensures
            !final(self).engaged,
    {
        self.engaged = false;
    }
}

/// One step of a reentry-gate history.
#[derive(PartialEq, Eq, Structural)]
pub enum GateStep {
    /// A worker entered handler code.
    Enter,
    /// The worker inside handler code left it.
    Leave,
}

/// Replays a gate history from the free state.  `Some(engaged)` is the
/// state after the whole history; an illegal history, one that enters
/// while engaged or leaves while free, replays to `None`.
pub open spec fn gate_run(trace: Seq<GateStep>) -> Option<bool>
    decreases trace,
{
    if trace.len() == 0 {
        Some(false)
    } else {
        match gate_run(trace.drop_last()) {
            None => None,
            Some(engaged) => match trace.last() {
                GateStep::Enter => if engaged {
                    None
                } else {
                    Some(true)
                },
                GateStep::Leave => if engaged {
                    Some(false)
                } else {
                    None
                },
            },
        }
    }
}

/// Every prefix of a legal gate history is legal.
pub proof fn lemma_gate_prefix_legal(trace: Seq<GateStep>, m: int)
    requires
        gate_run(trace) is Some,
        0 <= m <= trace.len(),
    ensures
        gate_run(trace.subrange(0, m)) is Some,
    decreases trace.len(),
{
    if m == trace.len() {
        assert(trace.subrange(0, m) =~= trace);
    } else {
        assert(trace.drop_last().subrange(0, m) =~= trace.subrange(0, m));
        lemma_gate_prefix_legal(trace.drop_last(), m);
    }
}

/// Mutual exclusion of handler invocations: in any legal gate history,
/// between any two entries into handler code there is a leave.  Two
/// clients firing events concurrently therefore never produce two
/// simultaneous executions of handler code.
pub proof fn lemma_gate_exclusive(trace: Seq<GateStep>, i: int, j: int)
    requires
        gate_run(trace) is Some,
        0 <= i < j < trace.len(),
        trace[i] == GateStep::Enter,
        trace[j] == GateStep::Enter,
    ensures
        exists|k: int| i < k < j && trace[k] == GateStep::Leave,
{
    // The entry at j is legal, so nobody is inside just before j; the
    // entry at i engages it; the step just before j must therefore be the
    // leave that freed it.
    lemma_gate_prefix_legal(trace, j + 1);
    lemma_gate_prefix_legal(trace, j);
    let upto_j1 = trace.subrange(0, j + 1);
    assert(upto_j1.drop_last() =~= trace.subrange(0, j));
    assert(upto_j1.last() == trace[j]);
    // Entering at j is only legal from the free state.
    assert(gate_run(trace.subrange(0, j)) == Some(false));
    let upto_j = trace.subrange(0, j);
    assert(upto_j.drop_last() =~= trace.subrange(0, j - 1));
    assert(upto_j.last() == trace[j - 1]);
    match trace[j - 1] {
        GateStep::Enter => {
            // An entry replays to the engaged state, not the free one.
            assert(false);
        },
        GateStep::Leave => {
            // The leave that made the entry at j legal lies strictly after i,
            // because position i holds an entry.
            assert(i < j - 1 < j && trace[j - 1] == GateStep::Leave);
        },
    }
}

} // verus!
