//! The service dispatcher: named, schema-described request/response
//! endpoints exposed to clients.
//!
//! The service table is configured once at server start, validated for
//! unique names, and immutable afterwards.  The handler attached to a
//! service is host code outside the library; the dispatcher resolves the
//! service by name before any handler runs, and afterwards turns the
//! handler's outcome into a response or a call-scoped error, correlated to
//! the originating call id in either case.  Schemas are advertised to
//! clients for their own encoding and decoding and deliberately not
//! re-validated server-side.

use vstd::prelude::*;

verus! {

/// An opaque, encoding-tagged schema descriptor.  Immutable once
/// constructed.
#[derive(PartialEq, Debug)]
pub struct Schema {
    /// Schema name.
    pub name: String,
    /// The schema language the bytes are written in.
    pub encoding: String,
    /// The schema text itself, opaque to the core.
    pub data: Vec<u8>,
}

/// A wire encoding paired with the schema describing payloads of that
/// encoding.
#[derive(PartialEq, Debug)]
pub struct MessageSchema {
    /// The wire encoding of payloads.
    pub encoding: String,
    /// The schema describing such payloads.
    pub schema: Schema,
}

/// The request/response shape of one service.  A missing request schema
/// means the service imposes no structural contract on request payloads;
/// likewise for the response.
#[derive(PartialEq, Debug)]
pub struct ServiceSchema {
    /// Service schema name.
    pub name: String,
    /// Schema of request payloads, if any.
    pub request: Option<MessageSchema>,
    /// Schema of response payloads, if any.
    pub response: Option<MessageSchema>,
}

/// A named RPC endpoint.  The callable that serves it is host code outside
/// the library; the core routes to it by name and never inspects it.
#[derive(PartialEq, Debug)]
pub struct Service {
    /// Service name, unique among registered services.
    pub name: String,
    /// The advertised request/response schema.
    pub schema: ServiceSchema,
}

/// A transient inbound service call, constructed on receipt and discarded
/// after the response or error.
#[derive(PartialEq, Debug)]
pub struct Request {
    /// Name of the service being called.
    pub service_name: String,
    /// Correlation id, unique per in-flight call from a given client.
    pub call_id: u32,
    /// Encoding of the request payload.
    pub encoding: String,
    /// The request payload.
    pub payload: Vec<u8>,
}

/// A correlated response to a service call.
#[derive(PartialEq, Debug)]
pub struct ServiceResponse {
    /// The call id of the originating request.
    pub call_id: u32,
    /// The response payload produced by the handler.
    pub payload: Vec<u8>,
}

/// A call-scoped failure reported to the calling client, never fatal to
/// the server.
#[derive(PartialEq, Debug)]
pub enum ServiceCallError {
    /// No registered service bears the requested name; reported before any
    /// handler is invoked.
    ServiceNotFound {
        /// The call id of the originating request.
        call_id: u32,
    },
    /// The handler failed; the failure is degraded to a correlated error
    /// response.
    HandlerFailed {
        /// The call id of the originating request.
        call_id: u32,
        /// Description of the recorded failure.
        message: String,
    },
}

/// Rejection of a startup configuration.
#[derive(PartialEq, Debug)]
pub enum ConfigError {
    /// Two configured services share a name.
    DuplicateServiceName {
        /// The name borne by more than one service.
        name: String,
    },
}

/// Pairwise distinctness of the configured service names.
pub open spec fn unique_service_names(s: Seq<Service>) -> bool {
    forall|i: int, j: int| 0 <= i < j < s.len() ==> s[i].name@ != s[j].name@
}

/// Whether some service in the table bears `name`.
pub open spec fn has_service(s: Seq<Service>, name: Seq<char>) -> bool {
    exists|i: int| 0 <= i < s.len() && s[i].name@ == name
}

/// Index of the service named `name`, meaningful only when one exists.
pub open spec fn service_index(s: Seq<Service>, name: Seq<char>) -> int {
    choose|i: int| 0 <= i < s.len() && s[i].name@ == name
}

/// The immutable table of registered services, fixed at server start.
pub struct ServiceTable {
    /// The registered services, in configuration order.
    pub services: Vec<Service>,
}

impl ServiceTable {
    /// Well-formedness: no two services share a name.
    pub open spec fn wf(self) -> bool {
        unique_service_names(self.services@)
    }

    /// Validates a caller-supplied service list at configuration time.
    /// Accepted exactly when every name is distinct; a duplicate name is
    /// rejected and reported.
    pub fn new(services: Vec<Service>) -> (r: Result<ServiceTable, ConfigError>)
        ensures
            match r {
                Ok(t) => unique_service_names(services@) && t.services == services && t.wf(),
                Err(ConfigError::DuplicateServiceName { name }) => !unique_service_names(services@)
                    && exists|a: int, b: int|
                    0 <= a < b < services@.len() && services@[a].name@ == services@[b].name@
                        && services@[b].name@ == name@,
            },
    {
        let n = services.len();
        let mut i: usize = 1;
        while i < n
            invariant
                n == services@.len(),
                forall|a: int, b: int| 0 <= a < b < i ==> services@[a].name@ != services@[b].name@,
            decreases n - i,
        {
            let mut j: usize = 0;
            while j < i
                invariant
                    j <= i < n == services@.len(),
                    forall|a: int|
                        0 <= a < j ==> (#[trigger] services@[a]).name@
                            != services@[i as int].name@,
                decreases i - j,
            {
                if services[j].name == services[i].name {
                    let name = services[i].name.clone();
                    proof {
                        assert(services@[j as int].name@ == services@[i as int].name@);
                    }
                    return Err(ConfigError::DuplicateServiceName { name });
                }
                j = j + 1;
            }
            i = i + 1;
        }
        Ok(ServiceTable { services })
    }

    /// Resolves a service name to its table position.
    pub fn find(&self, name: &String) -> (r: Option<usize>)
        ensures
            match r {
                Some(i) => i < self.services@.len() && self.services@[i as int].name@ == name@,
                None => !has_service(self.services@, name@),
            },
    {
        let mut i: usize = 0;
        while i < self.services.len()
            invariant
                i <= self.services.len(),
                forall|j: int| 0 <= j < i ==> (#[trigger] self.services@[j]).name@ != name@,
            decreases self.services.len() - i,
        {
            if self.services[i].name == *name {
                return Some(i);
            }
            i = i + 1;
        }
        None
    }

    /// Routes an inbound call to the service it names.  An unknown service
    /// name is rejected before any handler is invoked, with a distinct
    /// "service not found" error correlated to the call id.
    pub fn route(&self, request: &Request) -> (r: Result<usize, ServiceCallError>)
        ensures
            match r {
                Ok(i) => has_service(self.services@, request.service_name@) && i
                    < self.services@.len() && self.services@[i as int].name@
                    == request.service_name@,
                Err(e) => !has_service(self.services@, request.service_name@) && e
                    == (ServiceCallError::ServiceNotFound { call_id: request.call_id }),
            },
    {
        match self.find(&request.service_name) {
            Some(i) => {
                proof {
                    assert(has_service(self.services@, request.service_name@)) by {
                        assert(self.services@[i as int].name@ == request.service_name@);
                    }
                }
                Ok(i)
            },
            None => Err(ServiceCallError::ServiceNotFound { call_id: request.call_id }),
        }
    }
}

/// Turns a handler outcome into the transport-bound result of a call.  A
/// returned byte sequence becomes the response payload; a handler failure
/// is propagated to the caller as a correlated call-scoped error rather
/// than silence, so the originating client always hears back.
pub fn complete_call(call_id: u32, handler_result: Result<Vec<u8>, String>) -> (r: Result<
    ServiceResponse,
    ServiceCallError,
>)
    ensures
        match handler_result {
            Ok(payload) => r == Ok::<ServiceResponse, ServiceCallError>(
                ServiceResponse { call_id, payload },
            ),
            Err(message) => r == Err::<ServiceResponse, ServiceCallError>(
                ServiceCallError::HandlerFailed { call_id, message },
            ),
        },
{
    match handler_result {
        Ok(payload) => Ok(ServiceResponse { call_id, payload }),
        Err(message) => Err(ServiceCallError::HandlerFailed { call_id, message }),
    }
}

} // verus!
