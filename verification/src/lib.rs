//! Protocol core of a visualization telemetry server.
//!
//! The library models and verifies the control plane of a websocket-based
//! telemetry server: the capability set negotiated at startup, the registry
//! of connected clients and their advertised channels, the dispatch of
//! inbound client events to a single externally supplied listener, the
//! routing of named service calls, the session lifecycle, and the recursive
//! parameter value model with a byte codec.  Transport I/O, the websocket
//! framing and the host-language callback objects live outside the library;
//! they hand plain values in and take plain values back.

pub mod bridge;
pub mod capability;
pub mod codec;
pub mod registry;
pub mod services;
pub mod session;
pub mod values;
