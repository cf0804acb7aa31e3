//! A typed, queryable, observable model of the kernel's device database.
//!
//! The library models the client side of a `udev`-style device subsystem:
//! a reference-counted root resource ([`Context`]), point lookups and a
//! record type for one device, a filtered enumeration session and a one-way
//! monitor state machine that turns delivered records into typed events.
//! The native device database itself is an external collaborator: an
//! embedding populates the model from it and performs the raw calls, while
//! every rule of the protocol — filter OR/AND semantics, scan ordering,
//! non-blocking receive, event-type derivation, device-number encoding and
//! the reference-counting discipline — is stated and proved here.

pub mod context;
pub mod device;
pub mod enumerator;
pub mod error;
pub mod handle;
pub mod monitor;
pub mod util;

pub use context::Context;
pub use device::{Attribute, Attributes, Device, DeviceKind, Properties, Property};
pub use enumerator::{Devices, Enumerator, Filter};
pub use error::{Error, ErrorKind};
pub use monitor::{Event, EventType, Monitor, MonitorFilter, MonitorSocket};
