//! Native-side support for a desktop UI: a persisted settings record, the
//! atomic protocol that writes it, and the decisions of an HTTP verb proxy
//! that forwards UI requests to a configured device.
pub mod codec;
pub mod persist;
pub mod proxy;
pub mod settings;
