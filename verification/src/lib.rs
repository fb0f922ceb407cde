//! Capability-binding and script-resolution core of a command launcher that
//! embeds a scripting runtime: resolving a named script across ordered
//! search tiers, registering a fixed set of native capability modules into
//! the guest's global namespace, and the shared-resource discipline around
//! an HTTP client reachable from guest code.
pub mod clipboard;
pub mod http;
pub mod paths;
pub mod pattern;
pub mod resolve;
pub mod session;
pub mod strings;
