//! Decision logic for probes that tell whether a process or host shows the
//! marks that debuggers, sandboxes and analysis tools leave behind.
//!
//! The host program performs the operating-system calls and hands their
//! plain results to the functions of this library, which decide.

pub mod exception;
pub mod hooks;
pub mod introspect;
pub mod matchers;
pub mod names;
pub mod registry;
pub mod snapshot;
pub mod wide;
