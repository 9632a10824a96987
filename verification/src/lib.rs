//! The logic of a settings tool for the ISY IGM 5000 mouse.
//!
//! - [`settings`] is the 148-byte settings block, and [`profile`] states what
//!   editing it keeps.
//! - [`protocol`], [`descriptor`] and [`discovery`] are the vendor protocol: its
//!   frames and errors, the report descriptors, and which node to open.
//! - [`privilege`] decides what may be run to get access to the node.
//! - [`transport`] is the retry policy of the control channel.
//! - [`worker`] and [`session`] are what the device thread does for a command,
//!   [`session_laws`] states what holds of it, and [`session_runs`] what a whole
//!   command does step by step.
//! - [`device`] is the state behind the user interface, and [`device_laws`]
//!   states what holds of it.
//!
//! Nothing here does I/O: where something has to be read, sent or waited for, a
//! function says so and another one takes what came of it.
pub mod descriptor;
pub mod device;
pub mod device_laws;
pub mod discovery;
pub mod privilege;
pub mod profile;
pub mod protocol;
pub mod session;
pub mod session_laws;
pub mod session_runs;
pub mod settings;
pub mod text;
pub mod transport;
pub mod worker;
