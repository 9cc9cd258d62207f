//! The server process: its arguments and the approvals it waits on.
pub mod approval;
pub mod bootstrap;
pub mod inputs;
pub mod protocol;
pub mod sessions;
pub mod titles;
pub mod turn_stream;
pub mod turn_state;
