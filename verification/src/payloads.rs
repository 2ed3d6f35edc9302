//! The operations of the protocol and the payload each one carries.

pub mod declare;
pub mod heartbeat;
pub mod hello;
pub mod op;
pub mod terminate;
