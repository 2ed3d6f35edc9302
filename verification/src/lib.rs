//! Payloads of the gateway protocol: one type for each operation a client and
//! a gateway exchange, with its constructors and its encoded form.

pub mod chars;
pub mod error;
pub mod laws;
pub mod payloads;
pub mod text;
pub mod value;

pub use error::DecodeError;
pub use payloads::declare;
pub use payloads::declare::Declare;
pub use payloads::declare::TrackFields;
pub use payloads::heartbeat;
pub use payloads::heartbeat::Heartbeat;
pub use payloads::hello;
pub use payloads::hello::Hello;
pub use payloads::op;
pub use payloads::op::OpCode;
pub use payloads::terminate;
pub use payloads::terminate::Closure;
pub use payloads::terminate::ClosureType;
pub use payloads::terminate::Terminate;
pub use value::Value;
