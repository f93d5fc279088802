//! Encoders and decoders for the messages of the Kafka wire protocol, each
//! specified against a view of the message and proved to read back what it
//! writes.
pub mod buffer;
pub mod codec;
pub mod error;
pub mod error_code;
pub mod ints;
pub mod messages;
pub mod strings;
pub mod tagged;
pub mod types;
pub mod varint;
pub mod wire;
