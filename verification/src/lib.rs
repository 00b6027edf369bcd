//! A runtime for single-process nodes in a scripted distributed-systems
//! harness: nodes receive JSON messages line by line on standard input and
//! emit correlated JSON replies on standard output.
//!
//! The library holds the verified core: the message envelope and its
//! correlation discipline, the identity handshake, the handlers' state
//! transitions, and the exact framing of each outbound line.

pub mod broadcast;
pub mod codec;
pub mod echo;
pub mod generate;
pub mod json;
pub mod protocol;
pub mod runs;

pub use protocol::Body;
pub use protocol::Node;
pub use protocol::Init;
pub use protocol::InitPayload;
pub use protocol::Message;
