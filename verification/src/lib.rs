//! Alyson: the verified core of a terminal TCP inspector.
//!
//! The library holds the wire framing, the handshake and routing rules of the
//! server, what server events become on the client side, and the state
//! machine of the terminal user interface. Sockets, the async runtime, the
//! binary codec and the drawing of the terminal stand around it.
pub mod client;
pub mod error;
pub mod network;
pub mod text;
pub mod types;
pub mod ui;

pub use error::{WireError, MIN_HEIGHT, MIN_WIDTH};
