//! A network-attached control client for a single actuator setpoint.
//!
//! The crate holds the decisions of the client and leaves every suspension
//! point (timers, radio, sockets, the actuator) to its caller: bytes come in,
//! actions come out.
//!
//! * [`device`]: the cached setpoint and its range.
//! * [`protocol`]: commands, responses and the dispatcher.
//! * [`wire`]: the JSON text of every message the client sends.
//! * [`framer`]: bounded line framing of the incoming byte stream.
//! * [`gate`]: the readiness test before the first session.
//! * [`session`]: the supervisor of the TCP session.
//! * [`link`]: the supervisor of the wireless link.

pub mod device;
pub mod protocol;
pub mod framer;
pub mod gate;
pub mod link;
pub mod session;
pub mod wire;

pub use device::{DeviceState, SETPOINT_MAX};
pub use framer::{Frame, LineFramer};
pub use link::{LinkAction, LinkEvent, LinkState, LinkSupervisor};
pub use protocol::{Command, IncomingCommand, Reaction, Rejection, Response};
pub use session::{SessionAction, SessionEvent, SessionState, TcpClient};
