//! Streams that arrive as IEC 60870-5-104 application service data units.
//! One ASDU is one Stream: the APCI around it carries the sequence numbers
//! and is the transport's, the ASDU inside (type, cause, addresses, objects)
//! is a contract's.
//!
//! IEC 104 is the grid's telecontrol protocol: substations report and take
//! commands from control centres, over TCP on port 2404. The controlled
//! station listens; the controlling station connects, says STARTDT, and
//! information frames flow, each acknowledged by sequence number. Both ends
//! are here: [`Station`] and [`Controller`].
//!
//! What is here is the APCI, the start, stop and test commands, and I frames
//! acknowledged one at a time. No socket is: a connection is what comes in,
//! a slice that what is read is taken off, and what goes out, a vector that
//! what is written is put behind. For a connection that is still open, the
//! same decisions are had one at a time, from [`apci::Reading::step`],
//! [`Station::on_apdu`] and [`Controller::on_apdu`].
//!
//! The origin URI carries what the APCI knew: `iec104://peer?send=5`.

pub mod apci;
pub mod controller;
pub mod controller_laws;
pub mod error;
pub mod laws;
pub mod station;
pub mod station_laws;
pub mod text;
pub mod transport;
pub mod wire_laws;

pub use apci::{Apdu, MAX_ASDU};
pub use controller::Controller;
pub use error::Error;
pub use station::{Arrived, Station};
pub use transport::Iec104Transport;
