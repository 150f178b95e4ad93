//! The decisions of a bridge between a BLE UART device and a virtual serial port.
//!
//! Each part that works with the outside is written as a value that asks for one piece of
//! outside work at a time and goes on with the answer: [`scan`] finds the device, [`pty`] sets
//! up the port, [`relay`] passes bytes on, and [`session`] ties them together. [`uart`] chooses
//! the characteristics to use among those of [`gatt`].

pub mod error;
pub mod gatt;
pub mod pty;
pub mod pty_run;
pub mod relay;
pub mod relay_run;
pub mod scan;
pub mod scan_run;
pub mod session;
pub mod session_run;
pub mod text;
pub mod uart;
pub mod uuid_text;
