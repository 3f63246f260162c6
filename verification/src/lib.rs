//! A debug probe: CMSIS-DAP over SWD, a UART bridge, a scan of the target while no host is
//! there, and a display of what it found.
//!
//! The library decides; it touches no hardware. Whoever runs it performs the wire
//! operations, transfers and drawings that it asks for and hands back what came of them.
//!
//! - [`dap`]: the commands of the host, SWD transfers, detection of the target.
//! - [`probe`]: the bit level of the SWD port.
//! - [`scan`], [`wiring`], [`logic`]: the scan of the target and the verdict on the wiring.
//! - [`state`]: what the tasks share.
//! - [`tasks`], [`display`], [`text`], [`chipdb`]: what is shown and when.
//! - [`uart`], [`autobaud`]: the UART bridge.
//! - [`board`], [`usb`], [`serial`]: which board it is and how it presents itself.
//! - [`targets`]: firmware of the boards that the probe is tried out on.
pub mod autobaud;
pub mod board;
pub mod chipdb;
pub mod dap;
pub mod display;
pub mod logic;
pub mod probe;
pub mod scan;
pub mod serial;
pub mod state;
pub mod targets;
pub mod tasks;
pub mod text;
pub mod uart;
pub mod usb;
pub mod wiring;
