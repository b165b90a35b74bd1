//! Driver logic for SEGGER J-Link debug probes.
//!
//! The driver turns what a debugger wants (attach to a target, read a register)
//! into what a probe can do (shift these bits through that interface), and makes
//! sense of the answers. It does no input or output by itself. An operation is a
//! conversation: it is started by a function that ends in a [`link::Step`], and
//! as long as the step asks for a [`link::Command`], the caller performs it and
//! resumes the operation with the [`link::Reply`].
//!
//! - [`probe`] has the operations of a single probe, and [`discovery`] finds one.
//! - [`dap`] accesses registers over SWD, with the sequences of [`swd`].
//! - [`jtag`] has the scans that JTAG registers are accessed with.
//! - [`selection`] and [`speed`] set up the interface to the target.
//! - [`bits`] converts between bits, numbers and bytes.
//!
//! What an operation does is written down as a pure function from its state and
//! a reply to the next step. Each module states its laws as public proof
//! functions over these.

pub mod bits;
pub mod dap;
pub mod discovery;
pub mod error;
pub mod jtag;
pub mod link;
pub mod probe;
pub mod protocol;
pub mod selection;
pub mod speed;
pub mod swd;
