//! Protocol driver for the GC9A01A round LCD controller.
//!
//! The driver turns drawing operations into the exact sequence of control-line
//! changes, bus writes and delays that the controller expects. Every operation
//! yields that sequence as a program of [`Step`]s; a [`Run`] walks a program one
//! step at a time and decides, from what the hardware reported for the last
//! step, whether to go on or to give up.
//!
//! The hardware itself is not part of this crate. Whoever owns the bus and the
//! three lines performs the steps a run hands out:
//!
//! * [`Step::SetHigh`] and [`Step::SetLow`] drive one of the lines,
//! * [`Step::Write`] sends a run of bytes over the bus in a single call,
//! * [`Step::DelayMs`] blocks for a number of milliseconds,
//!
//! and reports [`Event::Completed`] or [`Event::Failed`] for each.
//!
//! Every operation's contract gives its program in full, as a sequence of
//! [`wire::Op`]s built from the transactions in [`transaction`].

pub mod command;
pub mod driver;
pub mod run;
pub mod startup;
pub mod stream;
pub mod transaction;
pub mod window;
pub mod wire;

pub use command::{Instruction, Orientation};
pub use driver::{Settings, GC9A01A};
pub use run::{Action, Event, Run};
pub use wire::{Line, Step};
