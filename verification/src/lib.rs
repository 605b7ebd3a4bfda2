//! Rendering engine of a command timer: a running elapsed-time line that is
//! rewritten in place, interleaved with the captured output of a child
//! command, and closed by a total-time readout.
//!
//! The crate decides; it performs no input or output. A program feeds it the
//! events that its readers and its ticker produce, together with the elapsed
//! seconds and the terminal width it measured, and writes the frames that
//! come back.

pub mod elapsed;
pub mod wrap;
pub mod frame;
pub mod status;
pub mod session;
pub mod reader;
pub mod ticker;
pub mod command;

pub use command::command_line;
pub use elapsed::get_string_time;
pub use frame::{rows_for, Frame};
pub use reader::{emit, Emission, Reading};
pub use session::{render, Arrival};
pub use status::{Event, Rendered, Status, Step, CHANNEL_SLOTS};
pub use ticker::{after_wait, TICK_MILLIS};
pub use wrap::split_str_len;
