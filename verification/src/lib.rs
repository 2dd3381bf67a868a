//! A client for the `ffprobe` media inspection tool.
//!
//! A probe runs the program [`PROGRAM`] with the [`arguments`] for one
//! media file, waits for it to end, and reads the JSON report off its
//! standard output. This library holds what is decided on the way: the
//! command line, and in [`conclude`] what the end of a run amounts to, the
//! report ([`FFProbe`]) or one of three failures ([`FFProbeError`]).
//! Starting the program and waiting for it is the caller's part, who hands
//! over how that went as an [`Attempt`].
//!
//! The report is read as JSON by `serde_json`. Of the document only the
//! array `streams` and the text `duration` in the object `format` are
//! looked at; the duration stays the text that the tool wrote, after it
//! has been found to be a number ([`literal`]).

pub mod command;
pub mod json;
pub mod literal;
pub mod probe;

pub use command::{arguments, Argument, PROGRAM};
pub use probe::{conclude, decode, read_document, Attempt, FFProbe, FFProbeError, Format, Stream};
