//! The library's error taxonomy.
//!
//! Transport failures trigger a reconnect and are never surfaced further; a
//! frame that matches neither wire shape is reported per frame and skipped;
//! the only error a caller of the admission table ever sees is the rejection
//! of one more distinct key.

use vstd::prelude::*;

verus! {

/// Why one decode attempt of a frame failed.
#[derive(Debug, Clone, Copy, PartialEq, Eq, Structural)]
pub enum DecodeError {
    /// The frame is not well-formed JSON text.
    InvalidJson,
    /// The frame is well-formed JSON but not of the attempted shape.
    WrongShape,
}

/// A frame that matched neither wire shape: the frame itself and the
/// failure of each of the two attempts, full snapshot first.
#[derive(Debug, Clone)]
pub struct MessageParsingError {
    pub message: Vec<u8>,
    pub error_parsing_all_messages: DecodeError,
    pub error_parsing_followup_message: DecodeError,
}

/// Mathematical image of `MessageParsingError`.
pub struct MessageParsingErrorView {
    pub message: Seq<u8>,
    pub error_parsing_all_messages: DecodeError,
    pub error_parsing_followup_message: DecodeError,
}

impl View for MessageParsingError {
    type V = MessageParsingErrorView;

    open spec fn view(&self) -> MessageParsingErrorView {
        MessageParsingErrorView {
            message: self.message@,
            error_parsing_all_messages: self.error_parsing_all_messages,
            error_parsing_followup_message: self.error_parsing_followup_message,
        }
    }
}

/// What the ingestion side can report: a transport failure (contained; it
/// only triggers a reconnect) or a frame that could not be understood
/// (logged and skipped; the connection stays open).
#[derive(Debug, Clone)]
pub enum LobbyCacheError {
    Connection,
    Parsing(MessageParsingError),
}

/// The one error surfaced to a caller registering a watch: the admission
/// table already tracks as many distinct keys as it accepts.
#[derive(Debug, Clone, Copy, PartialEq, Eq, Structural)]
pub enum CommandError {
    TooManyLobbies,
}

} // verus!
