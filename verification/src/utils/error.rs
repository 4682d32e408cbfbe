//! The failures that extraction reports.

use crate::text::quoted;
use vstd::prelude::*;

verus! {

/// An argument that the library cannot work with, with a message that says
/// why.
#[derive(Debug)]
pub struct IllegalArgumentError {
    message: String,
}

impl View for IllegalArgumentError {
    type V = Seq<char>;

    /// The message.
    closed spec fn view(&self) -> Seq<char> {
        self.message@
    }
}

impl IllegalArgumentError {
    /// An error with the given message.
    pub fn new(message: String) -> (r: Self)
        ensures
            r@ == message@,
    {
        IllegalArgumentError { message }
    }

    /// The error as a line of text: `Illegal argument: ` and the message.
    pub fn to_string(&self) -> (r: String)
        ensures
            r@ == "Illegal argument: "@ + self@,
    {
        "Illegal argument: ".to_owned().concat(self.message.as_str())
    }
}

/// Why an archive's entry names could not be had, as the caller that tried
/// to list them reports it.
#[derive(Debug)]
pub enum ArchiveFailure {
    /// The archive could not be opened; the text is the cause.
    Open(String),
    /// The archive was opened but listing its entries failed; the text is
    /// the cause.
    Enumeration(String),
}

/// Why a container could not be opened.
#[derive(Debug)]
pub enum OpenFailure {
    /// The archive could not be opened; the text is the cause as the caller
    /// reported it.
    Archive(String),
    /// The document could not be parsed; the cause is the parser's own
    /// error, unchanged.
    Document(lopdf::Error),
    /// The contents handed over were not read as the kind of container that
    /// the file's extension names, so nothing was opened.
    Unread,
}

/// Why no book record could be made of a file.
#[derive(Debug)]
pub enum ExtractionError {
    /// The file's extension names no known kind of container. The message
    /// holds the path.
    UnsupportedFormat(IllegalArgumentError),
    /// The container could not be opened or parsed.
    ContainerOpenFailure(OpenFailure),
    /// The archive was opened, but its entries could not be listed; the text
    /// is the cause as the caller reported it.
    EnumerationFailure(String),
}

/// The message of the error for a file of no known kind, at the path `path`.
pub open spec fn unsupported_message(path: Seq<char>) -> Seq<char> {
    "We don't know how to open this archive '"@ + quoted(path) + "'"@
}

} // verus!
