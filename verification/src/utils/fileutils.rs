//! Files by their names: which kind of container a file's extension names.

use crate::text::{ascii_lowered, chars_of, lowered_is, quote};
use crate::utils::error::{unsupported_message, ExtractionError, IllegalArgumentError};
use vstd::prelude::*;

verus! {

/// The parts of a file's path that extraction reads, as plain text.
#[derive(Debug, PartialEq, Eq)]
pub struct BookFile {
    /// The path as a whole.
    pub path: String,
    /// The file name without its extension, if the path has a file name.
    pub stem: Option<String>,
    /// The extension of the file name, without the dot, if it has one.
    pub extension: Option<String>,
}

/// A [`BookFile`] as mathematical values.
pub struct BookFileView {
    pub path: Seq<char>,
    pub stem: Option<Seq<char>>,
    pub extension: Option<Seq<char>>,
}

impl View for BookFile {
    type V = BookFileView;

    open spec fn view(&self) -> BookFileView {
        BookFileView {
            path: self.path@,
            stem: match self.stem {
                Some(stem) => Some(stem@),
                None => None,
            },
            extension: match self.extension {
                Some(extension) => Some(extension@),
                None => None,
            },
        }
    }
}

/// The structural format of a book file.
#[derive(Debug, Clone, Copy, PartialEq, Eq, Structural)]
pub enum ContainerKind {
    /// A comic-book archive.
    Archive,
    /// A PDF document.
    Document,
}

/// Whether the file has an extension that is `word` when case is ignored.
/// `word` is in lower case.
pub open spec fn has_extension(file: BookFileView, word: Seq<char>) -> bool {
    file.extension matches Some(extension) && ascii_lowered(extension) == word
}

/// Whether the extension names a comic-book archive: `cbr` or `cbz`, in any
/// case.
pub open spec fn names_archive(file: BookFileView) -> bool {
    has_extension(file, seq!['c', 'b', 'r']) || has_extension(file, seq!['c', 'b', 'z'])
}

/// Whether the extension names a PDF document: `pdf`, in any case.
pub open spec fn names_document(file: BookFileView) -> bool {
    has_extension(file, seq!['p', 'd', 'f'])
}

/// The kind of container that the extension names, if it names one.
pub open spec fn container_kind(file: BookFileView) -> Option<ContainerKind> {
    if names_archive(file) {
        Some(ContainerKind::Archive)
    } else if names_document(file) {
        Some(ContainerKind::Document)
    } else {
        None
    }
}

/// Whether the file's extension is `cbr` or `cbz`, in any case.
pub fn is_zip(entry: &BookFile) -> (r: bool)
    ensures
        r == names_archive(entry@),
{
    match &entry.extension {
        Some(extension) => {
            let chars = chars_of(extension.as_str());
            let cbr: [char; 3] = ['c', 'b', 'r'];
            let cbz: [char; 3] = ['c', 'b', 'z'];
            assert(cbr@ =~= seq!['c', 'b', 'r']);
            assert(cbz@ =~= seq!['c', 'b', 'z']);
            lowered_is(chars.as_slice(), cbr.as_slice()) || lowered_is(
                chars.as_slice(),
                cbz.as_slice(),
            )
        },
        None => false,
    }
}

/// Whether the file's extension is `pdf`, in any case.
pub fn is_pdf(entry: &BookFile) -> (r: bool)
    ensures
        r == names_document(entry@),
{
    match &entry.extension {
        Some(extension) => {
            let chars = chars_of(extension.as_str());
            let pdf: [char; 3] = ['p', 'd', 'f'];
            assert(pdf@ =~= seq!['p', 'd', 'f']);
            lowered_is(chars.as_slice(), pdf.as_slice())
        },
        None => false,
    }
}

/// Whether a directory entry is a candidate for extraction: not itself a
/// directory, and named as an archive or a document.
pub fn is_valid_file(is_dir: bool, entry: &BookFile) -> (r: bool)
    ensures
        r == (!is_dir && container_kind(entry@) is Some),
{
    if is_dir {
        return false;
    }
    is_zip(entry) || is_pdf(entry)
}

/// The error for a file whose extension names no known container.
pub fn unsupported(file: &BookFile) -> (r: ExtractionError)
    ensures
        r matches ExtractionError::UnsupportedFormat(error) && error@ == unsupported_message(
            file@.path,
        ),
{
    let shown = quote(file.path.as_str());
    let message = "We don't know how to open this archive '".to_owned().concat(
        shown.as_str(),
    ).concat("'");
    ExtractionError::UnsupportedFormat(IllegalArgumentError::new(message))
}

/// The kind of container that the file's extension names: an archive for
/// `cbr` and `cbz`, a document for `pdf`, in any case. Any other extension,
/// or none, is refused as an unsupported format.
pub fn classify(file: &BookFile) -> (r: Result<ContainerKind, ExtractionError>)
    ensures
        match container_kind(file@) {
            Some(kind) => r == Ok::<ContainerKind, ExtractionError>(kind),
            None => r matches Err(ExtractionError::UnsupportedFormat(error)) && error@
                == unsupported_message(file@.path),
        },
{
    if is_zip(file) {
        Ok(ContainerKind::Archive)
    } else if is_pdf(file) {
        Ok(ContainerKind::Document)
    } else {
        Err(unsupported(file))
    }
}

} // verus!
