//! Book records, and the dispatch from a file to the adapter for its kind of
//! container.

pub mod cb;
pub mod pdf;

use crate::archives::cb::{archive_outcome, get_book_info_cba};
use crate::archives::pdf::{document_outcome, get_book_info_pdf};
use crate::text::is_token;
use crate::utils::error::{unsupported_message, ArchiveFailure, ExtractionError, OpenFailure};
use crate::utils::fileutils::{
    container_kind, is_pdf, is_zip, unsupported, BookFile, BookFileView, ContainerKind,
};
use vstd::prelude::*;

verus! {

/// The record that describes one book file.
#[derive(Debug, PartialEq, Eq)]
pub struct BookInfo {
    /// The title; empty if none can be derived.
    pub title: String,
    /// The number of pages.
    pub pages: usize,
    /// The authors, if the file names any.
    pub authors: Option<Vec<String>>,
    /// The publisher. No adapter fills it yet.
    pub publisher: Option<String>,
    /// The date of publication. No adapter fills it yet.
    pub published_date: Option<String>,
    /// The keywords, if the file names any.
    pub keywords: Option<Vec<String>>,
}

/// A [`BookInfo`] as mathematical values.
pub struct BookInfoView {
    pub title: Seq<char>,
    pub pages: nat,
    pub authors: Option<Seq<Seq<char>>>,
    pub publisher: Option<Seq<char>>,
    pub published_date: Option<Seq<char>>,
    pub keywords: Option<Seq<Seq<char>>>,
}

impl View for BookInfo {
    type V = BookInfoView;

    open spec fn view(&self) -> BookInfoView {
        BookInfoView {
            title: self.title@,
            pages: self.pages as nat,
            authors: match self.authors {
                Some(authors) => Some(authors.deep_view()),
                None => None,
            },
            publisher: match self.publisher {
                Some(publisher) => Some(publisher@),
                None => None,
            },
            published_date: match self.published_date {
                Some(date) => Some(date@),
                None => None,
            },
            keywords: match self.keywords {
                Some(keywords) => Some(keywords.deep_view()),
                None => None,
            },
        }
    }
}

/// Whether a record is well formed. Authors, where present, hold an entry
/// that is not empty. Keywords, where present, are one or more tokens, each
/// not empty, trimmed and free of commas. Publisher and date of publication
/// are absent.
pub open spec fn well_formed(info: BookInfoView) -> bool {
    &&& info.authors matches Some(authors) ==> exists|i: int|
        0 <= i < authors.len() && (#[trigger] authors[i]).len() > 0
    &&& info.keywords matches Some(keywords) ==> keywords.len() > 0 && forall|i: int|
        0 <= i < keywords.len() ==> is_token(#[trigger] keywords[i], ',')
    &&& info.publisher is None
    &&& info.published_date is None
}

/// What a caller has read of a file, by the kind of container that it read
/// the file as.
#[derive(Debug)]
pub enum Contents {
    /// The outcome of listing the entries of an archive: their names in the
    /// archive's order, or why they could not be had.
    Archive(Result<Vec<String>, ArchiveFailure>),
    /// The bytes of a document.
    Document(Vec<u8>),
}

/// Whether `outcome` is what extraction owes for `file` with the contents
/// `contents`. The file's extension decides: an archive gives what the
/// archive adapter owes for the listing, a document what the document
/// adapter may give, and any other file is refused as unsupported, whatever
/// the contents. Contents that were read as the other kind of container
/// count as a container that was not opened.
pub open spec fn extraction_outcome(
    file: BookFileView,
    contents: Contents,
    outcome: Result<BookInfo, ExtractionError>,
) -> bool {
    match container_kind(file) {
        Some(ContainerKind::Archive) => match contents {
            Contents::Archive(listing) => archive_outcome(file, listing, outcome),
            Contents::Document(_) => outcome matches Err(
                ExtractionError::ContainerOpenFailure(OpenFailure::Unread),
            ),
        },
        Some(ContainerKind::Document) => match contents {
            Contents::Document(_) => document_outcome(file, outcome),
            Contents::Archive(_) => outcome matches Err(
                ExtractionError::ContainerOpenFailure(OpenFailure::Unread),
            ),
        },
        None => outcome matches Err(ExtractionError::UnsupportedFormat(error)) && error@
            == unsupported_message(file.path),
    }
}

/// The record of the book at `file`, from what was read of it. The extension
/// picks the adapter: `cbr` and `cbz` the archive adapter, `pdf` the
/// document adapter, in any case; a file with another extension is an
/// unsupported format, and nothing is extracted from it.
pub fn get_book_info(file: &BookFile, contents: Contents) -> (r: Result<BookInfo, ExtractionError>)
    ensures
        extraction_outcome(file@, contents, r),
{
    if is_zip(file) {
        return match contents {
            Contents::Archive(listing) => get_book_info_cba(file, listing),
            Contents::Document(_) => Err(
                ExtractionError::ContainerOpenFailure(OpenFailure::Unread),
            ),
        };
    }
    if is_pdf(file) {
        return match contents {
            Contents::Document(bytes) => get_book_info_pdf(file, bytes.as_slice()),
            Contents::Archive(_) => Err(
                ExtractionError::ContainerOpenFailure(OpenFailure::Unread),
            ),
        };
    }
    Err(unsupported(file))
}

} // verus!
