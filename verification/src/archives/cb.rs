//! The archive adapter: page count and title of a comic-book archive, from
//! the names of its entries.

use crate::archives::{BookInfo, BookInfoView};
use crate::text::{chars_of, ends_with, has_suffix, lowercase, quote, quoted};
use crate::utils::error::{ArchiveFailure, ExtractionError, OpenFailure};
use crate::utils::fileutils::{BookFile, BookFileView};
use vstd::prelude::*;

verus! {

/// The size, in bytes, of the blocks in which an archive is to be read:
/// 1 MiB, so that large archives take few reads.
pub const ARCHIVE_BLOCK_SIZE: usize = 1024 * 1024;

/// Whether a name that is already in lower case ends like the name of an
/// image: with `jpg`, `jpeg`, `png` or `webp`. The test is on the end of the
/// name alone, with no dot asked for: `notjpg` passes.
pub open spec fn is_page_suffix(lowered: Seq<char>) -> bool {
    ||| ends_with(lowered, seq!['j', 'p', 'g'])
    ||| ends_with(lowered, seq!['j', 'p', 'e', 'g'])
    ||| ends_with(lowered, seq!['p', 'n', 'g'])
    ||| ends_with(lowered, seq!['w', 'e', 'b', 'p'])
}

/// Whether an entry with this name counts as a page: its name, in lower
/// case, ends like the name of an image.
pub open spec fn is_page(name: Seq<char>) -> bool {
    is_page_suffix(lowercase(name))
}

/// The number of names that count as pages.
pub open spec fn count_pages(names: Seq<Seq<char>>) -> nat {
    names.filter(|name: Seq<char>| is_page(name)).len()
}

/// The title of an archive: its file's stem as a path is shown, between
/// quotes, or the word `stuff` shown so for a path without a stem. The
/// document adapter leaves the title empty in that case; the two are kept
/// apart so that no record changes its title.
pub open spec fn archive_title(file: BookFileView) -> Seq<char> {
    match file.stem {
        Some(stem) => quoted(stem),
        None => quoted("stuff"@),
    }
}

/// The record of an archive at `file` whose entries have the names `names`.
/// An archive carries no authors, publisher, date or keywords.
pub open spec fn archive_book_info(file: BookFileView, names: Seq<Seq<char>>) -> BookInfoView {
    BookInfoView {
        title: archive_title(file),
        pages: count_pages(names),
        authors: None,
        publisher: None,
        published_date: None,
        keywords: None,
    }
}

/// Whether `lowered`, a name already in lower case, ends like the name of an
/// image.
pub fn has_page_suffix(lowered: &str) -> (r: bool)
    ensures
        r == is_page_suffix(lowered@),
{
    let chars = chars_of(lowered);
    let jpg: [char; 3] = ['j', 'p', 'g'];
    let jpeg: [char; 4] = ['j', 'p', 'e', 'g'];
    let png: [char; 3] = ['p', 'n', 'g'];
    let webp: [char; 4] = ['w', 'e', 'b', 'p'];
    assert(jpg@ =~= seq!['j', 'p', 'g']);
    assert(jpeg@ =~= seq!['j', 'p', 'e', 'g']);
    assert(png@ =~= seq!['p', 'n', 'g']);
    assert(webp@ =~= seq!['w', 'e', 'b', 'p']);
    has_suffix(chars.as_slice(), jpg.as_slice()) || has_suffix(chars.as_slice(), jpeg.as_slice())
        || has_suffix(chars.as_slice(), png.as_slice()) || has_suffix(
        chars.as_slice(),
        webp.as_slice(),
    )
}

/// Whether an archive entry named `file` counts as a page.
pub fn valid_page(file: &str) -> (r: bool)
    ensures
        r == is_page(file@),
{
    let lowered = file.to_lowercase();
    has_page_suffix(lowered.as_str())
}

/// The number of entries in `list` that count as pages.
pub fn get_pages(list: &[String]) -> (r: usize)
    ensures
        r == count_pages(list.deep_view()),
{
    let ghost names = list.deep_view();
    let ghost page = |name: Seq<char>| is_page(name);
    let mut count: usize = 0;
    let mut i: usize = 0;
    assert(names.take(0).filter(page).len() == 0) by {
        reveal(Seq::filter);
    }
    while i < list.len()
        invariant
            names == list.deep_view(),
            page == |name: Seq<char>| is_page(name),
            i <= list.len(),
            count <= i,
            count == names.take(i as int).filter(page).len(),
        decreases list.len() - i,
    {
        proof {
            reveal(Seq::filter);
            assert(names.take(i + 1).drop_last() =~= names.take(i as int));
            assert(names.take(i + 1).last() == list@[i as int]@);
        }
        if valid_page(list[i].as_str()) {
            count += 1;
        }
        i += 1;
    }
    assert(names.take(list.len() as int) =~= names);
    count
}

/// Whether `outcome` is what extraction owes for the archive at `file`, given
/// the outcome of listing its entries: the record for the names that were
/// listed, or the failure with the cause that was reported.
pub open spec fn archive_outcome(
    file: BookFileView,
    listing: Result<Vec<String>, ArchiveFailure>,
    outcome: Result<BookInfo, ExtractionError>,
) -> bool {
    match listing {
        Ok(names) => outcome matches Ok(info) && info@ == archive_book_info(
            file,
            names.deep_view(),
        ),
        Err(ArchiveFailure::Open(cause)) => outcome matches Err(
            ExtractionError::ContainerOpenFailure(OpenFailure::Archive(text)),
        ) && text == cause,
        Err(ArchiveFailure::Enumeration(cause)) => outcome matches Err(
            ExtractionError::EnumerationFailure(text),
        ) && text == cause,
    }
}

/// The record of the archive at `file`, from the outcome of listing its
/// entries. If the names were listed, the record holds the stem as the title
/// and the number of pages among the names. If opening or listing failed,
/// so does this, with the same cause: no record is made of a part.
pub fn get_book_info_cba(file: &BookFile, listing: Result<Vec<String>, ArchiveFailure>) -> (r:
    Result<BookInfo, ExtractionError>)
    ensures
        archive_outcome(file@, listing, r),
{
    match listing {
        Ok(names) => {
            let title = match &file.stem {
                Some(stem) => quote(stem.as_str()),
                None => quote("stuff"),
            };
            let pages = get_pages(names.as_slice());
            Ok(
                BookInfo {
                    title,
                    pages,
                    authors: None,
                    publisher: None,
                    published_date: None,
                    keywords: None,
                },
            )
        },
        Err(ArchiveFailure::Open(cause)) => Err(
            ExtractionError::ContainerOpenFailure(OpenFailure::Archive(cause)),
        ),
        Err(ArchiveFailure::Enumeration(cause)) => Err(ExtractionError::EnumerationFailure(cause)),
    }
}

} // verus!
