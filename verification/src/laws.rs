//! What holds of every extraction, proved from the adapters' definitions.

use crate::archives::cb::{archive_book_info, archive_outcome, count_pages, is_page};
use crate::archives::pdf::{
    acceptable_title, author_key, book_info_of_parts, chosen_title, document_book_info,
    document_pages, info_dictionary, keywords_key, loaded_outcome, text_entry, title_key,
    DocumentInfoView,
};
use crate::archives::{extraction_outcome, well_formed, BookInfo, Contents};
use crate::text::{lemma_tokens_are_tokens, quoted};
use crate::utils::error::{ArchiveFailure, ExtractionError};
use crate::utils::fileutils::{container_kind, names_archive, names_document, BookFileView};
use vstd::prelude::*;

verus! {

/// Only pages are counted: one more name adds one to the count if it is a
/// page, and nothing if it is not.
pub proof fn lemma_only_pages_count(names: Seq<Seq<char>>, name: Seq<char>)
    ensures
        count_pages(names.push(name)) == count_pages(names) + if is_page(name) {
            1nat
        } else {
            0nat
        },
{
    reveal(Seq::filter);
    assert(names.push(name).drop_last() =~= names);
}

/// An archive has no more pages than entries, and none without entries.
pub proof fn lemma_pages_within_entries(names: Seq<Seq<char>>)
    ensures
        count_pages(names) <= names.len(),
        names.len() == 0 ==> count_pages(names) == 0,
{
    names.lemma_filter_len(|name: Seq<char>| is_page(name));
}

/// Taking one name out of a list takes one off the count if the name is a
/// page, and nothing if it is not.
proof fn lemma_count_without(names: Seq<Seq<char>>, at: int)
    requires
        0 <= at < names.len(),
    ensures
        count_pages(names) == count_pages(names.remove(at)) + if is_page(names[at]) {
            1nat
        } else {
            0nat
        },
    decreases names.len(),
{
    let front = names.drop_last();
    assert(names =~= front.push(names.last()));
    lemma_only_pages_count(front, names.last());
    if at == names.len() - 1 {
        assert(names.remove(at) =~= front);
    } else {
        assert(names.remove(at) =~= front.remove(at).push(names.last()));
        lemma_only_pages_count(front.remove(at), names.last());
        lemma_count_without(front, at);
    }
}

/// The number of pages does not depend on the order of the entries: two
/// listings with the same names, each as often in one as in the other, have
/// the same number of pages.
pub proof fn lemma_pages_are_order_free(names: Seq<Seq<char>>, others: Seq<Seq<char>>)
    requires
        names.to_multiset() == others.to_multiset(),
    ensures
        count_pages(names) == count_pages(others),
    decreases names.len(),
{
    names.to_multiset_ensures();
    others.to_multiset_ensures();
    assert(names.len() == others.len());
    if names.len() == 0 {
        lemma_pages_within_entries(names);
        lemma_pages_within_entries(others);
    } else {
        let front = names.drop_last();
        let name = names.last();
        assert(names =~= front.push(name));
        assert(names.contains(name));
        assert(others.to_multiset().count(name) > 0);
        assert(others.contains(name));
        let at = choose|at: int| 0 <= at < others.len() && others[at] == name;
        front.to_multiset_ensures();
        assert(front.to_multiset() =~= names.to_multiset().remove(name));
        assert(others.remove(at).to_multiset() =~= others.to_multiset().remove(name));
        lemma_pages_are_order_free(front, others.remove(at));
        lemma_only_pages_count(front, name);
        lemma_count_without(others, at);
    }
}

/// The record of an archive is well formed, and holds nothing but a title
/// and a number of pages.
pub proof fn lemma_archive_record_is_well_formed(file: BookFileView, names: Seq<Seq<char>>)
    ensures
        well_formed(archive_book_info(file, names)),
        archive_book_info(file, names).authors is None,
        archive_book_info(file, names).keywords is None,
{
}

/// The record of a document is well formed, whatever its Info dictionary
/// holds: an author is one entry that is not empty, and keywords are one or
/// more tokens.
pub proof fn lemma_document_record_is_well_formed(
    file: BookFileView,
    pages: nat,
    info: DocumentInfoView,
)
    ensures
        well_formed(book_info_of_parts(file, pages, info)),
{
    let record = book_info_of_parts(file, pages, info);
    if record.authors is Some {
        assert(record.authors->0[0].len() > 0);
    }
    if info.keywords is Some {
        lemma_tokens_are_tokens(info.keywords->0, ',');
    }
}

/// A document whose page table is empty has no pages, and is no error.
pub proof fn lemma_no_pages_is_no_error(
    file: BookFileView,
    document: lopdf::Document,
    outcome: Result<BookInfo, ExtractionError>,
)
    requires
        document_pages(document).len() == 0,
        loaded_outcome(file, Ok(document), outcome),
    ensures
        outcome matches Ok(info) && info@.pages == 0,
{
}

/// A document without an Info dictionary takes its title from the file's
/// stem, and has neither authors nor keywords.
pub proof fn lemma_no_info_falls_back(file: BookFileView, document: lopdf::Document)
    requires
        info_dictionary(document) is None,
    ensures
        document_book_info(file, document).title == match file.stem {
            Some(stem) => quoted(stem),
            None => Seq::<char>::empty(),
        },
        document_book_info(file, document).authors is None,
        document_book_info(file, document).keywords is None,
{
}

/// A field of the Info dictionary that is missing, or is no string, leaves
/// the other fields and the page count as they are: each field of the record
/// depends on its own entry alone.
pub proof fn lemma_fields_are_independent(
    file: BookFileView,
    first: lopdf::Document,
    second: lopdf::Document,
)
    requires
        info_dictionary(first) is Some,
        info_dictionary(second) is Some,
    ensures
        document_pages(first).len() == document_pages(second).len() ==> document_book_info(
            file,
            first,
        ).pages == document_book_info(file, second).pages,
        text_entry(info_dictionary(first)->0, title_key()) == text_entry(
            info_dictionary(second)->0,
            title_key(),
        ) ==> document_book_info(file, first).title == document_book_info(file, second).title,
        text_entry(info_dictionary(first)->0, author_key()) == text_entry(
            info_dictionary(second)->0,
            author_key(),
        ) ==> document_book_info(file, first).authors == document_book_info(
            file,
            second,
        ).authors,
        text_entry(info_dictionary(first)->0, keywords_key()) == text_entry(
            info_dictionary(second)->0,
            keywords_key(),
        ) ==> document_book_info(file, first).keywords == document_book_info(
            file,
            second,
        ).keywords,
{
}

/// A title found in a document that is empty, or is `.pdf`, is never the
/// title of the record: the file's stem stands in for it.
pub proof fn lemma_degenerate_title_is_not_taken(file: BookFileView, found: Seq<char>)
    requires
        found.len() == 0 || found == ".pdf"@,
    ensures
        chosen_title(file, Some(found)) == chosen_title(file, None),
{
}

/// A title that the Info dictionary holds as UTF-8 is the title of the
/// record as it stands, whatever the file is called, unless it is empty or
/// `.pdf`.
pub proof fn lemma_title_overrides_file_name(
    file: BookFileView,
    document: lopdf::Document,
    title: Seq<char>,
)
    requires
        info_dictionary(document) matches Some(entries) && text_entry(entries, title_key())
            == Some(vstd::utf8::encode_utf8(title)),
        acceptable_title(title),
    ensures
        document_book_info(file, document).title == title,
{
    vstd::utf8::encode_utf8_valid_utf8(title);
    vstd::utf8::encode_utf8_decode_utf8(title);
}

/// An author that the Info dictionary holds as UTF-8 is the one author of
/// the record, whole, unless it is empty.
pub proof fn lemma_author_is_one_entry(
    file: BookFileView,
    document: lopdf::Document,
    author: Seq<char>,
)
    requires
        info_dictionary(document) matches Some(entries) && text_entry(entries, author_key())
            == Some(vstd::utf8::encode_utf8(author)),
        author.len() > 0,
    ensures
        document_book_info(file, document).authors == Some(seq![author]),
{
    vstd::utf8::encode_utf8_valid_utf8(author);
    vstd::utf8::encode_utf8_decode_utf8(author);
}

/// Two extractions from one archive listing agree: both fail or both give
/// the same record.
pub proof fn lemma_archive_extraction_is_determined(
    file: BookFileView,
    listing: Result<Vec<String>, ArchiveFailure>,
    first: Result<BookInfo, ExtractionError>,
    second: Result<BookInfo, ExtractionError>,
)
    requires
        archive_outcome(file, listing, first),
        archive_outcome(file, listing, second),
    ensures
        first is Ok <==> second is Ok,
        first matches Ok(one) ==> second matches Ok(other) && one@ == other@,
{
}

/// Two extractions from one parsed document agree: both fail or both give
/// the same record.
pub proof fn lemma_document_extraction_is_determined(
    file: BookFileView,
    loaded: Result<lopdf::Document, lopdf::Error>,
    first: Result<BookInfo, ExtractionError>,
    second: Result<BookInfo, ExtractionError>,
)
    requires
        loaded_outcome(file, loaded, first),
        loaded_outcome(file, loaded, second),
    ensures
        first is Ok <==> second is Ok,
        first matches Ok(one) ==> second matches Ok(other) && one@ == other@,
{
}

/// No extension names both kinds of container.
pub proof fn lemma_kinds_are_exclusive(file: BookFileView)
    ensures
        !(names_archive(file) && names_document(file)),
{
    if names_archive(file) && names_document(file) {
        let lowered = crate::text::ascii_lowered(file.extension->0);
        assert(seq!['p', 'd', 'f'][0] == 'p');
        assert(seq!['c', 'b', 'r'][0] == 'c');
        assert(seq!['c', 'b', 'z'][0] == 'c');
        assert(lowered[0] == 'p');
    }
}

/// A file whose extension names no known container is refused as an
/// unsupported format, whatever was read of it: no record is made.
pub proof fn lemma_unsupported_is_refused(
    file: BookFileView,
    contents: Contents,
    outcome: Result<BookInfo, ExtractionError>,
)
    requires
        container_kind(file) is None,
        extraction_outcome(file, contents, outcome),
    ensures
        outcome matches Err(ExtractionError::UnsupportedFormat(_)),
{
}

/// An archive that could not be opened or listed gives an error, never a
/// record.
pub proof fn lemma_failed_listing_gives_no_record(
    file: BookFileView,
    cause: ArchiveFailure,
    outcome: Result<BookInfo, ExtractionError>,
)
    requires
        archive_outcome(file, Err(cause), outcome),
    ensures
        outcome is Err,
        cause is Open ==> outcome matches Err(ExtractionError::ContainerOpenFailure(_)),
        cause is Enumeration ==> outcome matches Err(ExtractionError::EnumerationFailure(_)),
{
}

/// A document that could not be parsed gives an error, never a record.
pub proof fn lemma_failed_parse_gives_no_record(
    file: BookFileView,
    cause: lopdf::Error,
    outcome: Result<BookInfo, ExtractionError>,
)
    requires
        loaded_outcome(file, Err(cause), outcome),
    ensures
        outcome matches Err(ExtractionError::ContainerOpenFailure(_)),
{
}

/// Whatever was read of a file, extraction gives a well-formed record or an
/// error.
pub proof fn lemma_extracted_record_is_well_formed(
    file: BookFileView,
    contents: Contents,
    outcome: Result<BookInfo, ExtractionError>,
)
    requires
        extraction_outcome(file, contents, outcome),
    ensures
        outcome matches Ok(info) ==> well_formed(info@),
{
    if let Ok(info) = outcome {
        match contents {
            Contents::Archive(listing) => {
                if let Ok(names) = listing {
                    lemma_archive_record_is_well_formed(file, names.deep_view());
                }
            },
            Contents::Document(_) => {
                let document = choose|document: lopdf::Document|
                    info@ == #[trigger] document_book_info(file, document);
                lemma_document_record_is_well_formed(
                    file,
                    document_pages(document).len(),
                    crate::archives::pdf::document_info(document),
                );
            },
        }
    }
}

} // verus!
