//! The document adapter: page count and descriptive metadata of a PDF, read
//! through `lopdf`.

use crate::archives::{BookInfo, BookInfoView};
use crate::text::{decode_lossy, lossy_text, quote, quoted, split_tokens, tokens};
use crate::utils::error::{ExtractionError, OpenFailure};
use crate::utils::fileutils::{BookFile, BookFileView};
use vstd::prelude::*;

verus! {

/// A parsed PDF, `lopdf::Document`. Opaque here: what extraction reads of it
/// is named by [`document_trailer`], [`document_objects`] and
/// [`document_pages`].
#[verifier::external_type_specification]
#[verifier::external_body]
pub struct ExDocument(lopdf::Document);

/// A PDF object, `lopdf::Object`. Opaque here: [`object_value`] names what
/// it holds.
#[verifier::external_type_specification]
#[verifier::external_body]
pub struct ExObject(lopdf::Object);

/// A PDF dictionary, `lopdf::Dictionary`. Opaque here: [`dictionary_entries`]
/// names what it holds.
#[verifier::external_type_specification]
#[verifier::external_body]
pub struct ExDictionary(lopdf::Dictionary);

/// The error of `lopdf`, `lopdf::Error`. Opaque here: it is only carried to
/// the caller.
#[verifier::external_type_specification]
#[verifier::external_body]
pub struct ExError(lopdf::Error);

/// What a PDF object is, as far as extraction tells objects apart.
pub enum PdfValue {
    /// A reference to the object with this number and generation.
    Reference((u32, u16)),
    /// A string, with its bytes.
    Text(Seq<u8>),
    /// A dictionary, with its entries by key.
    Dictionary(Map<Seq<u8>, PdfValue>),
    /// Anything else: a number, a name, an array, a stream and so on.
    Other,
}

/// What the object `object` is.
pub uninterp spec fn object_value(object: lopdf::Object) -> PdfValue;

/// The entries of `dictionary`, by key.
pub uninterp spec fn dictionary_entries(dictionary: lopdf::Dictionary) -> Map<Seq<u8>, PdfValue>;

/// The entries of the trailer of `document`, by key.
pub uninterp spec fn document_trailer(document: lopdf::Document) -> Map<Seq<u8>, PdfValue>;

/// The objects of `document` as `Document::get_object` finds them: for each
/// number and generation that it resolves, the object at the end of the
/// chain of references that starts there.
pub uninterp spec fn document_objects(document: lopdf::Document) -> Map<(u32, u16), PdfValue>;

/// The page table of `document` as `Document::get_pages` gives it: each page
/// number with the page's object, in the order of the pages.
pub uninterp spec fn document_pages(document: lopdf::Document) -> Seq<(u32, (u32, u16))>;

/// `Document::load_mem` of lopdf, which parses a PDF held in memory. Nothing
/// is claimed of what it returns: on damaged input the outcome may depend on
/// the order in which lopdf's worker threads and hash maps meet the objects.
pub assume_specification[ lopdf::Document::load_mem ](buffer: &[u8]) -> (r: Result<
    lopdf::Document,
    lopdf::Error,
>)
;

/// `Document::get_object` of lopdf, which looks up an object by number and
/// generation and follows references from it. It succeeds exactly on the
/// keys of [`document_objects`], with the object that stands there.
pub assume_specification<'a>[ lopdf::Document::get_object ](
    document: &'a lopdf::Document,
    id: (u32, u16),
) -> (r: Result<&'a lopdf::Object, lopdf::Error>)
    ensures
        r is Ok <==> document_objects(*document).contains_key(id),
        r matches Ok(object) ==> object_value(*object) == document_objects(*document)[id],
;

/// `Dictionary::get` of lopdf. It succeeds exactly when the dictionary has
/// the key, with the object stored under it.
pub assume_specification<'a>[ lopdf::Dictionary::get ](
    dictionary: &'a lopdf::Dictionary,
    key: &[u8],
) -> (r: Result<&'a lopdf::Object, lopdf::Error>)
    ensures
        r is Ok <==> dictionary_entries(*dictionary).contains_key(key@),
        r matches Ok(object) ==> object_value(*object) == dictionary_entries(*dictionary)[key@],
;

/// `Object::as_reference` of lopdf. It succeeds exactly on a reference, with
/// the number and generation referred to.
pub assume_specification[ lopdf::Object::as_reference ](object: &lopdf::Object) -> (r: Result<
    (u32, u16),
    lopdf::Error,
>)
    ensures
        r is Ok <==> object_value(*object) is Reference,
        r matches Ok(id) ==> object_value(*object) == PdfValue::Reference(id),
;

/// `Object::as_dict` of lopdf. It succeeds exactly on a dictionary, with
/// that dictionary.
pub assume_specification<'a>[ lopdf::Object::as_dict ](object: &'a lopdf::Object) -> (r: Result<
    &'a lopdf::Dictionary,
    lopdf::Error,
>)
    ensures
        r is Ok <==> object_value(*object) is Dictionary,
        r matches Ok(dictionary) ==> object_value(*object) == PdfValue::Dictionary(
            dictionary_entries(*dictionary),
        ),
;

/// `Object::as_str` of lopdf. It succeeds exactly on a string, with the
/// string's bytes.
pub assume_specification<'a>[ lopdf::Object::as_str ](object: &'a lopdf::Object) -> (r: Result<
    &'a [u8],
    lopdf::Error,
>)
    ensures
        r is Ok <==> object_value(*object) is Text,
        r matches Ok(bytes) ==> object_value(*object) == PdfValue::Text(bytes@),
;

/// The trailer of `document`, the public field `trailer` of
/// `lopdf::Document`. Its entries are those that [`document_trailer`] names.
#[verifier::external_body]
fn trailer<'a>(document: &'a lopdf::Document) -> (r: &'a lopdf::Dictionary)
    ensures
        dictionary_entries(*r) == document_trailer(*document),
{
    &document.trailer
}

/// The page table of `document`, through `Document::get_pages` of lopdf,
/// handed out as a vector in the order of the pages.
#[verifier::external_body]
fn page_table(document: &lopdf::Document) -> (r: Vec<(u32, (u32, u16))>)
    ensures
        r@ == document_pages(*document),
{
    document.get_pages().into_iter().collect()
}

/// The key `Info`, under which the trailer refers to the Info dictionary.
pub open spec fn info_key() -> Seq<u8> {
    seq![0x49u8, 0x6e, 0x66, 0x6f]
}

/// The key `Title` of the Info dictionary.
pub open spec fn title_key() -> Seq<u8> {
    seq![0x54u8, 0x69, 0x74, 0x6c, 0x65]
}

/// The key `Author` of the Info dictionary.
pub open spec fn author_key() -> Seq<u8> {
    seq![0x41u8, 0x75, 0x74, 0x68, 0x6f, 0x72]
}

/// The key `Keywords` of the Info dictionary.
pub open spec fn keywords_key() -> Seq<u8> {
    seq![0x4bu8, 0x65, 0x79, 0x77, 0x6f, 0x72, 0x64, 0x73]
}

/// The entries of the Info dictionary of `document`: the trailer has `Info`,
/// this is a reference, the reference resolves, and what it resolves to is a
/// dictionary. Where any of these fails there is none.
pub open spec fn info_dictionary(document: lopdf::Document) -> Option<Map<Seq<u8>, PdfValue>> {
    let trailer = document_trailer(document);
    let objects = document_objects(document);
    if !trailer.contains_key(info_key()) {
        None
    } else {
        match trailer[info_key()] {
            PdfValue::Reference(id) => if objects.contains_key(id) {
                match objects[id] {
                    PdfValue::Dictionary(entries) => Some(entries),
                    _ => None,
                }
            } else {
                None
            },
            _ => None,
        }
    }
}

/// The bytes of the string stored under `key`, if the key is there and holds
/// a string.
pub open spec fn text_entry(entries: Map<Seq<u8>, PdfValue>, key: Seq<u8>) -> Option<Seq<u8>> {
    if entries.contains_key(key) {
        match entries[key] {
            PdfValue::Text(bytes) => Some(bytes),
            _ => None,
        }
    } else {
        None
    }
}

/// The text of the string that the Info dictionary of `document` holds under
/// `key`, decoded as UTF-8 with replacement; none if there is no Info
/// dictionary, no such key, or no string under it.
pub open spec fn info_text(document: lopdf::Document, key: Seq<u8>) -> Option<Seq<char>> {
    match info_dictionary(document) {
        Some(entries) => match text_entry(entries, key) {
            Some(bytes) => Some(lossy_text(bytes)),
            None => None,
        },
        None => None,
    }
}

/// The descriptive fields of a document's Info dictionary, each as text if
/// the dictionary has it as a string.
#[derive(Debug, PartialEq, Eq)]
pub struct DocumentInfo {
    /// The value of `Title`.
    pub title: Option<String>,
    /// The value of `Author`.
    pub author: Option<String>,
    /// The value of `Keywords`.
    pub keywords: Option<String>,
}

/// A [`DocumentInfo`] as mathematical values.
pub struct DocumentInfoView {
    pub title: Option<Seq<char>>,
    pub author: Option<Seq<char>>,
    pub keywords: Option<Seq<char>>,
}

/// An optional string as an optional sequence of characters.
pub open spec fn text_view(text: Option<String>) -> Option<Seq<char>> {
    match text {
        Some(text) => Some(text@),
        None => None,
    }
}

impl View for DocumentInfo {
    type V = DocumentInfoView;

    open spec fn view(&self) -> DocumentInfoView {
        DocumentInfoView {
            title: text_view(self.title),
            author: text_view(self.author),
            keywords: text_view(self.keywords),
        }
    }
}

/// The descriptive fields of the Info dictionary of `document`.
pub open spec fn document_info(document: lopdf::Document) -> DocumentInfoView {
    DocumentInfoView {
        title: info_text(document, title_key()),
        author: info_text(document, author_key()),
        keywords: info_text(document, keywords_key()),
    }
}

/// Whether a title found in a document is used: it is not empty, and it is
/// not `.pdf`, which is what is left of a file name without a stem.
pub open spec fn acceptable_title(title: Seq<char>) -> bool {
    title.len() > 0 && title != ".pdf"@
}

/// The title of a document: the one found in it if that is acceptable, else
/// the file's stem as a path is shown, between quotes, else nothing. The
/// archive adapter puts `stuff` where there is no stem; the two are kept
/// apart so that no record changes its title.
pub open spec fn chosen_title(file: BookFileView, found: Option<Seq<char>>) -> Seq<char> {
    if found is Some && acceptable_title(found->0) {
        found->0
    } else {
        match file.stem {
            Some(stem) => quoted(stem),
            None => Seq::empty(),
        }
    }
}

/// The authors of a document: the author found in it, whole, as the one
/// author, unless that is empty.
pub open spec fn chosen_authors(found: Option<Seq<char>>) -> Option<Seq<Seq<char>>> {
    if found is Some && found->0.len() > 0 {
        Some(seq![found->0])
    } else {
        None
    }
}

/// The keywords of a document: the tokens of the list found in it, separated
/// by commas, unless there is none.
pub open spec fn chosen_keywords(found: Option<Seq<char>>) -> Option<Seq<Seq<char>>> {
    if found is Some && tokens(found->0, ',').len() > 0 {
        Some(tokens(found->0, ','))
    } else {
        None
    }
}

/// The record of a document at `file` with `pages` pages and the descriptive
/// fields `info`.
pub open spec fn book_info_of_parts(
    file: BookFileView,
    pages: nat,
    info: DocumentInfoView,
) -> BookInfoView {
    BookInfoView {
        title: chosen_title(file, info.title),
        pages,
        authors: chosen_authors(info.author),
        publisher: None,
        published_date: None,
        keywords: chosen_keywords(info.keywords),
    }
}

/// The record of the parsed document `document` at `file`.
pub open spec fn document_book_info(file: BookFileView, document: lopdf::Document) -> BookInfoView {
    book_info_of_parts(file, document_pages(document).len(), document_info(document))
}

/// The title of a document at `file` in which the title `found` was found,
/// if any.
pub fn choose_title(file: &BookFile, found: Option<String>) -> (r: String)
    ensures
        r@ == chosen_title(file@, text_view(found)),
{
    if let Some(title) = found {
        if !title.as_str().is_empty() && title != ".pdf".to_owned() {
            return title;
        }
    }
    match &file.stem {
        Some(stem) => quote(stem.as_str()),
        None => String::new(),
    }
}

/// The authors of a document in which the author `found` was found, if any.
pub fn choose_authors(found: Option<String>) -> (r: Option<Vec<String>>)
    ensures
        match r {
            Some(authors) => Some(authors.deep_view()) == chosen_authors(text_view(found)),
            None => chosen_authors(text_view(found)) is None,
        },
{
    match found {
        Some(author) => {
            if author.as_str().is_empty() {
                None
            } else {
                let mut authors: Vec<String> = Vec::new();
                authors.push(author);
                assert(authors.deep_view() =~= seq![author@]);
                Some(authors)
            }
        },
        None => None,
    }
}

/// The keywords of a document in which the list `found` was found, if any.
pub fn choose_keywords(found: &Option<String>) -> (r: Option<Vec<String>>)
    ensures
        match r {
            Some(keywords) => Some(keywords.deep_view()) == chosen_keywords(text_view(*found)),
            None => chosen_keywords(text_view(*found)) is None,
        },
{
    match found {
        Some(list) => {
            let keywords = split_tokens(list.as_str(), ',');
            if keywords.len() > 0 {
                Some(keywords)
            } else {
                None
            }
        },
        None => None,
    }
}

/// The record of a document at `file` with `pages` pages and the descriptive
/// fields `info`.
pub fn book_info_from_parts(file: &BookFile, pages: usize, info: DocumentInfo) -> (r: BookInfo)
    ensures
        r@ == book_info_of_parts(file@, pages as nat, info@),
{
    let keywords = choose_keywords(&info.keywords);
    let title = choose_title(file, info.title);
    let authors = choose_authors(info.author);
    BookInfo { title, pages, authors, publisher: None, published_date: None, keywords }
}

/// The Info dictionary of `document`, if it has one.
fn find_info<'a>(document: &'a lopdf::Document) -> (r: Option<&'a lopdf::Dictionary>)
    ensures
        match r {
            Some(dictionary) => info_dictionary(*document) == Some(
                dictionary_entries(*dictionary),
            ),
            None => info_dictionary(*document) is None,
        },
{
    let key: [u8; 4] = [0x49, 0x6e, 0x66, 0x6f];
    assert(key@ =~= info_key());
    let entry = match trailer(document).get(key.as_slice()) {
        Ok(entry) => entry,
        Err(_) => { return None; },
    };
    let id = match entry.as_reference() {
        Ok(id) => id,
        Err(_) => { return None; },
    };
    let target = match document.get_object(id) {
        Ok(target) => target,
        Err(_) => { return None; },
    };
    match target.as_dict() {
        Ok(dictionary) => Some(dictionary),
        Err(_) => None,
    }
}

/// The text of the string that `dictionary` holds under `key`, if it holds
/// one there.
fn find_text(dictionary: &lopdf::Dictionary, key: &[u8]) -> (r: Option<String>)
    ensures
        text_view(r) == match text_entry(dictionary_entries(*dictionary), key@) {
            Some(bytes) => Some(lossy_text(bytes)),
            None => None,
        },
{
    match dictionary.get(key) {
        Ok(object) => match object.as_str() {
            Ok(bytes) => Some(decode_lossy(bytes)),
            Err(_) => None,
        },
        Err(_) => None,
    }
}

/// The descriptive fields of the Info dictionary of `document`. A field that
/// is missing, or is no string, is left out alone; without an Info
/// dictionary all are left out.
pub fn read_document_info(document: &lopdf::Document) -> (r: DocumentInfo)
    ensures
        r@ == document_info(*document),
{
    match find_info(document) {
        Some(dictionary) => {
            let title_key: [u8; 5] = [0x54, 0x69, 0x74, 0x6c, 0x65];
            let author_key: [u8; 6] = [0x41, 0x75, 0x74, 0x68, 0x6f, 0x72];
            let keywords_key: [u8; 8] = [0x4b, 0x65, 0x79, 0x77, 0x6f, 0x72, 0x64, 0x73];
            assert(title_key@ =~= self::title_key());
            assert(author_key@ =~= self::author_key());
            assert(keywords_key@ =~= self::keywords_key());
            DocumentInfo {
                title: find_text(dictionary, title_key.as_slice()),
                author: find_text(dictionary, author_key.as_slice()),
                keywords: find_text(dictionary, keywords_key.as_slice()),
            }
        },
        None => DocumentInfo { title: None, author: None, keywords: None },
    }
}

/// The record of the parsed document `document` at `file`: as many pages as
/// its page table has entries, none for an empty table, and the title,
/// authors and keywords that its Info dictionary gives.
pub fn book_info_of_document(file: &BookFile, document: &lopdf::Document) -> (r: BookInfo)
    ensures
        r@ == document_book_info(file@, *document),
{
    let pages = page_table(document).len();
    let info = read_document_info(document);
    book_info_from_parts(file, pages, info)
}

/// Whether `outcome` is what extraction owes for the document at `file`,
/// given the outcome of parsing it: the record of the parsed document, or the
/// failure to open with the parser's error unchanged.
pub open spec fn loaded_outcome(
    file: BookFileView,
    loaded: Result<lopdf::Document, lopdf::Error>,
    outcome: Result<BookInfo, ExtractionError>,
) -> bool {
    match loaded {
        Ok(document) => outcome matches Ok(info) && info@ == document_book_info(file, document),
        Err(cause) => outcome matches Err(
            ExtractionError::ContainerOpenFailure(OpenFailure::Document(error)),
        ) && error == cause,
    }
}

/// Whether `outcome` is what extraction may give for a document at `file`,
/// whatever parsing its bytes came to: the record of some parsed document, or
/// a failure to open the document.
pub open spec fn document_outcome(
    file: BookFileView,
    outcome: Result<BookInfo, ExtractionError>,
) -> bool {
    match outcome {
        Ok(info) => exists|document: lopdf::Document|
            info@ == #[trigger] document_book_info(file, document),
        Err(error) => error matches ExtractionError::ContainerOpenFailure(
            OpenFailure::Document(_),
        ),
    }
}

/// The record of a document at `file`, from the outcome of parsing it. A
/// document that was parsed gives its record; a failure to parse is handed
/// on with the parser's error unchanged, and no record is made.
pub fn book_info_from_loaded(
    file: &BookFile,
    loaded: Result<lopdf::Document, lopdf::Error>,
) -> (r: Result<BookInfo, ExtractionError>)
    ensures
        loaded_outcome(file@, loaded, r),
{
    match loaded {
        Ok(document) => Ok(book_info_of_document(file, &document)),
        Err(cause) => Err(ExtractionError::ContainerOpenFailure(OpenFailure::Document(cause))),
    }
}

/// The record of the document at `file` whose bytes are `bytes`. The bytes
/// are parsed; what comes of it is what [`book_info_from_loaded`] makes of
/// the parser's outcome: the record of the parsed document, or the failure to
/// open the container.
pub fn get_book_info_pdf(file: &BookFile, bytes: &[u8]) -> (r: Result<BookInfo, ExtractionError>)
    ensures
        document_outcome(file@, r),
{
    let loaded = lopdf::Document::load_mem(bytes);
    book_info_from_loaded(file, loaded)
}

} // verus!
