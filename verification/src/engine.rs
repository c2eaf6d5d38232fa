//! The outside engines as this library sees them: the full-text index that
//! stores and ranks documents, and the fuzzy matcher over the built-in
//! symbol table.
//!
//! Nothing in this file is proved. Each item states what the engine's
//! documentation and source show, over a model of what an index holds: the
//! documents it was given, each as the text values it was given with, in
//! their order, every value with the number of its field.

use vstd::prelude::*;
use vstd::multiset::Multiset;
use tantivy::schema::Value;
use crate::text::texts;

verus! {

/// A searchable index.
#[verifier::external_type_specification]
#[verifier::external_body]
pub struct ExIndex(tantivy::Index);

/// The fields of an index.
#[verifier::external_type_specification]
#[verifier::external_body]
pub struct ExSchema(tantivy::schema::Schema);

/// A point-in-time view of an index.
#[verifier::external_type_specification]
#[verifier::external_body]
pub struct ExSearcher(tantivy::Searcher);

/// A parser of query text for one index.
#[verifier::external_type_specification]
#[verifier::external_body]
pub struct ExQueryParser(tantivy::query::QueryParser);

/// The engine's error.
#[verifier::external_type_specification]
#[verifier::external_body]
pub struct ExTantivyError(tantivy::TantivyError);

/// The single writer of an index, `tantivy::IndexWriter`. It is held here
/// because its declaration is generic over a trait of the engine.
#[verifier::external_body]
pub struct DocumentWriter {
    inner: tantivy::IndexWriter,
}

/// A parsed query, the `Box<dyn tantivy::query::Query>` that the parser
/// hands out.
#[verifier::external_body]
pub struct ParsedQuery {
    inner: Box<dyn tantivy::query::Query>,
}

/// A document of two text values, as the index receives it.
pub open spec fn two_values(
    text_field: u32,
    text: Seq<char>,
    key_field: u32,
    key: Seq<char>,
) -> Seq<(u32, Seq<char>)> {
    seq![(text_field, text), (key_field, key)]
}

/// Whether the document was given `text` under `field`.
pub open spec fn has_value(document: Seq<(u32, Seq<char>)>, field: u32, text: Seq<char>) -> bool {
    exists|i: int| 0 <= i < document.len() && #[trigger] document[i] == (field, text)
}

/// No documents.
pub open spec fn no_documents() -> Multiset<Seq<(u32, Seq<char>)>> {
    Multiset::empty()
}

/// The fields of `schema`: the number of each, by its name.
pub uninterp spec fn schema_fields(schema: tantivy::schema::Schema) -> Map<Seq<char>, u32>;

/// The fields of the schema of `index`: the number of each, by its name.
pub uninterp spec fn index_fields(index: tantivy::Index) -> Map<Seq<char>, u32>;

/// The documents that the next commit of `writer` will publish.
pub uninterp spec fn writer_staged(writer: DocumentWriter) -> Multiset<Seq<(u32, Seq<char>)>>;

/// The documents that the last commit on the index of `writer` published.
pub uninterp spec fn writer_published(writer: DocumentWriter) -> Multiset<
    Seq<(u32, Seq<char>)>,
>;

/// The documents that `searcher` sees, by address: segment, then position
/// in the segment.
pub uninterp spec fn snapshot_documents(searcher: tantivy::Searcher) -> Map<
    (u32, u32),
    Seq<(u32, Seq<char>)>,
>;

/// The text that `searcher` reads back, by the address of a document and
/// the number of a field: the first value that the document has stored
/// under the field, where that value is a text. Where the document cannot
/// be read, has no stored value under the field, or has one that is no
/// text, there is no entry.
pub uninterp spec fn snapshot_stored(searcher: tantivy::Searcher) -> Map<
    ((u32, u32), u32),
    Seq<char>,
>;

/// The keys of the built-in symbols whose annotations match `term`
/// fuzzily, best match first.
pub uninterp spec fn annotation_matches(term: Seq<char>) -> Seq<Seq<char>>;

/// The text that is read back at `address` under `field`, if any is.
pub open spec fn stored_value(
    stored: Map<((u32, u32), u32), Seq<char>>,
    field: u32,
    address: (u32, u32),
) -> Option<Seq<char>> {
    if stored.dom().contains((address, field)) {
        Some(stored[(address, field)])
    } else {
        None
    }
}

/// The characters of an optional string.
pub open spec fn optional_text(text: Option<String>) -> Option<Seq<char>> {
    match text {
        Some(text) => Some(text@),
        None => None,
    }
}

/// Whether `searcher` sees exactly `count` documents.
pub open spec fn snapshot_size_is(searcher: tantivy::Searcher, count: nat) -> bool {
    snapshot_documents(searcher).dom().finite() && snapshot_documents(searcher).dom().len()
        == count
}

/// The field that is there under `name`, if one is.
pub open spec fn field_named(fields: Map<Seq<char>, u32>, name: Seq<char>) -> Option<u32> {
    if fields.dom().contains(name) {
        Some(fields[name])
    } else {
        None
    }
}

/// Whether the schema of `index` has `field` under some name.
pub open spec fn is_field_of(index: tantivy::Index, field: u32) -> bool {
    exists|name: Seq<char>| #[trigger]
        index_fields(index).dom().contains(name) && index_fields(index)[name] == field
}

/// Two fields, numbered 0 and 1 in this order.
pub open spec fn two_fields(first: Seq<char>, second: Seq<char>) -> Map<Seq<char>, u32> {
    Map::<Seq<char>, u32>::empty().insert(first, 0u32).insert(second, 1u32)
}

/// Whether a field can have the name: it is not empty and does not start
/// with a hyphen.
pub open spec fn is_field_name(name: Seq<char>) -> bool {
    name.len() > 0 && name[0] != '-'
}

/// `Schema::builder`, `SchemaBuilder::add_text_field` twice, then
/// `SchemaBuilder::build`: a schema of two text fields. The first is
/// searchable; the second is searchable and stored. Fields are numbered in
/// the order they are added, from 0.
#[verifier::external_body]
pub(crate) fn text_schema(searched: &str, kept: &str) -> (r: tantivy::schema::Schema)
    requires
        is_field_name(searched@),
        is_field_name(kept@),
        searched@ != kept@,
    ensures
        schema_fields(r) == two_fields(searched@, kept@),
{
    let mut builder = tantivy::schema::Schema::builder();
    builder.add_text_field(searched, tantivy::schema::TEXT);
    builder.add_text_field(kept, tantivy::schema::TEXT | tantivy::schema::STORED);
    builder.build()
}

/// `Index::create_in_ram`: a fresh index in memory, with the given schema.
#[verifier::external_body]
pub(crate) fn memory_index(schema: tantivy::schema::Schema) -> (r: tantivy::Index)
    ensures
        index_fields(r) == schema_fields(schema),
{
    tantivy::Index::create_in_ram(schema)
}

/// `Schema::get_field` on the schema of the index: the field under `name`,
/// by its number, if the schema has one.
#[verifier::external_body]
pub(crate) fn find_field(index: &tantivy::Index, name: &str) -> (r: Option<u32>)
    ensures
        r == field_named(index_fields(*index), name@),
{
    index.schema().get_field(name).ok().map(|field| field.field_id())
}

/// `Index::writer`: opens the writer of the index with the given memory
/// budget. A writer that has just been opened has staged exactly what is
/// published.
#[verifier::external_body]
pub(crate) fn open_writer(index: &tantivy::Index, budget: usize) -> (r: Result<
    DocumentWriter,
    tantivy::TantivyError,
>)
    ensures
        r matches Ok(writer) ==> writer_staged(writer) == writer_published(writer),
{
    index.writer(budget).map(|inner| DocumentWriter { inner })
}

/// `IndexWriter::delete_all_documents`: drops every document of the index
/// from what the next commit will publish. It is called with nothing staged
/// beyond what is published.
#[verifier::external_body]
pub(crate) fn clear_documents(writer: &mut DocumentWriter) -> (r: Result<
    (),
    tantivy::TantivyError,
>)
    requires
        writer_staged(*old(writer)) == writer_published(*old(writer)),
    ensures
        r is Ok ==> writer_staged(*final(writer)) == no_documents(),
        r is Ok ==> writer_published(*final(writer)) == writer_published(*old(writer)),
{
    writer.inner.delete_all_documents().map(|_| ())
}

/// `IndexWriter::add_document`, on a document of two text values: stages
/// one more document.
#[verifier::external_body]
pub(crate) fn add_document(
    writer: &mut DocumentWriter,
    text_field: u32,
    text: &str,
    key_field: u32,
    key: &str,
) -> (r: Result<(), tantivy::TantivyError>)
    ensures
        r is Ok ==> writer_staged(*final(writer)) == writer_staged(*old(writer)).insert(
            two_values(text_field, text@, key_field, key@),
        ),
        r is Ok ==> writer_published(*final(writer)) == writer_published(*old(writer)),
{
    let mut document = tantivy::TantivyDocument::default();
    document.add_text(tantivy::schema::Field::from_field_id(text_field), text);
    document.add_text(tantivy::schema::Field::from_field_id(key_field), key);
    writer.inner.add_document(document).map(|_| ())
}

/// `IndexWriter::commit`: publishes what is staged, all of it or, on an
/// error, nothing that this contract speaks of.
#[verifier::external_body]
pub(crate) fn commit(writer: &mut DocumentWriter) -> (r: Result<(), tantivy::TantivyError>)
    ensures
        r is Ok ==> writer_published(*final(writer)) == writer_staged(*old(writer)),
        r is Ok ==> writer_staged(*final(writer)) == writer_staged(*old(writer)),
{
    writer.inner.commit().map(|_| ())
}

/// `Index::reader` on the index of the writer, then `IndexReader::searcher`:
/// a view of what is published. Every document it sees is a published one,
/// and every published document is seen at some address.
#[verifier::external_body]
pub(crate) fn open_searcher(writer: &DocumentWriter) -> (r: Result<
    tantivy::Searcher,
    tantivy::TantivyError,
>)
    ensures
        r matches Ok(searcher) ==> forall|address: (u32, u32)|
            snapshot_documents(searcher).dom().contains(address) ==> writer_published(
                *writer,
            ).contains(#[trigger] snapshot_documents(searcher)[address]),
        r matches Ok(searcher) ==> forall|document: Seq<(u32, Seq<char>)>| #[trigger]
            writer_published(*writer).contains(document) ==> exists|address: (u32, u32)|
                snapshot_documents(searcher).dom().contains(address) && snapshot_documents(
                    searcher,
                )[address] == document,
{
    writer.inner.index().reader().map(|reader| reader.searcher())
}

/// `Searcher::num_docs`: how many documents the searcher sees.
#[verifier::external_body]
pub(crate) fn document_count(searcher: &tantivy::Searcher) -> (r: u64)
    ensures
        snapshot_size_is(*searcher, r as nat),
{
    searcher.num_docs()
}

/// `QueryParser::for_index`: a parser that searches the two given fields
/// of the index where the query names none.
#[verifier::external_body]
pub(crate) fn query_parser(index: &tantivy::Index, text_field: u32, key_field: u32) -> (r:
    tantivy::query::QueryParser)
    requires
        is_field_of(*index, text_field),
        is_field_of(*index, key_field),
{
    tantivy::query::QueryParser::for_index(
        index,
        vec![
            tantivy::schema::Field::from_field_id(text_field),
            tantivy::schema::Field::from_field_id(key_field),
        ],
    )
}

/// `QueryParser::parse_query`: the query that the text spells; `None` where
/// the parser rejects the text.
#[verifier::external_body]
pub(crate) fn parse_query(parser: &tantivy::query::QueryParser, text: &str) -> (r: Option<
    ParsedQuery,
>)
{
    parser.parse_query(text).ok().map(|inner| ParsedQuery { inner })
}

/// `Searcher::search` with `TopDocs::with_limit`: the addresses of the best
/// matches, best first, at most `limit` of them, each the address of a
/// document that the searcher sees.
#[verifier::external_body]
pub(crate) fn top_documents(
    searcher: &tantivy::Searcher,
    query: &ParsedQuery,
    limit: usize,
) -> (r: Result<Vec<(u32, u32)>, tantivy::TantivyError>)
    requires
        1 <= limit <= snapshot_documents(*searcher).dom().len(),
    ensures
        r matches Ok(hits) ==> hits@.len() <= limit,
        r matches Ok(hits) ==> forall|i: int|
            0 <= i < hits@.len() ==> snapshot_documents(*searcher).dom().contains(
                #[trigger] hits@[i],
            ),
{
    searcher.search(&*query.inner, &tantivy::collector::TopDocs::with_limit(limit)).map(
        |hits| hits.into_iter().map(|(_, at)| (at.segment_ord, at.doc_id)).collect(),
    )
}

/// `Searcher::doc`, then `TantivyDocument::get_first`: the first stored text
/// that the document at the address has under `field`, as the searcher
/// holds it. What comes back is a value that the document was given under
/// that field.
#[verifier::external_body]
pub(crate) fn stored_text(searcher: &tantivy::Searcher, field: u32, address: (u32, u32)) -> (r:
    Option<String>)
    requires
        snapshot_documents(*searcher).dom().contains(address),
    ensures
        optional_text(r) == stored_value(snapshot_stored(*searcher), field, address),
        r matches Some(text) ==> has_value(snapshot_documents(*searcher)[address], field, text@),
{
    let found = searcher.doc::<tantivy::TantivyDocument>(
        tantivy::DocAddress::new(address.0, address.1),
    );
    found.ok().and_then(
        |document|
            document.get_first(tantivy::schema::Field::from_field_id(field)).and_then(
                |value| value.as_str().map(|text| text.to_string()),
            ),
    )
}

/// The engine's own words for an error, as its `Display` gives them. They
/// may hold the operating system's message for a failure, so nothing is
/// said of them.
#[verifier::external_body]
pub(crate) fn error_text(error: &tantivy::TantivyError) -> (r: String) {
    format!("{}", error)
}

/// `emoji::search::search_annotation_all`: the keys of the built-in symbols
/// whose annotations match the term fuzzily, best match first.
#[verifier::external_body]
pub(crate) fn search_annotations(term: &str) -> (r: Vec<String>)
    ensures
        texts(r@) == annotation_matches(term@),
{
    emoji::search::search_annotation_all(term).into_iter().map(
        |found| found.glyph.to_string(),
    ).collect()
}

} // verus!
