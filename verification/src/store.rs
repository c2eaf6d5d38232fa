//! The index store: how an index on disk is opened or created, and how its
//! documents are replaced.
//!
//! Every start rebuilds the whole document set for the languages in use. A
//! rebuild drops what the index held and publishes the new batch in one
//! commit, so a reader sees the old set or the new one, never a part.

use vstd::prelude::*;
use vstd::multiset::Multiset;
use crate::catalog::SymbolEntry;
use crate::document::{batch_view, build_documents, documents_of, DocumentModel, IndexDocument};
use crate::engine::{
    add_document, clear_documents, commit, error_text, field_named, find_field, index_fields,
    memory_index, open_writer, schema_fields, text_schema, two_fields, two_values,
    writer_published, writer_staged, DocumentWriter,
};
use crate::text::texts;

verus! {

/// Memory that the writer of the index may use, in bytes.
pub const WRITER_BUDGET: usize = 15_000_000;

/// Why an index cannot serve.
#[derive(Debug)]
pub enum IndexError {
    /// The index lacks one of the two fields, or has one field under both
    /// names.
    Incompatible,
    /// The engine refused an operation; the text is the engine's own.
    Engine(String),
}

/// The two fields of a document, by their numbers in the schema.
#[derive(Clone, Copy, Debug)]
pub struct DataPair {
    /// The field of the annotation text.
    pub annotation: u32,
    /// The field of the key.
    pub glyph: u32,
}

/// What was found at the place where the index is kept.
#[derive(Clone, Copy, Debug)]
pub enum DirectoryState {
    /// There is no directory.
    Missing,
    /// There is a directory; it holds an index or it does not.
    Present { holds_index: bool },
    /// There is something that cannot be read as a directory of an index.
    Unusable,
}

/// What to do to have an index at that place.
#[derive(Clone, Copy, Debug, PartialEq, Eq, Structural)]
pub enum OpenPlan {
    /// Create the directory and its parents, then a fresh index in it.
    CreateDirectoryAndIndex,
    /// Create a fresh index in the directory.
    CreateIndex,
    /// Open the index that the directory holds.
    OpenIndex,
    /// Give up: the place is unusable, and nothing is repaired silently.
    Fail,
}

/// The plan for each state of the place.
pub open spec fn plan_for(state: DirectoryState) -> OpenPlan {
    match state {
        DirectoryState::Missing => OpenPlan::CreateDirectoryAndIndex,
        DirectoryState::Present { holds_index } => if holds_index {
            OpenPlan::OpenIndex
        } else {
            OpenPlan::CreateIndex
        },
        DirectoryState::Unusable => OpenPlan::Fail,
    }
}

/// Decides how to come by an index, given what was found at its place.
pub fn plan_open(state: DirectoryState) -> (r: OpenPlan)
    ensures
        r == plan_for(state),
{
    match state {
        DirectoryState::Missing => OpenPlan::CreateDirectoryAndIndex,
        DirectoryState::Present { holds_index } => {
            if holds_index {
                OpenPlan::OpenIndex
            } else {
                OpenPlan::CreateIndex
            }
        },
        DirectoryState::Unusable => OpenPlan::Fail,
    }
}

/// The name of the field that holds the annotation text.
pub open spec fn annotation_field_name() -> Seq<char> {
    "annotation"@
}

/// The name of the field that holds the key.
pub open spec fn glyph_field_name() -> Seq<char> {
    "glyph"@
}

/// The pair that two looked-up fields make: both must be there, and they
/// must differ.
pub open spec fn paired(annotation: Option<u32>, glyph: Option<u32>) -> Option<DataPair> {
    match (annotation, glyph) {
        (Some(a), Some(g)) => if a != g {
            Some(DataPair { annotation: a, glyph: g })
        } else {
            None
        },
        _ => None,
    }
}

/// Pairs the two fields that a schema was asked for.
pub fn pair_fields(annotation: Option<u32>, glyph: Option<u32>) -> (r: Result<
    DataPair,
    IndexError,
>)
    ensures
        match r {
            Ok(pair) => paired(annotation, glyph) == Some(pair),
            Err(error) => paired(annotation, glyph) is None && error is Incompatible,
        },
{
    match (annotation, glyph) {
        (Some(a), Some(g)) => {
            if a != g {
                Ok(DataPair { annotation: a, glyph: g })
            } else {
                Err(IndexError::Incompatible)
            }
        },
        _ => Err(IndexError::Incompatible),
    }
}

/// The fields of a fresh index: the annotation text first, then the key.
pub open spec fn fresh_fields() -> Map<Seq<char>, u32> {
    two_fields(annotation_field_name(), glyph_field_name())
}

/// The pair that the fields of an index make, if they make one.
pub open spec fn pair_in(fields: Map<Seq<char>, u32>) -> Option<DataPair> {
    paired(
        field_named(fields, annotation_field_name()),
        field_named(fields, glyph_field_name()),
    )
}

/// The two fields of a fresh index make a pair.
pub proof fn lemma_fresh_fields_pair()
    ensures
        pair_in(fresh_fields()) == Some(DataPair { annotation: 0, glyph: 1 }),
{
    reveal_strlit("annotation");
    reveal_strlit("glyph");
    assert("annotation"@.len() != "glyph"@.len());
}

/// The schema of a fresh index: the annotation text is searchable, the key
/// is searchable and stored.
pub fn index_schema() -> (r: tantivy::schema::Schema)
    ensures
        schema_fields(r) == fresh_fields(),
{
    proof {
        reveal_strlit("annotation");
        reveal_strlit("glyph");
        assert("annotation"@.len() != "glyph"@.len());
    }
    text_schema("annotation", "glyph")
}

/// A fresh index in memory, with the schema of this library.
pub fn index_in_memory() -> (r: tantivy::Index)
    ensures
        index_fields(r) == fresh_fields(),
{
    memory_index(index_schema())
}

/// Finds the two fields of a document in the schema of an index.
pub fn extract_fields(index: &tantivy::Index) -> (r: Result<DataPair, IndexError>)
    ensures
        match r {
            Ok(pair) => pair_in(index_fields(*index)) == Some(pair),
            Err(error) => pair_in(index_fields(*index)) is None && error is Incompatible,
        },
{
    let annotation = find_field(index, "annotation");
    let glyph = find_field(index, "glyph");
    pair_fields(annotation, glyph)
}

/// A document as the index receives it: its annotation text under the one
/// field, then its key under the other.
pub open spec fn stored(document: DocumentModel, fields: DataPair) -> Seq<(u32, Seq<char>)> {
    two_values(fields.annotation, document.annotation_text, fields.glyph, document.key)
}

/// A batch as the index receives it: its documents, each as often as the
/// batch holds it.
pub open spec fn stored_batch(batch: Seq<DocumentModel>, fields: DataPair) -> Multiset<
    Seq<(u32, Seq<char>)>,
>
    decreases batch.len(),
{
    if batch.len() == 0 {
        Multiset::empty()
    } else {
        stored_batch(batch.drop_last(), fields).insert(stored(batch.last(), fields))
    }
}

/// What an index publishes after a rebuild: the batch, whatever it
/// published before.
pub open spec fn rebuilt(
    previous: Multiset<Seq<(u32, Seq<char>)>>,
    batch: Seq<DocumentModel>,
    fields: DataPair,
) -> Multiset<Seq<(u32, Seq<char>)>> {
    stored_batch(batch, fields)
}

/// The failure that carries the given words of the engine.
pub fn engine_failure_with(words: String) -> (r: IndexError)
    ensures
        r matches IndexError::Engine(text) && text@ == words@,
{
    IndexError::Engine(words)
}

/// The engine's error as this library reports it: a failure of the engine
/// that carries the engine's own words for the error.
pub fn engine_failure(error: &tantivy::TantivyError) -> (r: IndexError)
    ensures
        r is Engine,
{
    engine_failure_with(error_text(error))
}

/// Replaces the documents of an index by a batch, in one commit.
///
/// The writer must have nothing staged beyond what is published, as a
/// writer that was just opened or has just committed does. Where the engine
/// refuses a step, its error comes back and nothing is said of the index.
pub fn rebuild(writer: &mut DocumentWriter, batch: &Vec<IndexDocument>, fields: DataPair) -> (r:
    Result<(), IndexError>)
    requires
        writer_staged(*old(writer)) == writer_published(*old(writer)),
    ensures
        r is Ok ==> writer_published(*final(writer)) == rebuilt(
            writer_published(*old(writer)),
            batch_view(batch@),
            fields,
        ),
        r is Ok ==> writer_staged(*final(writer)) == writer_published(*final(writer)),
        r matches Err(error) ==> error is Engine,
{
    match clear_documents(writer) {
        Ok(_) => {},
        Err(error) => {
            return Err(engine_failure(&error));
        },
    }
    let mut i: usize = 0;
    assert(batch_view(batch@).subrange(0, 0) =~= Seq::<DocumentModel>::empty());
    while i < batch.len()
        invariant
            i <= batch.len(),
            writer_staged(*writer) == stored_batch(
                batch_view(batch@).subrange(0, i as int),
                fields,
            ),
        decreases batch.len() - i,
    {
        proof {
            let now = batch_view(batch@).subrange(0, i + 1);
            assert(now.drop_last() =~= batch_view(batch@).subrange(0, i as int));
            assert(now.last() == batch@[i as int]@);
        }
        let added = add_document(
            writer,
            fields.annotation,
            batch[i].annotation_text.as_str(),
            fields.glyph,
            batch[i].key.as_str(),
        );
        match added {
            Ok(_) => {},
            Err(error) => {
                return Err(engine_failure(&error));
            },
        }
        i += 1;
    }
    assert(batch_view(batch@).subrange(0, i as int) =~= batch_view(batch@));
    match commit(writer) {
        Ok(_) => Ok(()),
        Err(error) => Err(engine_failure(&error)),
    }
}

/// Opens the writer of an index and replaces the documents of the index by
/// the batch of the catalog under the given languages.
pub fn update_index(
    index: &tantivy::Index,
    catalog: &Vec<SymbolEntry>,
    langs: &Vec<String>,
    fields: DataPair,
) -> (r: Result<DocumentWriter, IndexError>)
    ensures
        r matches Ok(writer) ==> writer_published(writer) == stored_batch(
            documents_of(catalog@, texts(langs@)),
            fields,
        ) && writer_staged(writer) == writer_published(writer),
        r matches Err(error) ==> error is Engine,
{
    let mut writer = match open_writer(index, WRITER_BUDGET) {
        Ok(writer) => writer,
        Err(error) => {
            return Err(engine_failure(&error));
        },
    };
    let batch = build_documents(catalog, langs);
    match rebuild(&mut writer, &batch, fields) {
        Ok(_) => Ok(writer),
        Err(error) => Err(error),
    }
}

/// A published document is the stored form of a document of the batch, and
/// every document of the batch is published.
pub proof fn lemma_stored_batch_contains(
    batch: Seq<DocumentModel>,
    fields: DataPair,
    document: Seq<(u32, Seq<char>)>,
)
    ensures
        stored_batch(batch, fields).contains(document) <==> exists|i: int|
            0 <= i < batch.len() && document == stored(#[trigger] batch[i], fields),
    decreases batch.len(),
{
    if batch.len() == 0 {
    } else {
        let before = batch.drop_last();
        lemma_stored_batch_contains(before, fields, document);
        if stored_batch(batch, fields).contains(document) {
            if document == stored(batch.last(), fields) {
                assert(document == stored(batch[batch.len() - 1], fields));
            } else {
                let i = choose|i: int|
                    0 <= i < before.len() && document == stored(#[trigger] before[i], fields);
                assert(document == stored(batch[i], fields));
            }
        }
        if exists|i: int| 0 <= i < batch.len() && document == stored(#[trigger] batch[i], fields) {
            let i = choose|i: int|
                0 <= i < batch.len() && document == stored(#[trigger] batch[i], fields);
            if i < before.len() {
                assert(document == stored(before[i], fields));
            }
        }
    }
}

/// Rebuilding replaces: what an index publishes after a rebuild does not
/// depend on what it published before, so rebuilding twice with the same
/// batch publishes what rebuilding once does.
pub proof fn lemma_rebuild_idempotent(
    previous: Multiset<Seq<(u32, Seq<char>)>>,
    other: Multiset<Seq<(u32, Seq<char>)>>,
    batch: Seq<DocumentModel>,
    fields: DataPair,
)
    ensures
        rebuilt(rebuilt(previous, batch, fields), batch, fields) == rebuilt(
            previous,
            batch,
            fields,
        ),
        rebuilt(previous, batch, fields) == rebuilt(other, batch, fields),
{
}

} // verus!
