//! The query engines: free text in, positions of catalog entries out, best
//! match first.

use vstd::prelude::*;
use crate::catalog::{indices, resolve_keys, resolved, SymbolEntry};
use crate::document::{documents_of, is_document_key, DocumentModel};
use crate::engine::{
    annotation_matches, document_count, index_fields, open_searcher, parse_query, query_parser,
    search_annotations, snapshot_documents, snapshot_stored, stored_text, stored_value,
    top_documents, writer_published,
};
use crate::store::{
    engine_failure, extract_fields, index_in_memory, lemma_fresh_fields_pair,
    lemma_stored_batch_contains, pair_in, stored, update_index, DataPair, IndexError,
};
use crate::text::texts;

verus! {

/// Something that answers a query with entries of a catalog.
pub trait SearchEngine {
    /// Searches for `emoji` and returns the positions of the entries found,
    /// best match first.
    fn search_emojis(&self, catalog: &Vec<SymbolEntry>, emoji: &str, max_count: u32) -> (r: Vec<
        usize,
    >)
        ensures
            forall|i: int| 0 <= i < r@.len() ==> (#[trigger] r@[i]) < catalog@.len(),
    ;
}

/// The fuzzy matcher over the annotations of the built-in symbols.
pub struct DefSearch {
    lang: String,
}

impl DefSearch {
    /// A matcher for the given language.
    pub fn new(lang: String) -> (r: Self)
        ensures
            r.language() == lang@,
    {
        DefSearch { lang }
    }

    /// The language the matcher was made for.
    pub closed spec fn language(&self) -> Seq<char> {
        self.lang@
    }

    /// The language the matcher was made for.
    pub fn lang(&self) -> (r: &str)
        ensures
            r@ == self.language(),
    {
        self.lang.as_str()
    }
}

impl SearchEngine for DefSearch {
    /// Matches `emoji` fuzzily against the annotations of the built-in
    /// symbols, in every language they come with, and resolves what matched
    /// against the catalog. Every match is returned; there is no bound.
    fn search_emojis(&self, catalog: &Vec<SymbolEntry>, emoji: &str, max_count: u32) -> (r: Vec<
        usize,
    >)
        ensures
            indices(r@) == resolved(catalog@, annotation_matches(emoji@)),
    {
        let keys = search_annotations(emoji);
        resolve_keys(catalog, &keys)
    }
}

/// Whether a document of the index has the form that this library gives
/// its documents.
pub open spec fn is_stored_form(document: Seq<(u32, Seq<char>)>, fields: DataPair) -> bool {
    document.len() == 2 && document[0].0 == fields.annotation && document[1].0 == fields.glyph
}

/// The document that a document of the index in that form stands for.
pub open spec fn read_back(document: Seq<(u32, Seq<char>)>) -> DocumentModel {
    DocumentModel { annotation_text: document[0].1, key: document[1].1 }
}

/// The texts read back under `field` at the addresses, in the order of the
/// addresses; an address that gives no text adds nothing.
pub open spec fn texts_read(
    stored: Map<((u32, u32), u32), Seq<char>>,
    field: u32,
    addresses: Seq<(u32, u32)>,
) -> Seq<Seq<char>>
    decreases addresses.len(),
{
    if addresses.len() == 0 {
        Seq::empty()
    } else {
        let before = texts_read(stored, field, addresses.drop_last());
        match stored_value(stored, field, addresses.last()) {
            Some(text) => before.push(text),
            None => before,
        }
    }
}

/// The ranked search over an index of the catalog's documents.
pub struct TantivySearch {
    searcher: tantivy::Searcher,
    fields: DataPair,
    query_parser: tantivy::query::QueryParser,
}

impl TantivySearch {
    /// Every document that searches run over has two values, its text
    /// under the annotation field and then its key under the key field, and
    /// the two fields differ.
    #[verifier::type_invariant]
    spec fn well_formed(self) -> bool {
        &&& self.fields.annotation != self.fields.glyph
        &&& forall|address: (u32, u32)|
            snapshot_documents(self.searcher).dom().contains(address) ==> is_stored_form(
                #[trigger] snapshot_documents(self.searcher)[address],
                self.fields,
            )
    }

    /// The documents that searches run over.
    pub closed spec fn documents(self) -> Set<DocumentModel> {
        Set::new(
            |document: DocumentModel|
                exists|address: (u32, u32)|
                    snapshot_documents(self.searcher).dom().contains(address)
                        && #[trigger] snapshot_documents(self.searcher)[address] == stored(
                        document,
                        self.fields,
                    ),
        )
    }

    /// Whether some document that searches run over has the key `key`.
    pub open spec fn has_key(self, key: Seq<char>) -> bool {
        exists|document: DocumentModel| #[trigger]
            self.documents().contains(document) && document.key == key
    }

    /// A search over a fresh index in memory, built for the catalog under
    /// the given languages. Only the engine can fail here.
    pub fn in_memory(catalog: &Vec<SymbolEntry>, langs: &Vec<String>) -> (r: Result<
        TantivySearch,
        IndexError,
    >)
        ensures
            r matches Ok(search) ==> search.documents() == documents_of(
                catalog@,
                texts(langs@),
            ).to_set(),
            r matches Err(error) ==> error is Engine,
    {
        let index = index_in_memory();
        proof {
            lemma_fresh_fields_pair();
        }
        TantivySearch::new(&index, catalog, langs)
    }

    /// Rebuilds the index for the catalog under the given languages and
    /// opens the one view of it that every later search uses.
    ///
    /// The index must have a field named `annotation` and another named
    /// `glyph`; where it does not, the result is `Incompatible`, and it is
    /// so only then. Any other failure is the engine's. On success the view
    /// holds exactly the documents of the catalog's entries that are not
    /// variants.
    pub fn new(index: &tantivy::Index, catalog: &Vec<SymbolEntry>, langs: &Vec<String>) -> (r:
        Result<TantivySearch, IndexError>)
        ensures
            r matches Ok(search) ==> search.documents() == documents_of(
                catalog@,
                texts(langs@),
            ).to_set(),
            pair_in(index_fields(*index)) is None <==> (r matches Err(error)
                && error is Incompatible),
    {
        let fields = match extract_fields(index) {
            Ok(fields) => fields,
            Err(error) => {
                return Err(error);
            },
        };
        let writer = match update_index(index, catalog, langs, fields) {
            Ok(writer) => writer,
            Err(error) => {
                return Err(error);
            },
        };
        let query_parser = query_parser(index, fields.annotation, fields.glyph);
        let searcher = match open_searcher(&writer) {
            Ok(searcher) => searcher,
            Err(error) => {
                return Err(engine_failure(&error));
            },
        };
        let ghost batch = documents_of(catalog@, texts(langs@));
        proof {
            assert forall|address: (u32, u32)|
                snapshot_documents(searcher).dom().contains(address) implies is_stored_form(
                #[trigger] snapshot_documents(searcher)[address],
                fields,
            ) by {
                lemma_stored_batch_contains(batch, fields, snapshot_documents(searcher)[address]);
            }
        }
        let search = TantivySearch { searcher, fields, query_parser };
        proof {
            assert forall|document: DocumentModel|
                search.documents().contains(document) <==> batch.to_set().contains(
                    document,
                ) by {
                lemma_stored_batch_contains(batch, fields, stored(document, fields));
                if search.documents().contains(document) {
                    let i = choose|i: int|
                        0 <= i < batch.len() && stored(document, fields) == stored(
                            #[trigger] batch[i],
                            fields,
                        );
                    assert(stored(document, fields)[0] == stored(batch[i], fields)[0]);
                    assert(stored(document, fields)[1] == stored(batch[i], fields)[1]);
                    assert(batch[i] == document);
                }
                if batch.to_set().contains(document) {
                    let i = choose|i: int| 0 <= i < batch.len() && batch[i] == document;
                    assert(stored(document, fields) == stored(batch[i], fields));
                    assert(writer_published(writer).contains(stored(document, fields)));
                }
            }
            assert(search.documents() =~= batch.to_set());
        }
        Ok(search)
    }
}

impl TantivySearch {
    /// Reads back the keys of the documents at the given addresses, in
    /// their order. An address whose document gives no key is passed over.
    fn stored_keys(&self, hits: &Vec<(u32, u32)>) -> (r: Vec<String>)
        requires
            forall|i: int|
                0 <= i < hits@.len() ==> snapshot_documents(self.searcher).dom().contains(
                    #[trigger] hits@[i],
                ),
        ensures
            texts(r@) == texts_read(
                snapshot_stored(self.searcher),
                self.fields.glyph,
                hits@,
            ),
            r@.len() <= hits@.len(),
            forall|i: int| 0 <= i < r@.len() ==> self.has_key(#[trigger] texts(r@)[i]),
    {
        proof {
            use_type_invariant(self);
        }
        let mut keys: Vec<String> = Vec::new();
        let mut i: usize = 0;
        assert(hits@.subrange(0, 0) =~= Seq::<(u32, u32)>::empty());
        assert(texts(keys@) =~= Seq::<Seq<char>>::empty());
        while i < hits.len()
            invariant
                i <= hits@.len(),
                keys@.len() <= i,
                texts(keys@) == texts_read(
                    snapshot_stored(self.searcher),
                    self.fields.glyph,
                    hits@.subrange(0, i as int),
                ),
                forall|j: int| 0 <= j < keys@.len() ==> self.has_key(#[trigger] texts(keys@)[j]),
                forall|j: int|
                    0 <= j < hits@.len() ==> snapshot_documents(self.searcher).dom().contains(
                        #[trigger] hits@[j],
                    ),
                self.well_formed(),
            decreases hits.len() - i,
        {
            let address = hits[i];
            proof {
                let now = hits@.subrange(0, i + 1);
                assert(now.drop_last() =~= hits@.subrange(0, i as int));
                assert(now.last() == address);
            }
            match stored_text(&self.searcher, self.fields.glyph, address) {
                Some(key) => {
                    proof {
                        let found = snapshot_documents(self.searcher)[address];
                        let document = read_back(found);
                        assert(found =~= stored(document, self.fields));
                        assert(self.documents().contains(document));
                        let at = choose|at: int|
                            0 <= at < found.len() && #[trigger] found[at] == (
                                self.fields.glyph,
                                key@,
                            );
                        assert(at == 1);
                        assert(self.has_key(key@));
                    }
                    let ghost before = texts(keys@);
                    keys.push(key);
                    assert(texts(keys@) =~= before.push(key@));
                },
                None => {},
            }
            i += 1;
        }
        assert(hits@.subrange(0, i as int) =~= hits@);
        keys
    }
}

/// A search built for a catalog reads back keys of that catalog's batch
/// only, so by `lemma_document_keys_resolve_to_entries` it finds no
/// variant and drops nothing while the catalog's keys are unique.
pub proof fn lemma_search_keys_are_document_keys(
    search: TantivySearch,
    catalog: Seq<SymbolEntry>,
    langs: Seq<Seq<char>>,
    key: Seq<char>,
)
    requires
        search.documents() == documents_of(catalog, langs).to_set(),
        search.has_key(key),
    ensures
        is_document_key(catalog, langs, key),
{
    let document = choose|document: DocumentModel| #[trigger]
        search.documents().contains(document) && document.key == key;
    assert(documents_of(catalog, langs).to_set().contains(document));
    let i = choose|i: int|
        0 <= i < documents_of(catalog, langs).len() && documents_of(catalog, langs)[i]
            == document;
    assert(documents_of(catalog, langs)[i].key == key);
}

/// How many documents to ask the index for: as many as the caller takes,
/// but no more than the index holds.
pub fn result_limit(held: u64, max_count: u32) -> (r: usize)
    ensures
        r == if held < max_count {
            held as int
        } else {
            max_count as int
        },
{
    if held < max_count as u64 {
        held as usize
    } else {
        max_count as usize
    }
}

impl SearchEngine for TantivySearch {
    /// Searches the annotation texts and the keys for the terms of `emoji`
    /// and returns the entries of the best matches, best first.
    ///
    /// At most `max_count` documents are asked of the index. The key of
    /// each is read back, and the keys are resolved against the catalog as
    /// `resolve_keys` does; a key that no entry has is dropped. Text that
    /// the parser rejects, and any failure of the engine, give no result.
    fn search_emojis(&self, catalog: &Vec<SymbolEntry>, emoji: &str, max_count: u32) -> (r: Vec<
        usize,
    >)
        ensures
            r@.len() <= max_count,
            exists|keys: Seq<Seq<char>>|
                {
                    &&& keys.len() <= max_count
                    &&& forall|i: int| 0 <= i < keys.len() ==> self.has_key(#[trigger] keys[i])
                    &&& indices(r@) == resolved(catalog@, keys)
                },
    {
        let limit = result_limit(document_count(&self.searcher), max_count);
        let hits = if limit == 0 {
            Vec::new()
        } else {
            match parse_query(&self.query_parser, emoji) {
                Some(query) => match top_documents(&self.searcher, &query, limit) {
                    Ok(hits) => hits,
                    Err(_) => Vec::new(),
                },
                None => Vec::new(),
            }
        };
        let keys = self.stored_keys(&hits);
        let found = resolve_keys(catalog, &keys);
        assert(texts(keys@).len() <= max_count);
        found
    }
}

} // verus!
