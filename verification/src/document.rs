//! The document batch: one searchable document for every catalog entry that
//! is not a variant.
//!
//! A document carries the entry's key and one annotation text. The text
//! holds, joined by commas, every keyword of every annotation of the entry
//! whose language is among the negotiated languages, in catalog order. A
//! language that the entry has no annotation for adds nothing, and a
//! language that is named twice counts once.

use vstd::prelude::*;
use crate::catalog::{
    keys_unique, lemma_first_position, lemma_position_is_the_only_one, position_of, resolved,
    Annotation, SymbolEntry,
};
use crate::text::{same_text, texts};

verus! {

/// The keywords of the annotations whose language is among `langs`, in
/// catalog order.
pub open spec fn selected_keywords(annotations: Seq<Annotation>, langs: Seq<Seq<char>>) -> Seq<
    Seq<char>,
>
    decreases annotations.len(),
{
    if annotations.len() == 0 {
        Seq::empty()
    } else {
        let before = selected_keywords(annotations.drop_last(), langs);
        if langs.contains(annotations.last().lang@) {
            before + texts(annotations.last().keywords@)
        } else {
            before
        }
    }
}

/// The words with one comma between each two neighbours.
pub open spec fn comma_joined(words: Seq<Seq<char>>) -> Seq<char>
    decreases words.len(),
{
    if words.len() == 0 {
        Seq::empty()
    } else if words.len() == 1 {
        words[0]
    } else {
        comma_joined(words.drop_last()) + seq![','] + words.last()
    }
}

/// The annotation text of an entry under the given languages.
pub open spec fn annotation_text(entry: SymbolEntry, langs: Seq<Seq<char>>) -> Seq<char> {
    comma_joined(selected_keywords(entry.annotations@, langs))
}

/// What a document holds.
pub struct DocumentModel {
    pub annotation_text: Seq<char>,
    pub key: Seq<char>,
}

/// The document of one entry.
pub open spec fn document_of(entry: SymbolEntry, langs: Seq<Seq<char>>) -> DocumentModel {
    DocumentModel { annotation_text: annotation_text(entry, langs), key: entry.key@ }
}

/// The document batch of a catalog: the documents of its entries that are
/// not variants, in catalog order.
pub open spec fn documents_of(catalog: Seq<SymbolEntry>, langs: Seq<Seq<char>>) -> Seq<
    DocumentModel,
>
    decreases catalog.len(),
{
    if catalog.len() == 0 {
        Seq::empty()
    } else {
        let before = documents_of(catalog.drop_last(), langs);
        if catalog.last().is_variant {
            before
        } else {
            before.push(document_of(catalog.last(), langs))
        }
    }
}

/// One document of the index.
#[derive(Clone, Debug)]
pub struct IndexDocument {
    /// The keywords the entry is found by, joined by commas.
    pub annotation_text: String,
    /// The key of the entry, stored verbatim.
    pub key: String,
}

impl View for IndexDocument {
    type V = DocumentModel;

    open spec fn view(&self) -> DocumentModel {
        DocumentModel { annotation_text: self.annotation_text@, key: self.key@ }
    }
}

/// What the documents of a batch hold.
pub open spec fn batch_view(batch: Seq<IndexDocument>) -> Seq<DocumentModel> {
    Seq::new(batch.len(), |i: int| batch[i]@)
}

/// Whether `lang` is among `langs`.
pub fn has_language(langs: &Vec<String>, lang: &str) -> (r: bool)
    ensures
        r == texts(langs@).contains(lang@),
{
    let mut i: usize = 0;
    while i < langs.len()
        invariant
            i <= langs.len(),
            forall|j: int| 0 <= j < i ==> texts(langs@)[j] != lang@,
        decreases langs.len() - i,
    {
        if same_text(langs[i].as_str(), lang) {
            assert(texts(langs@)[i as int] == lang@);
            return true;
        }
        i += 1;
    }
    false
}

/// Appending a word to a list puts it behind a comma, unless it is the first.
pub proof fn lemma_comma_joined_push(words: Seq<Seq<char>>, word: Seq<char>)
    ensures
        comma_joined(words.push(word)) == if words.len() == 0 {
            word
        } else {
            comma_joined(words) + seq![','] + word
        },
{
    assert(words.push(word).drop_last() =~= words);
}

/// Builds the annotation text of an entry under the given languages.
pub fn build_annotation_text(entry: &SymbolEntry, langs: &Vec<String>) -> (r: String)
    ensures
        r@ == annotation_text(*entry, texts(langs@)),
{
    let mut out = String::new();
    let mut first: bool = true;
    let ghost mut words: Seq<Seq<char>> = Seq::empty();
    let mut i: usize = 0;
    assert(entry.annotations@.subrange(0, 0) =~= Seq::<Annotation>::empty());
    while i < entry.annotations.len()
        invariant
            i <= entry.annotations.len(),
            words == selected_keywords(entry.annotations@.subrange(0, i as int), texts(langs@)),
            out@ == comma_joined(words),
            first == (words.len() == 0),
        decreases entry.annotations.len() - i,
    {
        let annotation = &entry.annotations[i];
        proof {
            let now = entry.annotations@.subrange(0, i + 1);
            assert(now.drop_last() =~= entry.annotations@.subrange(0, i as int));
            assert(now.last() == *annotation);
        }
        if has_language(langs, annotation.lang.as_str()) {
            let ghost base = words;
            let mut j: usize = 0;
            assert(texts(annotation.keywords@).subrange(0, 0) =~= Seq::<Seq<char>>::empty());
            assert(base + Seq::<Seq<char>>::empty() =~= base);
            while j < annotation.keywords.len()
                invariant
                    j <= annotation.keywords.len(),
                    words == base + texts(annotation.keywords@).subrange(0, j as int),
                    out@ == comma_joined(words),
                    first == (words.len() == 0),
                decreases annotation.keywords.len() - j,
            {
                proof {
                    reveal_strlit(",");
                    lemma_comma_joined_push(words, annotation.keywords@[j as int]@);
                    assert(","@ =~= seq![',']);
                }
                if !first {
                    out.append(",");
                }
                out.append(annotation.keywords[j].as_str());
                first = false;
                proof {
                    let before = words;
                    words = words.push(annotation.keywords@[j as int]@);
                    assert(words =~= base + texts(annotation.keywords@).subrange(0, j + 1));
                    assert(Seq::<char>::empty() + annotation.keywords@[j as int]@
                        =~= annotation.keywords@[j as int]@);
                }
                j += 1;
            }
            assert(texts(annotation.keywords@).subrange(0, j as int) =~= texts(
                annotation.keywords@,
            ));
        }
        i += 1;
    }
    assert(entry.annotations@.subrange(0, i as int) =~= entry.annotations@);
    out
}

/// Builds the document batch of a catalog: one document for each entry that
/// is not a variant, in catalog order.
pub fn build_documents(catalog: &Vec<SymbolEntry>, langs: &Vec<String>) -> (r: Vec<IndexDocument>)
    ensures
        batch_view(r@) == documents_of(catalog@, texts(langs@)),
{
    let mut out: Vec<IndexDocument> = Vec::new();
    let mut i: usize = 0;
    assert(catalog@.subrange(0, 0) =~= Seq::<SymbolEntry>::empty());
    assert(batch_view(out@) =~= Seq::<DocumentModel>::empty());
    while i < catalog.len()
        invariant
            i <= catalog.len(),
            batch_view(out@) == documents_of(catalog@.subrange(0, i as int), texts(langs@)),
        decreases catalog.len() - i,
    {
        proof {
            let now = catalog@.subrange(0, i + 1);
            assert(now.drop_last() =~= catalog@.subrange(0, i as int));
            assert(now.last() == catalog@[i as int]);
        }
        if !catalog[i].is_variant {
            let ghost before = batch_view(out@);
            let document = IndexDocument {
                annotation_text: build_annotation_text(&catalog[i], langs),
                key: catalog[i].key.clone(),
            };
            out.push(document);
            assert(batch_view(out@) =~= before.push(document_of(catalog@[i as int], texts(langs@))));
        }
        i += 1;
    }
    assert(catalog@.subrange(0, i as int) =~= catalog@);
    out
}

/// Every document of a batch belongs to an entry that is not a variant,
/// and every such entry has its document in the batch.
pub proof fn lemma_documents_of_entries(catalog: Seq<SymbolEntry>, langs: Seq<Seq<char>>)
    ensures
        forall|i: int|
            0 <= i < documents_of(catalog, langs).len() ==> exists|j: int|
                0 <= j < catalog.len() && !catalog[j].is_variant && #[trigger] documents_of(
                    catalog,
                    langs,
                )[i] == document_of(#[trigger] catalog[j], langs),
        forall|j: int|
            0 <= j < catalog.len() && !(#[trigger] catalog[j]).is_variant ==> documents_of(
                catalog,
                langs,
            ).contains(document_of(catalog[j], langs)),
        documents_of(catalog, langs).len() <= catalog.len(),
    decreases catalog.len(),
{
    if catalog.len() > 0 {
        let before = catalog.drop_last();
        let batch = documents_of(catalog, langs);
        let earlier = documents_of(before, langs);
        lemma_documents_of_entries(before, langs);
        assert forall|i: int| 0 <= i < batch.len() implies exists|j: int|
            0 <= j < catalog.len() && !catalog[j].is_variant && #[trigger] batch[i] == document_of(
                #[trigger] catalog[j],
                langs,
            ) by {
            if i < earlier.len() {
                let j = choose|j: int|
                    0 <= j < before.len() && !before[j].is_variant && earlier[i] == document_of(
                        #[trigger] before[j],
                        langs,
                    );
                assert(batch[i] == document_of(catalog[j], langs));
            } else {
                assert(batch[i] == document_of(catalog[catalog.len() - 1], langs));
            }
        }
        assert forall|j: int| 0 <= j < catalog.len() && !(#[trigger] catalog[j]).is_variant implies batch.contains(
            document_of(catalog[j], langs),
        ) by {
            if j < before.len() {
                assert(!before[j].is_variant);
                let i = choose|i: int|
                    0 <= i < earlier.len() && earlier[i] == document_of(before[j], langs);
                assert(batch[i] == document_of(catalog[j], langs));
            } else {
                assert(batch[batch.len() - 1] == document_of(catalog[j], langs));
            }
        }
    }
}

/// No document is made for a variant: in a catalog whose keys are unique,
/// the key of a variant is the key of no document of the batch.
pub proof fn lemma_variants_have_no_document(
    catalog: Seq<SymbolEntry>,
    langs: Seq<Seq<char>>,
    variant: int,
)
    requires
        keys_unique(catalog),
        0 <= variant < catalog.len(),
        catalog[variant].is_variant,
    ensures
        forall|i: int|
            0 <= i < documents_of(catalog, langs).len() ==> (#[trigger] documents_of(
                catalog,
                langs,
            )[i]).key != catalog[variant].key@,
{
    lemma_documents_of_entries(catalog, langs);
    let batch = documents_of(catalog, langs);
    assert forall|i: int| 0 <= i < batch.len() implies (#[trigger] batch[i]).key
        != catalog[variant].key@ by {
        let j = choose|j: int|
            0 <= j < catalog.len() && !catalog[j].is_variant && batch[i] == document_of(
                #[trigger] catalog[j],
                langs,
            );
        if j < variant {
            assert(catalog[j].key@ != catalog[variant].key@);
        } else {
            assert(catalog[variant].key@ != catalog[j].key@);
        }
    }
}

/// Languages count once, in any order: two lists that name the same
/// languages select the same keywords, so the default language that
/// trails a negotiation adds nothing where it was negotiated already.
pub proof fn lemma_languages_count_once(
    annotations: Seq<Annotation>,
    first: Seq<Seq<char>>,
    second: Seq<Seq<char>>,
)
    requires
        forall|lang: Seq<char>| first.contains(lang) <==> second.contains(lang),
    ensures
        selected_keywords(annotations, first) == selected_keywords(annotations, second),
    decreases annotations.len(),
{
    if annotations.len() > 0 {
        lemma_languages_count_once(annotations.drop_last(), first, second);
    }
}

/// The batch of a catalog is the same under two lists that name the same
/// languages.
pub proof fn lemma_documents_for_same_languages(
    catalog: Seq<SymbolEntry>,
    first: Seq<Seq<char>>,
    second: Seq<Seq<char>>,
)
    requires
        forall|lang: Seq<char>| first.contains(lang) <==> second.contains(lang),
    ensures
        documents_of(catalog, first) == documents_of(catalog, second),
    decreases catalog.len(),
{
    if catalog.len() > 0 {
        lemma_documents_for_same_languages(catalog.drop_last(), first, second);
        lemma_languages_count_once(catalog.last().annotations@, first, second);
    }
}

/// A key of the batch resolves to an entry that is not a variant: in a
/// catalog whose keys are unique, the entry that the key of a document
/// resolves to is the entry the document was made for.
pub proof fn lemma_document_keys_resolve(
    catalog: Seq<SymbolEntry>,
    langs: Seq<Seq<char>>,
    document: int,
)
    requires
        keys_unique(catalog),
        0 <= document < documents_of(catalog, langs).len(),
    ensures
        position_of(catalog, documents_of(catalog, langs)[document].key) is Some,
        !catalog[position_of(catalog, documents_of(catalog, langs)[document].key)->0].is_variant,
        documents_of(catalog, langs)[document] == document_of(
            catalog[position_of(catalog, documents_of(catalog, langs)[document].key)->0],
            langs,
        ),
{
    lemma_documents_of_entries(catalog, langs);
    let batch = documents_of(catalog, langs);
    let j = choose|j: int|
        0 <= j < catalog.len() && !catalog[j].is_variant && batch[document] == document_of(
            #[trigger] catalog[j],
            langs,
        );
    lemma_position_is_the_only_one(catalog, batch[document].key, j);
}

/// Whether `key` is the key of a document of the batch.
pub open spec fn is_document_key(
    catalog: Seq<SymbolEntry>,
    langs: Seq<Seq<char>>,
    key: Seq<char>,
) -> bool {
    exists|i: int|
        0 <= i < documents_of(catalog, langs).len() && (#[trigger] documents_of(
            catalog,
            langs,
        )[i]).key == key
}

/// Keys read back from an index of the batch all resolve, and never to a
/// variant: in a catalog whose keys are unique, keys that are keys of
/// documents of the batch resolve one for one, each to the entry that is
/// not a variant and has the key.
pub proof fn lemma_document_keys_resolve_to_entries(
    catalog: Seq<SymbolEntry>,
    langs: Seq<Seq<char>>,
    keys: Seq<Seq<char>>,
)
    requires
        keys_unique(catalog),
        forall|j: int| 0 <= j < keys.len() ==> is_document_key(catalog, langs, #[trigger] keys[j]),
    ensures
        resolved(catalog, keys).len() == keys.len(),
        forall|j: int|
            0 <= j < keys.len() ==> {
                &&& 0 <= (#[trigger] resolved(catalog, keys)[j]) < catalog.len()
                &&& catalog[resolved(catalog, keys)[j]].key@ == keys[j]
                &&& !catalog[resolved(catalog, keys)[j]].is_variant
            },
    decreases keys.len(),
{
    if keys.len() > 0 {
        let before = keys.drop_last();
        assert forall|j: int| 0 <= j < before.len() implies is_document_key(
            catalog,
            langs,
            #[trigger] before[j],
        ) by {
            assert(before[j] == keys[j]);
        }
        lemma_document_keys_resolve_to_entries(catalog, langs, before);
        let last = keys.len() - 1;
        assert(is_document_key(catalog, langs, keys[last]));
        let i = choose|i: int|
            0 <= i < documents_of(catalog, langs).len() && (#[trigger] documents_of(
                catalog,
                langs,
            )[i]).key == keys[last];
        lemma_document_keys_resolve(catalog, langs, i);
        lemma_first_position(catalog, keys[last], 0);
        let all = resolved(catalog, keys);
        assert forall|j: int| 0 <= j < keys.len() implies {
            &&& 0 <= (#[trigger] all[j]) < catalog.len()
            &&& catalog[all[j]].key@ == keys[j]
            &&& !catalog[all[j]].is_variant
        } by {
            if j < last {
                assert(all[j] == resolved(catalog, before)[j]);
                assert(before[j] == keys[j]);
            }
        }
    }
}

/// Whether `word` stands in `text` at `offset`.
pub open spec fn occurs_at(text: Seq<char>, word: Seq<char>, offset: int) -> bool {
    0 <= offset && offset + word.len() <= text.len() && text.subrange(
        offset,
        offset + word.len(),
    ) == word
}

/// Every word of a list stands in the joined text.
pub proof fn lemma_joined_holds_word(words: Seq<Seq<char>>, at: int)
    requires
        0 <= at < words.len(),
    ensures
        exists|offset: int| occurs_at(comma_joined(words), words[at], offset),
    decreases words.len(),
{
    let joined = comma_joined(words);
    if words.len() == 1 {
        assert(joined.subrange(0, joined.len() as int) =~= joined);
        assert(occurs_at(joined, words[at], 0));
    } else {
        let before = words.drop_last();
        let head = comma_joined(before);
        if at == words.len() - 1 {
            let offset: int = head.len() as int + 1;
            assert(joined.subrange(offset, offset + words[at].len()) =~= words[at]);
            assert(occurs_at(joined, words[at], offset));
        } else {
            lemma_joined_holds_word(before, at);
            let offset = choose|offset: int| occurs_at(head, before[at], offset);
            assert(joined.subrange(offset, offset + words[at].len()) =~= head.subrange(
                offset,
                offset + words[at].len(),
            ));
            assert(occurs_at(joined, words[at], offset));
        }
    }
}

/// The keywords of an annotation whose language is among `langs` are all
/// selected, in their order, whatever the other annotations are.
pub proof fn lemma_selected_holds_keywords(
    annotations: Seq<Annotation>,
    langs: Seq<Seq<char>>,
    at: int,
    word: int,
)
    requires
        0 <= at < annotations.len(),
        langs.contains(annotations[at].lang@),
        0 <= word < annotations[at].keywords@.len(),
    ensures
        selected_keywords(annotations, langs).contains(annotations[at].keywords@[word]@),
    decreases annotations.len(),
{
    let before = selected_keywords(annotations.drop_last(), langs);
    let all = selected_keywords(annotations, langs);
    if at == annotations.len() - 1 {
        let own = texts(annotations[at].keywords@);
        assert(all == before + own);
        assert(all[before.len() + word] == own[word]);
    } else {
        lemma_selected_holds_keywords(annotations.drop_last(), langs, at, word);
        let i = choose|i: int|
            0 <= i < before.len() && before[i] == annotations[at].keywords@[word]@;
        assert(all[i] == before[i]);
    }
}

/// Languages accumulate: each keyword of each annotation of an entry whose
/// language is among `langs` stands in the entry's annotation text, so an
/// entry described in two of the languages is found by the keywords of
/// both.
pub proof fn lemma_annotation_text_holds_keyword(
    entry: SymbolEntry,
    langs: Seq<Seq<char>>,
    at: int,
    word: int,
)
    requires
        0 <= at < entry.annotations@.len(),
        langs.contains(entry.annotations@[at].lang@),
        0 <= word < entry.annotations@[at].keywords@.len(),
    ensures
        exists|offset: int|
            occurs_at(
                annotation_text(entry, langs),
                entry.annotations@[at].keywords@[word]@,
                offset,
            ),
{
    lemma_selected_holds_keywords(entry.annotations@, langs, at, word);
    let words = selected_keywords(entry.annotations@, langs);
    let i = choose|i: int|
        0 <= i < words.len() && words[i] == entry.annotations@[at].keywords@[word]@;
    lemma_joined_holds_word(words, i);
    let offset = choose|offset: int| occurs_at(comma_joined(words), words[i], offset);
    assert(occurs_at(
        annotation_text(entry, langs),
        entry.annotations@[at].keywords@[word]@,
        offset,
    ));
}

} // verus!
