//! The symbol catalog: an immutable table of entries, each identified by a
//! short textual key and carrying keyword annotations per language.
//!
//! The search layers never own catalog entries. They refer to an entry by its
//! position in the table, which is stable, copyable and comparable.

use vstd::prelude::*;
use crate::text::{same_text, texts};

verus! {

/// The keywords that describe one entry in one language.
#[derive(Clone, Debug)]
pub struct Annotation {
    /// Language tag of the keywords.
    pub lang: String,
    /// Keywords, in the order the catalog lists them.
    pub keywords: Vec<String>,
}

/// One symbol of the catalog.
#[derive(Debug)]
pub struct SymbolEntry {
    /// The symbol itself; unique within a catalog.
    pub key: String,
    /// Coarse category the symbol is listed under.
    pub group: String,
    /// Whether this entry is an alternate form of another entry.
    pub is_variant: bool,
    /// Alternate forms of this entry, presented through it.
    pub variants: Vec<SymbolEntry>,
    /// Keyword lists, one per language that describes the entry.
    pub annotations: Vec<Annotation>,
}

/// No two entries of the catalog share a key.
pub open spec fn keys_unique(catalog: Seq<SymbolEntry>) -> bool {
    forall|i: int, j: int|
        0 <= i < j < catalog.len() ==> (#[trigger] catalog[i]).key@ != (#[trigger] catalog[j]).key@
}

/// The least position at or after `from` whose entry has the key `key`; the
/// length of the catalog when there is none.
pub open spec fn first_position(catalog: Seq<SymbolEntry>, key: Seq<char>, from: int) -> int
    decreases catalog.len() - from,
{
    if from < 0 || from >= catalog.len() {
        catalog.len() as int
    } else if catalog[from].key@ == key {
        from
    } else {
        first_position(catalog, key, from + 1)
    }
}

/// The position of the first entry whose key is `key`, if there is one.
pub open spec fn position_of(catalog: Seq<SymbolEntry>, key: Seq<char>) -> Option<int> {
    if first_position(catalog, key, 0) < catalog.len() {
        Some(first_position(catalog, key, 0))
    } else {
        None
    }
}

/// The positions that the keys resolve to, in the order of the keys; a key
/// that no entry has is dropped.
pub open spec fn resolved(catalog: Seq<SymbolEntry>, keys: Seq<Seq<char>>) -> Seq<int>
    decreases keys.len(),
{
    if keys.len() == 0 {
        Seq::empty()
    } else {
        let before = resolved(catalog, keys.drop_last());
        match position_of(catalog, keys.last()) {
            Some(i) => before.push(i),
            None => before,
        }
    }
}

/// The positions of the entries of a group that are not variants, in
/// catalog order.
pub open spec fn group_members(catalog: Seq<SymbolEntry>, group: Seq<char>) -> Seq<int>
    decreases catalog.len(),
{
    if catalog.len() == 0 {
        Seq::empty()
    } else {
        let before = group_members(catalog.drop_last(), group);
        if catalog.last().group@ == group && !catalog.last().is_variant {
            before.push(catalog.len() - 1)
        } else {
            before
        }
    }
}

/// Positions as integers.
pub open spec fn indices(positions: Seq<usize>) -> Seq<int> {
    Seq::new(positions.len(), |i: int| positions[i] as int)
}

/// What `first_position` finds: a position between `from` and the length of
/// the catalog, before which no entry from `from` on has the key, and whose
/// entry has the key unless it is the length.
pub proof fn lemma_first_position(catalog: Seq<SymbolEntry>, key: Seq<char>, from: int)
    requires
        0 <= from <= catalog.len(),
    ensures
        from <= first_position(catalog, key, from) <= catalog.len(),
        first_position(catalog, key, from) < catalog.len() ==> catalog[first_position(
            catalog,
            key,
            from,
        )].key@ == key,
        forall|j: int|
            from <= j < first_position(catalog, key, from) ==> (#[trigger] catalog[j]).key@ != key,
    decreases catalog.len() - from,
{
    if from < catalog.len() && catalog[from].key@ != key {
        lemma_first_position(catalog, key, from + 1);
    }
}

/// A key resolves to one entry: where no two entries share a key, the
/// position that a key resolves to is the only one that holds it.
pub proof fn lemma_position_is_the_only_one(catalog: Seq<SymbolEntry>, key: Seq<char>, other: int)
    requires
        keys_unique(catalog),
        0 <= other < catalog.len(),
        catalog[other].key@ == key,
    ensures
        position_of(catalog, key) == Some(other),
{
    lemma_first_position(catalog, key, 0);
    let found = first_position(catalog, key, 0);
    if found < other {
        assert(catalog[found].key@ != catalog[other].key@);
    }
}

/// Every position that keys resolve to lies in the catalog and holds one of
/// the keys, and there are no more positions than keys.
pub proof fn lemma_resolved_in_catalog(catalog: Seq<SymbolEntry>, keys: Seq<Seq<char>>)
    ensures
        resolved(catalog, keys).len() <= keys.len(),
        forall|i: int|
            0 <= i < resolved(catalog, keys).len() ==> {
                &&& 0 <= (#[trigger] resolved(catalog, keys)[i]) < catalog.len()
                &&& keys.contains(catalog[resolved(catalog, keys)[i]].key@)
            },
    decreases keys.len(),
{
    if keys.len() > 0 {
        let before = keys.drop_last();
        lemma_resolved_in_catalog(catalog, before);
        lemma_first_position(catalog, keys.last(), 0);
        let all = resolved(catalog, keys);
        assert forall|i: int| 0 <= i < all.len() implies {
            &&& 0 <= (#[trigger] all[i]) < catalog.len()
            &&& keys.contains(catalog[all[i]].key@)
        } by {
            if i < resolved(catalog, before).len() {
                let at = resolved(catalog, before)[i];
                assert(all[i] == at);
                let k = choose|k: int| 0 <= k < before.len() && before[k] == catalog[at].key@;
                assert(keys[k] == catalog[at].key@);
            } else {
                assert(keys[keys.len() - 1] == catalog[all[i]].key@);
            }
        }
    }
}

/// Whether no two entries of the catalog share a key.
pub fn has_unique_keys(catalog: &Vec<SymbolEntry>) -> (r: bool)
    ensures
        r == keys_unique(catalog@),
{
    let mut j: usize = 0;
    while j < catalog.len()
        invariant
            j <= catalog.len(),
            forall|a: int, b: int|
                0 <= a < b < j ==> (#[trigger] catalog[a]).key@ != (#[trigger] catalog[b]).key@,
        decreases catalog.len() - j,
    {
        let mut i: usize = 0;
        while i < j
            invariant
                i <= j,
                j < catalog.len(),
                forall|a: int| 0 <= a < i ==> (#[trigger] catalog[a]).key@ != catalog[j as int].key@,
            decreases j - i,
        {
            if same_text(catalog[i].key.as_str(), catalog[j].key.as_str()) {
                assert(catalog[i as int].key@ == catalog[j as int].key@);
                return false;
            }
            i += 1;
        }
        j += 1;
    }
    true
}

/// Looks a key up in the catalog: the position of the first entry that has
/// it.
pub fn find_entry(catalog: &Vec<SymbolEntry>, key: &str) -> (r: Option<usize>)
    ensures
        match r {
            Some(i) => position_of(catalog@, key@) == Some(i as int) && i < catalog.len()
                && catalog[i as int].key@ == key@,
            None => position_of(catalog@, key@) is None && forall|j: int|
                0 <= j < catalog.len() ==> (#[trigger] catalog[j]).key@ != key@,
        },
{
    let mut i: usize = 0;
    while i < catalog.len()
        invariant
            i <= catalog.len(),
            first_position(catalog@, key@, 0) == first_position(catalog@, key@, i as int),
            forall|j: int| 0 <= j < i ==> (#[trigger] catalog[j]).key@ != key@,
        decreases catalog.len() - i,
    {
        if same_text(catalog[i].key.as_str(), key) {
            return Some(i);
        }
        i += 1;
    }
    None
}

/// Resolves keys against the catalog. The result holds, in the order of the
/// keys, the position of the first entry with each key; a key that no
/// entry has is dropped.
pub fn resolve_keys(catalog: &Vec<SymbolEntry>, keys: &Vec<String>) -> (r: Vec<usize>)
    ensures
        indices(r@) == resolved(catalog@, texts(keys@)),
        r@.len() <= keys@.len(),
        forall|i: int| 0 <= i < r@.len() ==> (#[trigger] r@[i]) < catalog.len(),
{
    let mut out: Vec<usize> = Vec::new();
    let mut i: usize = 0;
    assert(texts(keys@).subrange(0, 0) =~= Seq::<Seq<char>>::empty());
    assert(indices(out@) =~= Seq::<int>::empty());
    while i < keys.len()
        invariant
            i <= keys.len(),
            indices(out@) == resolved(catalog@, texts(keys@).subrange(0, i as int)),
            out@.len() <= i,
            forall|j: int| 0 <= j < out@.len() ==> (#[trigger] out@[j]) < catalog.len(),
        decreases keys.len() - i,
    {
        proof {
            let now = texts(keys@).subrange(0, i + 1);
            assert(now.drop_last() =~= texts(keys@).subrange(0, i as int));
            assert(now.last() == keys@[i as int]@);
        }
        match find_entry(catalog, keys[i].as_str()) {
            Some(position) => {
                let ghost before = indices(out@);
                out.push(position);
                assert(indices(out@) =~= before.push(position as int));
            },
            None => {},
        }
        i += 1;
    }
    assert(texts(keys@).subrange(0, i as int) =~= texts(keys@));
    out
}

/// Lists the entries of a group that are not variants, in catalog order.
pub fn entries_in_group(catalog: &Vec<SymbolEntry>, group: &str) -> (r: Vec<usize>)
    ensures
        indices(r@) == group_members(catalog@, group@),
{
    let mut out: Vec<usize> = Vec::new();
    let mut i: usize = 0;
    assert(catalog@.subrange(0, 0) =~= Seq::<SymbolEntry>::empty());
    assert(indices(out@) =~= Seq::<int>::empty());
    while i < catalog.len()
        invariant
            i <= catalog.len(),
            indices(out@) == group_members(catalog@.subrange(0, i as int), group@),
        decreases catalog.len() - i,
    {
        proof {
            let now = catalog@.subrange(0, i + 1);
            assert(now.drop_last() =~= catalog@.subrange(0, i as int));
            assert(now.last() == catalog@[i as int]);
        }
        if !catalog[i].is_variant && same_text(catalog[i].group.as_str(), group) {
            let ghost before = indices(out@);
            out.push(i);
            assert(indices(out@) =~= before.push(i as int));
        }
        i += 1;
    }
    assert(catalog@.subrange(0, i as int) =~= catalog@);
    out
}

} // verus!
