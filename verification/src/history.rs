//! The symbols picked most recently, newest first, and the options that are
//! kept between runs.

use vstd::prelude::*;
use std::slice::Iter;
use crate::catalog::{indices, resolve_keys, resolved, SymbolEntry};
use crate::text::{distinct, first_occurrence, lemma_first_occurrence, position_in, texts};

verus! {

/// How many picks are kept between runs.
pub const MAX_HISTORY_SIZE: usize = 80;

/// The keys of the symbols picked most recently, newest first.
#[derive(Debug)]
pub struct EmojiHistory(pub Vec<String>);

impl View for EmojiHistory {
    type V = Seq<Seq<char>>;

    open spec fn view(&self) -> Seq<Seq<char>> {
        texts(self.0@)
    }
}

/// The history after `glyph` was picked: `glyph` in front, and behind it
/// the history without the first occurrence of `glyph`.
pub open spec fn promoted(history: Seq<Seq<char>>, glyph: Seq<char>) -> Seq<Seq<char>> {
    let at = first_occurrence(history, glyph, 0);
    if at < history.len() {
        seq![glyph] + history.remove(at)
    } else {
        seq![glyph] + history
    }
}

/// The first `limit` picks, or all of them where there are fewer.
pub open spec fn newest(history: Seq<Seq<char>>, limit: nat) -> Seq<Seq<char>> {
    if limit < history.len() {
        history.subrange(0, limit as int)
    } else {
        history
    }
}

impl Default for EmojiHistory {
    fn default() -> (r: Self)
        ensures
            r@ == Seq::<Seq<char>>::empty(),
    {
        let r = EmojiHistory(Vec::new());
        assert(r@ =~= Seq::<Seq<char>>::empty());
        r
    }
}

impl EmojiHistory {
    /// Records a pick: moves `glyph` to the front, or puts it there.
    pub fn add(&mut self, glyph: String)
        ensures
            final(self)@ == promoted(old(self)@, glyph@),
    {
        let ghost before = self@;
        let found = position_in(&self.0, glyph.as_str());
        match found {
            Some(at) => {
                self.0.remove(at);
                assert(self@ =~= before.remove(at as int));
            },
            None => {},
        }
        let ghost middle = self@;
        self.0.insert(0, glyph);
        assert(self@ =~= seq![glyph@] + middle);
    }

    /// The picks, newest first.
    pub fn iter(&self) -> (r: Iter<'_, String>)
        ensures
            vstd::std_specs::slice::into_iter_elts(r) == self.0@,
    {
        self.0.iter()
    }

    /// The catalog entries of the picks, newest first; a pick that the
    /// catalog does not hold is left out.
    pub fn emojis(&self, catalog: &Vec<SymbolEntry>) -> (r: Vec<usize>)
        ensures
            indices(r@) == resolved(catalog@, self@),
            forall|i: int| 0 <= i < r@.len() ==> (#[trigger] r@[i]) < catalog@.len(),
    {
        resolve_keys(catalog, &self.0)
    }

    /// Whether nothing was picked yet.
    pub fn is_empty(&self) -> (r: bool)
        ensures
            r == (self@.len() == 0),
    {
        self.0.is_empty()
    }

    /// The newest `limit` picks.
    pub fn limited(&self, limit: usize) -> (r: EmojiHistory)
        ensures
            r@ == newest(self@, limit as nat),
    {
        let mut kept: Vec<String> = Vec::new();
        let mut i: usize = 0;
        while i < self.0.len() && i < limit
            invariant
                i <= self.0.len(),
                i <= limit,
                kept@.len() == i,
                texts(kept@) == self@.subrange(0, i as int),
            decreases self.0.len() - i,
        {
            let pick = self.0[i].clone();
            let ghost before = kept@;
            kept.push(pick);
            assert forall|j: int| 0 <= j < i + 1 implies texts(kept@)[j] == self@[j] by {
                if j < i {
                    assert(texts(before)[j] == self@.subrange(0, i as int)[j]);
                }
            }
            assert(texts(kept@) =~= self@.subrange(0, i + 1));
            i += 1;
        }
        assert(self@.subrange(0, self@.len() as int) =~= self@);
        EmojiHistory(kept)
    }
}

/// What is kept between runs.
#[derive(Debug)]
pub struct BmojiOptions {
    pub history: EmojiHistory,
}

impl Default for BmojiOptions {
    fn default() -> (r: Self)
        ensures
            r.history@ == Seq::<Seq<char>>::empty(),
    {
        BmojiOptions { history: EmojiHistory::default() }
    }
}

impl BmojiOptions {
    /// The options as they are written out: the history cut to its newest
    /// `MAX_HISTORY_SIZE` picks.
    pub fn saved(&self) -> (r: BmojiOptions)
        ensures
            r.history@ == newest(self.history@, MAX_HISTORY_SIZE as nat),
    {
        BmojiOptions { history: self.history.limited(MAX_HISTORY_SIZE) }
    }
}

/// A pick ends up in front, once: where no key occurred twice before, none
/// does after, and the history grows by one exactly when the pick is new.
pub proof fn lemma_promoted_distinct(history: Seq<Seq<char>>, glyph: Seq<char>)
    requires
        distinct(history),
    ensures
        distinct(promoted(history, glyph)),
        promoted(history, glyph)[0] == glyph,
        promoted(history, glyph).len() == if history.contains(glyph) {
            history.len()
        } else {
            history.len() + 1
        },
{
    lemma_first_occurrence(history, glyph, 0);
    let at = first_occurrence(history, glyph, 0);
    let after = promoted(history, glyph);
    if at < history.len() {
        assert(history.contains(glyph));
        let rest = history.remove(at);
        assert forall|i: int, j: int| 0 <= i < j < after.len() implies after[i] != after[j] by {
            let source = |k: int| if k - 1 < at { k - 1 } else { k };
            if i == 0 {
                assert(after[j] == rest[j - 1]);
                assert(rest[j - 1] == history[source(j)]);
            } else {
                assert(after[i] == history[source(i)]);
                assert(after[j] == history[source(j)]);
            }
        }
    } else {
        if history.contains(glyph) {
            let k = choose|k: int| 0 <= k < history.len() && history[k] == glyph;
            assert(false);
        }
        assert forall|i: int, j: int| 0 <= i < j < after.len() implies after[i] != after[j] by {
            if i == 0 {
                assert(after[j] == history[j - 1]);
            } else {
                assert(after[i] == history[i - 1]);
                assert(after[j] == history[j - 1]);
            }
        }
    }
}

} // verus!
