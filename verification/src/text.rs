//! Small helpers on strings and character sequences.

use vstd::prelude::*;

verus! {

/// The character sequences of a sequence of strings.
pub open spec fn texts(v: Seq<String>) -> Seq<Seq<char>> {
    Seq::new(v.len(), |i: int| v[i]@)
}

/// The character sequences of a sequence of character vectors.
pub open spec fn pieces(v: Seq<Vec<char>>) -> Seq<Seq<char>> {
    Seq::new(v.len(), |i: int| v[i]@)
}

/// The least position at or after `from` that holds `word`; the length of
/// `words` when none does.
pub open spec fn first_occurrence(words: Seq<Seq<char>>, word: Seq<char>, from: int) -> int
    decreases words.len() - from,
{
    if from < 0 || from >= words.len() {
        words.len() as int
    } else if words[from] == word {
        from
    } else {
        first_occurrence(words, word, from + 1)
    }
}

/// No word occurs twice.
pub open spec fn distinct(words: Seq<Seq<char>>) -> bool {
    forall|i: int, j: int| 0 <= i < j < words.len() ==> words[i] != words[j]
}

/// What `first_occurrence` finds: a position between `from` and the length,
/// before which `word` does not occur from `from` on, and which holds
/// `word` unless it is the length.
pub proof fn lemma_first_occurrence(words: Seq<Seq<char>>, word: Seq<char>, from: int)
    requires
        0 <= from <= words.len(),
    ensures
        from <= first_occurrence(words, word, from) <= words.len(),
        first_occurrence(words, word, from) < words.len() ==> words[first_occurrence(
            words,
            word,
            from,
        )] == word,
        forall|j: int| from <= j < first_occurrence(words, word, from) ==> words[j] != word,
    decreases words.len() - from,
{
    if from < words.len() && words[from] != word {
        lemma_first_occurrence(words, word, from + 1);
    }
}

/// Whether two strings hold the same characters.
pub fn same_text(a: &str, b: &str) -> (r: bool)
    ensures
        r == (a@ == b@),
{
    let n: usize = a.unicode_len();
    if n != b.unicode_len() {
        return false;
    }
    let mut i: usize = 0;
    while i < n
        invariant
            i <= n,
            n == a@.len(),
            n == b@.len(),
            forall|j: int| 0 <= j < i ==> a@[j] == b@[j],
        decreases n - i,
    {
        if a.get_char(i) != b.get_char(i) {
            return false;
        }
        i += 1;
    }
    assert(a@ =~= b@);
    true
}

/// Finds the first position that holds `word`.
pub fn position_in(words: &Vec<String>, word: &str) -> (r: Option<usize>)
    ensures
        match r {
            Some(at) => at < words@.len() && at == first_occurrence(texts(words@), word@, 0),
            None => first_occurrence(texts(words@), word@, 0) == words@.len(),
        },
{
    let mut i: usize = 0;
    while i < words.len()
        invariant
            i <= words.len(),
            first_occurrence(texts(words@), word@, 0) == first_occurrence(
                texts(words@),
                word@,
                i as int,
            ),
        decreases words.len() - i,
    {
        assert(texts(words@)[i as int] == words@[i as int]@);
        if same_text(words[i].as_str(), word) {
            return Some(i);
        }
        i += 1;
    }
    None
}

/// Whether two character vectors hold the same characters.
pub fn same_chars(a: &Vec<char>, b: &Vec<char>) -> (r: bool)
    ensures
        r == (a@ == b@),
{
    if a.len() != b.len() {
        return false;
    }
    let mut i: usize = 0;
    while i < a.len()
        invariant
            i <= a.len(),
            a.len() == b.len(),
            forall|j: int| 0 <= j < i ==> a@[j] == b@[j],
        decreases a.len() - i,
    {
        if a[i] != b[i] {
            return false;
        }
        i += 1;
    }
    assert(a@ =~= b@);
    true
}

/// The characters of a string, one by one.
pub fn chars_of(s: &str) -> (r: Vec<char>)
    ensures
        r@ == s@,
{
    let n: usize = s.unicode_len();
    let mut out: Vec<char> = Vec::new();
    let mut i: usize = 0;
    while i < n
        invariant
            i <= n,
            n == s@.len(),
            out@ == s@.subrange(0, i as int),
        decreases n - i,
    {
        out.push(s.get_char(i));
        assert(out@ =~= s@.subrange(0, i + 1));
        i += 1;
    }
    assert(out@ =~= s@);
    out
}

} // verus!
