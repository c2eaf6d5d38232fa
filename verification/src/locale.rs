//! Language negotiation: from a raw locale string to the ordered languages
//! that indexing and search use, always ending in the default language.
//!
//! A locale such as `es_ES.UTF-8` loses its encoding suffix and is read as a
//! language tag: a language subtag, then an optional script, an optional
//! region and any number of variants, separated by `-` or `_`. A supported
//! tag is chosen when it equals the requested tag, or else when each subtag
//! it does state agrees with the requested one. Nothing is relaxed beyond
//! that.

use vstd::prelude::*;
use crate::text::{chars_of, pieces, same_chars, texts};

verus! {

/// The language every negotiation falls back to.
pub open spec fn default_language() -> Seq<char> {
    "en"@
}

/// Whether `c` separates two subtags of a language tag.
pub open spec fn is_separator(c: char) -> bool {
    c == '-' || c == '_'
}

/// Whether `c` is an ASCII letter.
pub open spec fn is_letter(c: char) -> bool {
    ('a' <= c && c <= 'z') || ('A' <= c && c <= 'Z')
}

/// Whether `c` is an ASCII digit.
pub open spec fn is_digit(c: char) -> bool {
    '0' <= c && c <= '9'
}

/// `c` with an ASCII capital replaced by its small letter.
pub open spec fn lower(c: char) -> char {
    if 'A' <= c && c <= 'Z' {
        ((c as u8) + 32) as u8 as char
    } else {
        c
    }
}

/// `s` with every ASCII capital replaced by its small letter.
pub open spec fn lowered(s: Seq<char>) -> Seq<char> {
    Seq::new(s.len(), |i: int| lower(s[i]))
}

/// The locale without its encoding suffix: the longest prefix that holds no
/// full stop.
pub open spec fn strip_encoding(s: Seq<char>) -> Seq<char>
    decreases s.len(),
{
    if s.len() == 0 || s[0] == '.' {
        Seq::empty()
    } else {
        seq![s[0]] + strip_encoding(s.drop_first())
    }
}

/// The subtags of `s`: the runs of characters between separators. There is
/// one more subtag than there are separators, and a subtag may be empty.
pub open spec fn split_subtags(s: Seq<char>) -> Seq<Seq<char>>
    decreases s.len(),
{
    if s.len() == 0 {
        seq![Seq::empty()]
    } else {
        let before = split_subtags(s.drop_last());
        if is_separator(s.last()) {
            before.push(Seq::empty())
        } else {
            before.drop_last().push(before.last().push(s.last()))
        }
    }
}

/// Whether every character is an ASCII letter.
pub open spec fn all_letters(s: Seq<char>) -> bool {
    forall|i: int| 0 <= i < s.len() ==> is_letter(#[trigger] s[i])
}

/// Whether every character is an ASCII digit.
pub open spec fn all_digits(s: Seq<char>) -> bool {
    forall|i: int| 0 <= i < s.len() ==> is_digit(#[trigger] s[i])
}

/// Whether every character is an ASCII letter or digit.
pub open spec fn all_alphanumeric(s: Seq<char>) -> bool {
    forall|i: int| 0 <= i < s.len() ==> (is_letter(#[trigger] s[i]) || is_digit(s[i]))
}

/// A language subtag: two or three letters, or five to eight.
pub open spec fn is_language_subtag(s: Seq<char>) -> bool {
    (2 <= s.len() <= 3 || 5 <= s.len() <= 8) && all_letters(s)
}

/// A script subtag: four letters.
pub open spec fn is_script_subtag(s: Seq<char>) -> bool {
    s.len() == 4 && all_letters(s)
}

/// A region subtag: two letters or three digits.
pub open spec fn is_region_subtag(s: Seq<char>) -> bool {
    (s.len() == 2 && all_letters(s)) || (s.len() == 3 && all_digits(s))
}

/// A variant subtag: five to eight letters or digits, or four that start
/// with a digit.
pub open spec fn is_variant_subtag(s: Seq<char>) -> bool {
    all_alphanumeric(s) && (5 <= s.len() <= 8 || (s.len() == 4 && is_digit(s[0])))
}

/// What a language tag states, every subtag in small letters.
pub struct TagModel {
    pub language: Seq<char>,
    pub script: Option<Seq<char>>,
    pub region: Option<Seq<char>>,
    pub variants: Seq<Seq<char>>,
}

/// Where the subtags after the optional script begin.
pub open spec fn script_end(parts: Seq<Seq<char>>) -> int {
    if parts.len() > 1 && is_script_subtag(parts[1]) {
        2
    } else {
        1
    }
}

/// Where the subtags after the optional region begin.
pub open spec fn region_end(parts: Seq<Seq<char>>) -> int {
    let k = script_end(parts);
    if parts.len() > k && is_region_subtag(parts[k]) {
        k + 1
    } else {
        k
    }
}

/// The tag that a sequence of subtags spells, if it spells one.
pub open spec fn parse_subtags(parts: Seq<Seq<char>>) -> Option<TagModel> {
    if parts.len() >= 1 && is_language_subtag(parts[0]) && forall|i: int|
        region_end(parts) <= i < parts.len() ==> is_variant_subtag(#[trigger] parts[i]) {
        Some(
            TagModel {
                language: lowered(parts[0]),
                script: if script_end(parts) == 2 {
                    Some(lowered(parts[1]))
                } else {
                    None
                },
                region: if region_end(parts) > script_end(parts) {
                    Some(lowered(parts[script_end(parts)]))
                } else {
                    None
                },
                variants: Seq::new(
                    (parts.len() - region_end(parts)) as nat,
                    |i: int| lowered(parts[region_end(parts) + i]),
                ),
            },
        )
    } else {
        None
    }
}

/// The tag that `s` spells, if it spells one.
pub open spec fn parse_tag(s: Seq<char>) -> Option<TagModel> {
    parse_subtags(split_subtags(s))
}

/// Whether a supported tag covers the requested one: the languages agree,
/// and each further subtag that the supported tag states agrees too.
pub open spec fn tag_covers(supported: TagModel, requested: TagModel) -> bool {
    &&& supported.language == requested.language
    &&& (supported.script is None || supported.script == requested.script)
    &&& (supported.region is None || supported.region == requested.region)
    &&& (supported.variants.len() == 0 || supported.variants == requested.variants)
}

/// Whether the supported tag `candidate` answers the request: by equality
/// when `exact`, by covering it otherwise.
pub open spec fn answers(candidate: Seq<char>, requested: TagModel, exact: bool) -> bool {
    match parse_tag(candidate) {
        Some(tag) => if exact {
            tag == requested
        } else {
            tag_covers(tag, requested)
        },
        None => false,
    }
}

/// The first position at or after `from` whose tag answers the request; the
/// length of `available` when none does.
pub open spec fn first_answer(
    available: Seq<Seq<char>>,
    requested: TagModel,
    exact: bool,
    from: int,
) -> int
    decreases available.len() - from,
{
    if from < 0 || from >= available.len() {
        available.len() as int
    } else if answers(available[from], requested, exact) {
        from
    } else {
        first_answer(available, requested, exact, from + 1)
    }
}

/// The tag that a locale setting asks for; `None` when it is unset or does
/// not spell a tag.
pub open spec fn requested_tag(locale: Option<Seq<char>>) -> Option<TagModel> {
    match locale {
        Some(raw) => parse_tag(strip_encoding(raw)),
        None => None,
    }
}

/// The supported tag chosen for a locale setting: the first that equals the
/// request, else the first that covers it, else the default language.
pub open spec fn negotiated_tag(locale: Option<Seq<char>>, available: Seq<Seq<char>>) -> Seq<
    char,
> {
    match requested_tag(locale) {
        Some(requested) => {
            let exact = first_answer(available, requested, true, 0);
            let covering = first_answer(available, requested, false, 0);
            if exact < available.len() {
                available[exact]
            } else if covering < available.len() {
                available[covering]
            } else {
                default_language()
            }
        },
        None => default_language(),
    }
}

/// The languages to index and search with: the negotiated tag, then the
/// default language as an explicit trailing fallback.
pub open spec fn negotiated(locale: Option<Seq<char>>, available: Seq<Seq<char>>) -> Seq<
    Seq<char>,
> {
    seq![negotiated_tag(locale, available), default_language()]
}

/// A parsed language tag, every subtag in small letters.
#[derive(Debug)]
pub struct LanguageTag {
    pub language: Vec<char>,
    pub script: Option<Vec<char>>,
    pub region: Option<Vec<char>>,
    pub variants: Vec<Vec<char>>,
}

/// The characters of an optional subtag.
pub open spec fn optional_chars(v: Option<Vec<char>>) -> Option<Seq<char>> {
    match v {
        Some(chars) => Some(chars@),
        None => None,
    }
}

impl View for LanguageTag {
    type V = TagModel;

    open spec fn view(&self) -> TagModel {
        TagModel {
            language: self.language@,
            script: optional_chars(self.script),
            region: optional_chars(self.region),
            variants: pieces(self.variants@),
        }
    }
}


/// Replaces an ASCII capital by its small letter.
pub fn lower_char(c: char) -> (r: char)
    ensures
        r == lower(c),
{
    if 'A' <= c && c <= 'Z' {
        ((c as u8) + 32) as char
    } else {
        c
    }
}

/// Replaces every ASCII capital by its small letter.
pub fn lowered_chars(s: &Vec<char>) -> (r: Vec<char>)
    ensures
        r@ == lowered(s@),
{
    let mut out: Vec<char> = Vec::new();
    let mut i: usize = 0;
    while i < s.len()
        invariant
            i <= s.len(),
            out@.len() == i,
            forall|j: int| 0 <= j < i ==> out@[j] == lower(s@[j]),
        decreases s.len() - i,
    {
        out.push(lower_char(s[i]));
        i += 1;
    }
    assert(out@ =~= lowered(s@));
    out
}

/// Cuts the encoding suffix off a locale.
pub fn without_encoding(s: &Vec<char>) -> (r: Vec<char>)
    ensures
        r@ == strip_encoding(s@),
{
    let mut out: Vec<char> = Vec::new();
    let mut i: usize = 0;
    assert(s@.subrange(0, s@.len() as int) =~= s@);
    while i < s.len() && s[i] != '.'
        invariant
            i <= s.len(),
            strip_encoding(s@) == out@ + strip_encoding(s@.subrange(i as int, s@.len() as int)),
        decreases s.len() - i,
    {
        let ghost rest = s@.subrange(i as int, s@.len() as int);
        assert(rest.drop_first() =~= s@.subrange(i + 1, s@.len() as int));
        assert(out@.push(s@[i as int]) + strip_encoding(rest.drop_first()) =~= out@ + (seq![
            rest[0],
        ] + strip_encoding(rest.drop_first())));
        out.push(s[i]);
        i += 1;
    }
    assert(strip_encoding(s@.subrange(i as int, s@.len() as int)) =~= Seq::<char>::empty());
    assert(out@ + Seq::<char>::empty() =~= out@);
    out
}

/// Cuts a tag into its subtags.
pub fn subtags_of(s: &Vec<char>) -> (r: Vec<Vec<char>>)
    ensures
        pieces(r@) == split_subtags(s@),
{
    let mut done: Vec<Vec<char>> = Vec::new();
    let mut current: Vec<char> = Vec::new();
    let mut i: usize = 0;
    assert(s@.subrange(0, 0) =~= Seq::<char>::empty());
    assert(pieces(done@).push(current@) =~= seq![Seq::<char>::empty()]);
    while i < s.len()
        invariant
            i <= s.len(),
            pieces(done@).push(current@) == split_subtags(s@.subrange(0, i as int)),
        decreases s.len() - i,
    {
        let ghost before = s@.subrange(0, i as int);
        let ghost now = s@.subrange(0, i + 1);
        assert(now.drop_last() =~= before);
        assert(now.last() == s@[i as int]);
        let c = s[i];
        if c == '-' || c == '_' {
            let ghost old_done = pieces(done@);
            done.push(current);
            current = Vec::new();
            assert(pieces(done@) =~= old_done.push(done@.last()@));
        } else {
            let ghost old_current = current@;
            current.push(c);
            assert(pieces(done@).push(old_current).drop_last() =~= pieces(done@));
        }
        i += 1;
    }
    assert(s@.subrange(0, i as int) =~= s@);
    let ghost final_done = pieces(done@);
    done.push(current);
    assert(pieces(done@) =~= final_done.push(done@.last()@));
    done
}

/// Whether every character is an ASCII letter.
pub fn only_letters(s: &Vec<char>) -> (r: bool)
    ensures
        r == all_letters(s@),
{
    let mut i: usize = 0;
    while i < s.len()
        invariant
            i <= s.len(),
            forall|j: int| 0 <= j < i ==> is_letter(#[trigger] s@[j]),
        decreases s.len() - i,
    {
        let c = s[i];
        if !(('a' <= c && c <= 'z') || ('A' <= c && c <= 'Z')) {
            assert(!is_letter(s@[i as int]));
            return false;
        }
        i += 1;
    }
    true
}

/// Whether every character is an ASCII digit.
pub fn only_digits(s: &Vec<char>) -> (r: bool)
    ensures
        r == all_digits(s@),
{
    let mut i: usize = 0;
    while i < s.len()
        invariant
            i <= s.len(),
            forall|j: int| 0 <= j < i ==> is_digit(#[trigger] s@[j]),
        decreases s.len() - i,
    {
        let c = s[i];
        if !('0' <= c && c <= '9') {
            assert(!is_digit(s@[i as int]));
            return false;
        }
        i += 1;
    }
    true
}

/// Whether every character is an ASCII letter or digit.
pub fn only_alphanumeric(s: &Vec<char>) -> (r: bool)
    ensures
        r == all_alphanumeric(s@),
{
    let mut i: usize = 0;
    while i < s.len()
        invariant
            i <= s.len(),
            forall|j: int| 0 <= j < i ==> (is_letter(#[trigger] s@[j]) || is_digit(s@[j])),
        decreases s.len() - i,
    {
        let c = s[i];
        if !(('a' <= c && c <= 'z') || ('A' <= c && c <= 'Z') || ('0' <= c && c <= '9')) {
            assert(!(is_letter(s@[i as int]) || is_digit(s@[i as int])));
            return false;
        }
        i += 1;
    }
    true
}

/// Whether the subtag can name a language.
pub fn language_subtag(s: &Vec<char>) -> (r: bool)
    ensures
        r == is_language_subtag(s@),
{
    let n: usize = s.len();
    ((2 <= n && n <= 3) || (5 <= n && n <= 8)) && only_letters(s)
}

/// Whether the subtag can name a script.
pub fn script_subtag(s: &Vec<char>) -> (r: bool)
    ensures
        r == is_script_subtag(s@),
{
    s.len() == 4 && only_letters(s)
}

/// Whether the subtag can name a region.
pub fn region_subtag(s: &Vec<char>) -> (r: bool)
    ensures
        r == is_region_subtag(s@),
{
    (s.len() == 2 && only_letters(s)) || (s.len() == 3 && only_digits(s))
}

/// Whether the subtag can name a variant.
pub fn variant_subtag(s: &Vec<char>) -> (r: bool)
    ensures
        r == is_variant_subtag(s@),
{
    let n: usize = s.len();
    if 5 <= n && n <= 8 {
        only_alphanumeric(s)
    } else if n == 4 {
        '0' <= s[0] && s[0] <= '9' && only_alphanumeric(s)
    } else {
        false
    }
}

/// Whether two optional subtags agree.
pub fn same_optional(a: &Option<Vec<char>>, b: &Option<Vec<char>>) -> (r: bool)
    ensures
        r == (optional_chars(*a) == optional_chars(*b)),
{
    match (a, b) {
        (Some(x), Some(y)) => same_chars(x, y),
        (None, None) => true,
        _ => false,
    }
}

/// Whether two lists of variants agree.
pub fn same_variants(a: &Vec<Vec<char>>, b: &Vec<Vec<char>>) -> (r: bool)
    ensures
        r == (pieces(a@) == pieces(b@)),
{
    if a.len() != b.len() {
        assert(pieces(a@).len() != pieces(b@).len());
        return false;
    }
    let mut i: usize = 0;
    while i < a.len()
        invariant
            i <= a.len(),
            a.len() == b.len(),
            forall|j: int| 0 <= j < i ==> a@[j]@ == b@[j]@,
        decreases a.len() - i,
    {
        if !same_chars(&a[i], &b[i]) {
            assert(pieces(a@)[i as int] != pieces(b@)[i as int]);
            return false;
        }
        i += 1;
    }
    assert(pieces(a@) =~= pieces(b@));
    true
}

impl LanguageTag {
    /// Reads a language tag. Subtags are separated by `-` or `_`, and
    /// capitals count as small letters.
    pub fn parse(s: &str) -> (r: Option<LanguageTag>)
        ensures
            match r {
                Some(tag) => parse_tag(s@) == Some(tag@),
                None => parse_tag(s@) is None,
            },
    {
        let chars = chars_of(s);
        LanguageTag::from_chars(&chars)
    }

    /// Reads a language tag from its characters.
    pub fn from_chars(s: &Vec<char>) -> (r: Option<LanguageTag>)
        ensures
            match r {
                Some(tag) => parse_tag(s@) == Some(tag@),
                None => parse_tag(s@) is None,
            },
    {
        let parts = subtags_of(s);
        let ghost model = pieces(parts@);
        if parts.len() < 1 || !language_subtag(&parts[0]) {
            return None;
        }
        let language = lowered_chars(&parts[0]);
        let mut next: usize = 1;
        let mut script: Option<Vec<char>> = None;
        if next < parts.len() && script_subtag(&parts[next]) {
            script = Some(lowered_chars(&parts[next]));
            next += 1;
        }
        assert(next == script_end(model));
        let mut region: Option<Vec<char>> = None;
        if next < parts.len() && region_subtag(&parts[next]) {
            region = Some(lowered_chars(&parts[next]));
            next += 1;
        }
        assert(next == region_end(model));
        let first_variant: usize = next;
        let mut variants: Vec<Vec<char>> = Vec::new();
        while next < parts.len()
            invariant
                first_variant <= next <= parts.len(),
                model == pieces(parts@),
                model == split_subtags(s@),
                first_variant == region_end(model),
                variants@.len() == next - first_variant,
                forall|j: int|
                    first_variant <= j < next ==> is_variant_subtag(#[trigger] model[j]),
                forall|j: int|
                    0 <= j < next - first_variant ==> (#[trigger] variants@[j])@ == lowered(
                        model[first_variant + j],
                    ),
            decreases parts.len() - next,
        {
            if !variant_subtag(&parts[next]) {
                assert(!is_variant_subtag(model[next as int]));
                return None;
            }
            variants.push(lowered_chars(&parts[next]));
            next += 1;
        }
        let tag = LanguageTag { language, script, region, variants };
        assert(tag@.variants =~= parse_subtags(model)->0.variants);
        Some(tag)
    }

    /// Whether this tag and `other` state the same subtags.
    pub fn equals(&self, other: &LanguageTag) -> (r: bool)
        ensures
            r == (self@ == other@),
    {
        same_chars(&self.language, &other.language) && same_optional(&self.script, &other.script)
            && same_optional(&self.region, &other.region) && same_variants(
            &self.variants,
            &other.variants,
        )
    }

    /// Whether this supported tag covers the requested one.
    pub fn covers(&self, requested: &LanguageTag) -> (r: bool)
        ensures
            r == tag_covers(self@, requested@),
    {
        same_chars(&self.language, &requested.language) && (self.script.is_none()
            || same_optional(&self.script, &requested.script)) && (self.region.is_none()
            || same_optional(&self.region, &requested.region)) && (self.variants.len() == 0
            || same_variants(&self.variants, &requested.variants))
    }
}

/// Finds the first supported tag that answers the request.
pub fn find_answer(available: &Vec<String>, requested: &LanguageTag, exact: bool) -> (r: Option<
    usize,
>)
    ensures
        match r {
            Some(i) => i < available.len() && i == first_answer(
                texts(available@),
                requested@,
                exact,
                0,
            ),
            None => first_answer(texts(available@), requested@, exact, 0) == available.len(),
        },
{
    let mut i: usize = 0;
    while i < available.len()
        invariant
            i <= available.len(),
            first_answer(texts(available@), requested@, exact, 0) == first_answer(
                texts(available@),
                requested@,
                exact,
                i as int,
            ),
        decreases available.len() - i,
    {
        let candidate = LanguageTag::parse(available[i].as_str());
        let hit = match candidate {
            Some(tag) => if exact {
                tag.equals(requested)
            } else {
                tag.covers(requested)
            },
            None => false,
        };
        assert(hit == answers(texts(available@)[i as int], requested@, exact));
        if hit {
            return Some(i);
        }
        i += 1;
    }
    None
}

/// Resolves a locale setting into the languages to index and search with.
///
/// The result has two entries. The first is the supported tag chosen for the
/// locale, as `available` spells it: the first that equals the requested
/// tag, else the first that covers it, else the default language. The second
/// is always the default language. An unset locale, or one that spells no
/// language tag, gives the default language twice.
pub fn negotiate(locale_env: Option<&str>, available: &Vec<String>) -> (r: Vec<String>)
    ensures
        texts(r@) == negotiated(
            match locale_env {
                Some(raw) => Some(raw@),
                None => None,
            },
            texts(available@),
        ),
        r@.len() == 2,
        r@[1]@ == default_language(),
{
    let fallback = String::from_str("en");
    let mut chosen = String::from_str("en");
    if let Some(raw) = locale_env {
        let stripped = without_encoding(&chars_of(raw));
        if let Some(requested) = LanguageTag::from_chars(&stripped) {
            match find_answer(available, &requested, true) {
                Some(i) => {
                    chosen = available[i].clone();
                },
                None => {
                    match find_answer(available, &requested, false) {
                        Some(i) => {
                            chosen = available[i].clone();
                        },
                        None => {},
                    }
                },
            }
        }
    }
    let mut out: Vec<String> = Vec::new();
    out.push(chosen);
    out.push(fallback);
    assert(texts(out@) =~= negotiated(
        match locale_env {
            Some(raw) => Some(raw@),
            None => None,
        },
        texts(available@),
    ));
    out
}

/// What stripping leaves: a prefix of the locale that holds no full stop
/// and ends where the locale ends or its first full stop stands.
pub proof fn lemma_strip_encoding(s: Seq<char>)
    ensures
        strip_encoding(s).len() <= s.len(),
        strip_encoding(s) == s.subrange(0, strip_encoding(s).len() as int),
        forall|i: int| 0 <= i < strip_encoding(s).len() ==> strip_encoding(s)[i] != '.',
        strip_encoding(s).len() < s.len() ==> s[strip_encoding(s).len() as int] == '.',
    decreases s.len(),
{
    if s.len() == 0 || s[0] == '.' {
        assert(strip_encoding(s) =~= s.subrange(0, 0));
    } else {
        let rest = s.drop_first();
        lemma_strip_encoding(rest);
        let kept = strip_encoding(rest);
        assert(strip_encoding(s) =~= s.subrange(0, kept.len() as int + 1)) by {
            assert(kept == rest.subrange(0, kept.len() as int));
            assert forall|i: int| 0 <= i < kept.len() + 1 implies strip_encoding(s)[i] == s[i] by {
                if i > 0 {
                    assert(strip_encoding(s)[i] == kept[i - 1]);
                    assert(kept[i - 1] == rest.subrange(0, kept.len() as int)[i - 1]);
                }
            }
        }
        if kept.len() < rest.len() {
            assert(s[kept.len() as int + 1] == rest[kept.len() as int]);
        }
    }
}

/// What cutting leaves: at least one subtag, and no separator in any.
pub proof fn lemma_subtags_hold_no_separator(s: Seq<char>)
    ensures
        split_subtags(s).len() >= 1,
        forall|i: int, j: int|
            0 <= i < split_subtags(s).len() && 0 <= j < split_subtags(s)[i].len()
                ==> !is_separator(#[trigger] split_subtags(s)[i][j]),
    decreases s.len(),
{
    if s.len() > 0 {
        lemma_subtags_hold_no_separator(s.drop_last());
        let before = split_subtags(s.drop_last());
        let all = split_subtags(s);
        assert forall|i: int, j: int|
            0 <= i < all.len() && 0 <= j < all[i].len() implies !is_separator(
            #[trigger] all[i][j],
        ) by {
            if is_separator(s.last()) {
                assert(all[i] == before[i]);
            } else if i < before.len() - 1 {
                assert(all[i] == before[i]);
            } else if j < before.last().len() {
                assert(all[i][j] == before[before.len() - 1][j]);
            }
        }
    }
}

/// What `first_answer` finds: a position between `from` and the length of
/// `available`, before which no tag from `from` on answers the request, and
/// whose tag answers it unless the position is the length.
pub proof fn lemma_first_answer(
    available: Seq<Seq<char>>,
    requested: TagModel,
    exact: bool,
    from: int,
)
    requires
        0 <= from <= available.len(),
    ensures
        from <= first_answer(available, requested, exact, from) <= available.len(),
        first_answer(available, requested, exact, from) < available.len() ==> answers(
            available[first_answer(available, requested, exact, from)],
            requested,
            exact,
        ),
        forall|j: int|
            from <= j < first_answer(available, requested, exact, from) ==> !answers(
                #[trigger] available[j],
                requested,
                exact,
            ),
    decreases available.len() - from,
{
    if from < available.len() && !answers(available[from], requested, exact) {
        lemma_first_answer(available, requested, exact, from + 1);
    }
}

/// Negotiation always falls back: whatever the locale setting, the result
/// has two entries and ends in the default language; where the setting is
/// unset or spells no language tag, both entries are the default language.
pub proof fn lemma_negotiation_falls_back(locale: Option<Seq<char>>, available: Seq<Seq<char>>)
    ensures
        negotiated(locale, available).len() == 2,
        negotiated(locale, available).last() == default_language(),
        requested_tag(locale) is None ==> negotiated(locale, available) == seq![
            default_language(),
            default_language(),
        ],
{
}

/// The negotiated tag is a supported one that answers the request, or the
/// default language; it is the default language where no supported tag
/// covers the request.
pub proof fn lemma_negotiated_tag_is_supported(
    locale: Option<Seq<char>>,
    available: Seq<Seq<char>>,
)
    ensures
        negotiated_tag(locale, available) == default_language() || (requested_tag(locale) is Some
            && available.contains(negotiated_tag(locale, available)) && answers(
            negotiated_tag(locale, available),
            requested_tag(locale)->0,
            false,
        )),
        (requested_tag(locale) is Some && forall|i: int|
            0 <= i < available.len() ==> !answers(
                #[trigger] available[i],
                requested_tag(locale)->0,
                false,
            )) ==> negotiated_tag(locale, available) == default_language(),
{
    if let Some(requested) = requested_tag(locale) {
        lemma_first_answer(available, requested, true, 0);
        lemma_first_answer(available, requested, false, 0);
        let exact = first_answer(available, requested, true, 0);
        if exact < available.len() {
            assert(answers(available[exact], requested, true));
            assert(answers(available[exact], requested, false));
        }
    }
}

} // verus!
