//! Text as sequences of characters: searching, splitting and trimming.
use vstd::prelude::*;
use vstd::slice::slice_subrange;

verus! {

/// `String::push` appends one character to a string.
pub assume_specification[ String::push ](text: &mut String, c: char)
    ensures
        final(text)@ == old(text)@.push(c),
;

/// Whether Unicode gives the character the White_Space property: the controls
/// from tab to carriage return, the space and the no-break space, the next
/// line, and the spaces and separators of other scripts and of typography.
pub open spec fn is_white_space(c: char) -> bool {
    let n = c as u32;
    ||| 0x9 <= n <= 0xd
    ||| n == 0x20
    ||| n == 0x85
    ||| n == 0xa0
    ||| n == 0x1680
    ||| 0x2000 <= n <= 0x200a
    ||| n == 0x2028
    ||| n == 0x2029
    ||| n == 0x202f
    ||| n == 0x205f
    ||| n == 0x3000
}

/// `char::is_whitespace` tells whether a character has the White_Space
/// property, as the Unicode Character Database lists it.
pub assume_specification[ char::is_whitespace ](c: char) -> (r: bool)
    ensures
        r == is_white_space(c),
;

/// The lower-case form of a text, as `str::to_lowercase` computes it.
pub uninterp spec fn lowercase(text: Seq<char>) -> Seq<char>;

/// `str::to_lowercase` maps a text to its lower-case form, which depends on
/// the text alone. What that form is, is left to the Unicode tables.
#[verifier::external_body]
pub(crate) fn to_lowercase(text: &str) -> (r: String)
    ensures
        r@ == lowercase(text@),
{
    text.to_lowercase()
}

/// The texts of a sequence of strings.
pub open spec fn texts(strings: Seq<String>) -> Seq<Seq<char>> {
    strings.map_values(|s: String| s@)
}

/// Whether `pat` stands in `text` at position `i`.
pub open spec fn occurs_at(text: Seq<char>, pat: Seq<char>, i: int) -> bool {
    &&& 0 <= i
    &&& i + pat.len() <= text.len()
    &&& text.subrange(i, i + pat.len()) == pat
}

/// Whether `pat` stands anywhere in `text`.
pub open spec fn mentions(text: Seq<char>, pat: Seq<char>) -> bool {
    exists|i: int| occurs_at(text, pat, i)
}

/// Whether `text` begins with `pat`.
pub open spec fn begins(text: Seq<char>, pat: Seq<char>) -> bool {
    occurs_at(text, pat, 0)
}

/// Whether `text` ends with `pat`.
pub open spec fn ends(text: Seq<char>, pat: Seq<char>) -> bool {
    occurs_at(text, pat, text.len() - pat.len())
}

/// The first position at or after `from` where `pat` stands in `text`.
pub open spec fn find_from(text: Seq<char>, pat: Seq<char>, from: int) -> Option<int>
    decreases text.len() + 1 - from,
{
    if from < 0 || from + pat.len() > text.len() {
        None
    } else if occurs_at(text, pat, from) {
        Some(from)
    } else {
        find_from(text, pat, from + 1)
    }
}

/// The first position where `pat` stands in `text`.
pub open spec fn find(text: Seq<char>, pat: Seq<char>) -> Option<int> {
    find_from(text, pat, 0)
}

/// A found position is an occurrence, and none stands before it.
pub proof fn lemma_find_from(text: Seq<char>, pat: Seq<char>, from: int)
    requires
        0 <= from,
    ensures
        find_from(text, pat, from) matches Some(i) ==> {
            &&& from <= i
            &&& occurs_at(text, pat, i)
            &&& forall|j: int| from <= j < i ==> !occurs_at(text, pat, j)
        },
        find_from(text, pat, from) is None ==> forall|j: int|
            from <= j ==> !occurs_at(text, pat, j),
    decreases text.len() + 1 - from,
{
    if from + pat.len() <= text.len() && !occurs_at(text, pat, from) {
        lemma_find_from(text, pat, from + 1);
    }
}

/// The position of the last `c` in `text`.
pub open spec fn rfind(text: Seq<char>, c: char) -> Option<int>
    decreases text.len(),
{
    if text.len() == 0 {
        None
    } else if text.last() == c {
        Some(text.len() - 1)
    } else {
        rfind(text.drop_last(), c)
    }
}

/// The last position holds `c`, and none after it does.
pub proof fn lemma_rfind(text: Seq<char>, c: char)
    ensures
        rfind(text, c) matches Some(i) ==> {
            &&& 0 <= i < text.len()
            &&& text[i] == c
            &&& forall|j: int| i < j < text.len() ==> text[j] != c
        },
        rfind(text, c) is None ==> !text.contains(c),
    decreases text.len(),
{
    if text.len() > 0 && text.last() != c {
        lemma_rfind(text.drop_last(), c);
        let front = text.drop_last();
        assert forall|j: int| 0 <= j < text.len() - 1 implies text[j] == front[j] by {}
    }
}

/// A line without the carriage return that ends it, if one does.
pub open spec fn without_return(line: Seq<char>) -> Seq<char> {
    if line.len() > 0 && line.last() == '\r' {
        line.drop_last()
    } else {
        line
    }
}

/// The lines of a text. A line ends at a newline, or at a carriage return
/// followed by one; the last line need not end so.
pub open spec fn lines(text: Seq<char>) -> Seq<Seq<char>>
    decreases text.len(),
{
    if text.len() == 0 {
        Seq::empty()
    } else {
        proof {
            lemma_find_from(text, seq!['\n'], 0);
        }
        match find(text, seq!['\n']) {
            None => seq![text],
            Some(n) => seq![without_return(text.take(n))] + lines(text.skip(n + 1)),
        }
    }
}

/// A text without the white space that it begins with.
pub open spec fn trim_start(text: Seq<char>) -> Seq<char>
    decreases text.len(),
{
    if text.len() > 0 && is_white_space(text[0]) {
        trim_start(text.skip(1))
    } else {
        text
    }
}

/// A text without the white space that it ends with.
pub open spec fn trim_end(text: Seq<char>) -> Seq<char>
    decreases text.len(),
{
    if text.len() > 0 && is_white_space(text.last()) {
        trim_end(text.drop_last())
    } else {
        text
    }
}

/// A text without the white space at either end.
pub open spec fn trim(text: Seq<char>) -> Seq<char> {
    trim_end(trim_start(text))
}

/// The length of the run of characters that `text` begins with and of which
/// none is white space.
pub open spec fn word_len(text: Seq<char>) -> nat
    decreases text.len(),
{
    if text.len() > 0 && !is_white_space(text[0]) {
        1 + word_len(text.skip(1))
    } else {
        0
    }
}

/// The words of a text: its longest runs without white space.
pub open spec fn words(text: Seq<char>) -> Seq<Seq<char>>
    decreases text.len(),
{
    let rest = trim_start(text);
    proof {
        lemma_trim_start(text);
        lemma_word_len(rest);
    }
    if rest.len() == 0 {
        Seq::empty()
    } else {
        seq![rest.take(word_len(rest) as int)] + words(rest.skip(word_len(rest) as int))
    }
}

/// What is left of a text once its leading white space is gone is no longer
/// than the text and begins with something else.
pub proof fn lemma_trim_start(text: Seq<char>)
    ensures
        trim_start(text).len() <= text.len(),
        trim_start(text).len() > 0 ==> !is_white_space(trim_start(text)[0]),
    decreases text.len(),
{
    if text.len() > 0 && is_white_space(text[0]) {
        lemma_trim_start(text.skip(1));
    }
}

/// A word fits in its text, and is not empty where the text begins with one.
pub proof fn lemma_word_len(text: Seq<char>)
    ensures
        word_len(text) <= text.len(),
        text.len() > 0 && !is_white_space(text[0]) ==> word_len(text) > 0,
    decreases text.len(),
{
    if text.len() > 0 && !is_white_space(text[0]) {
        lemma_word_len(text.skip(1));
    }
}

/// The characters of a string.
pub fn chars_of(text: &str) -> (r: Vec<char>)
    ensures
        r@ == text@,
{
    let mut r: Vec<char> = Vec::new();
    for c in it: text.chars()
        invariant
            r@ == text@.take(it.index()),
            it.seq() == text@,
    {
        r.push(c);
        assert(text@.take(it.index() + 1) =~= text@.take(it.index()).push(c));
    }
    assert(text@.take(text@.len() as int) =~= text@);
    r
}

/// The string made of the given characters.
pub fn string_of(chars: &[char]) -> (r: String)
    ensures
        r@ == chars@,
{
    let mut r = String::new();
    let mut i: usize = 0;
    while i < chars.len()
        invariant
            i <= chars.len(),
            r@ == chars@.take(i as int),
        decreases chars.len() - i,
    {
        r.push(chars[i]);
        i += 1;
        assert(chars@.take(i as int) =~= chars@.take(i - 1).push(chars@[i - 1]));
    }
    assert(chars@.take(chars@.len() as int) =~= chars@);
    r
}

/// Whether two sequences of characters are the same.
fn same_chars(a: &[char], b: &[char]) -> (r: bool)
    ensures
        r == (a@ == b@),
{
    if a.len() != b.len() {
        return false;
    }
    let mut i: usize = 0;
    while i < a.len()
        invariant
            i <= a.len() == b.len(),
            a@.take(i as int) == b@.take(i as int),
        decreases a.len() - i,
    {
        if a[i] != b[i] {
            return false;
        }
        i += 1;
        assert(a@.take(i as int) =~= a@.take(i - 1).push(a@[i - 1]));
        assert(b@.take(i as int) =~= b@.take(i - 1).push(b@[i - 1]));
    }
    assert(a@.take(i as int) =~= a@ && b@.take(i as int) =~= b@);
    true
}

/// Whether two strings hold the same text.
pub fn same_text(a: &str, b: &str) -> (r: bool)
    ensures
        r == (a@ == b@),
{
    let a: Vec<char> = chars_of(a);
    let b: Vec<char> = chars_of(b);
    same_chars(a.as_slice(), b.as_slice())
}

/// Whether `pat` stands in `text` at position `i`.
fn occurs(text: &[char], pat: &[char], i: usize) -> (r: bool)
    ensures
        r == occurs_at(text@, pat@, i as int),
{
    if pat.len() > text.len() || i > text.len() - pat.len() {
        return false;
    }
    same_chars(slice_subrange(text, i, i + pat.len()), pat)
}

/// The first position where `pat` stands in `text`.
pub(crate) fn search(text: &[char], pat: &[char]) -> (r: Option<usize>)
    ensures
        match r {
            Some(i) => find(text@, pat@) == Some(i as int),
            None => find(text@, pat@) is None,
        },
{
    if pat.len() > text.len() {
        return None;
    }
    let last: usize = text.len() - pat.len();
    let mut i: usize = 0;
    loop
        invariant
            i <= last == text.len() - pat.len(),
            find(text@, pat@) == find_from(text@, pat@, i as int),
        decreases last - i,
    {
        if occurs(text, pat, i) {
            return Some(i);
        }
        if i == last {
            assert(find_from(text@, pat@, i + 1) is None);
            return None;
        }
        i += 1;
    }
}

/// Whether `pat` stands anywhere in `text`.
pub(crate) fn contains_chars(text: &[char], pat: &[char]) -> (r: bool)
    ensures
        r == mentions(text@, pat@),
{
    proof {
        lemma_find_from(text@, pat@, 0);
    }
    search(text, pat).is_some()
}

/// Whether `pat` stands anywhere in `text`.
pub fn contains(text: &str, pat: &str) -> (r: bool)
    ensures
        r == mentions(text@, pat@),
{
    let text: Vec<char> = chars_of(text);
    let pat: Vec<char> = chars_of(pat);
    contains_chars(text.as_slice(), pat.as_slice())
}

/// Whether `text` begins with `pat`.
pub fn starts_with(text: &str, pat: &str) -> (r: bool)
    ensures
        r == begins(text@, pat@),
{
    let text: Vec<char> = chars_of(text);
    let pat: Vec<char> = chars_of(pat);
    occurs(text.as_slice(), pat.as_slice(), 0)
}

/// The position of the last `c` in `text`.
pub(crate) fn search_last(text: &[char], c: char) -> (r: Option<usize>)
    ensures
        match r {
            Some(i) => rfind(text@, c) == Some(i as int),
            None => rfind(text@, c) is None,
        },
{
    let mut n: usize = text.len();
    assert(text@.take(n as int) =~= text@);
    while n > 0
        invariant
            n <= text.len(),
            rfind(text@, c) == rfind(text@.take(n as int), c),
        decreases n,
    {
        if text[n - 1] == c {
            return Some(n - 1);
        }
        assert(text@.take(n as int).drop_last() =~= text@.take(n - 1));
        n -= 1;
    }
    None
}

/// A text without the white space at either end.
pub fn trimmed(text: &str) -> (r: String)
    ensures
        r@ == trim(text@),
{
    let chars: Vec<char> = chars_of(text);
    let mut from: usize = 0;
    assert(chars@.skip(0) =~= chars@);
    while from < chars.len() && chars[from].is_whitespace()
        invariant
            from <= chars.len(),
            trim_start(text@) == trim_start(chars@.skip(from as int)),
        decreases chars.len() - from,
    {
        assert(chars@.skip(from as int).skip(1) =~= chars@.skip(from + 1));
        from += 1;
    }
    let mut to: usize = chars.len();
    assert(chars@.subrange(from as int, to as int) =~= chars@.skip(from as int));
    while from < to && chars[to - 1].is_whitespace()
        invariant
            from <= to <= chars.len(),
            trim(text@) == trim_end(chars@.subrange(from as int, to as int)),
        decreases to,
    {
        assert(chars@.subrange(from as int, to as int).drop_last() =~= chars@.subrange(
            from as int,
            to - 1,
        ));
        to -= 1;
    }
    string_of(slice_subrange(chars.as_slice(), from, to))
}

/// The words of a text.
pub fn split_words(text: &str) -> (r: Vec<String>)
    ensures
        texts(r@) == words(text@),
{
    let chars: Vec<char> = chars_of(text);
    let mut r: Vec<String> = Vec::new();
    let mut at: usize = 0;
    assert(chars@.skip(0) =~= chars@);
    assert(texts(r@) + words(text@) =~= words(text@));
    while at < chars.len()
        invariant
            at <= chars.len(),
            texts(r@) + words(chars@.skip(at as int)) == words(text@),
        decreases chars.len() - at,
    {
        let ghost rest = chars@.skip(at as int);
        if chars[at].is_whitespace() {
            assert(rest.skip(1) =~= chars@.skip(at + 1));
            assert(words(rest) == words(rest.skip(1))) by {
                assert(trim_start(rest) == trim_start(rest.skip(1)));
            }
            at += 1;
        } else {
            let start: usize = at;
            while at < chars.len() && !chars[at].is_whitespace()
                invariant
                    start <= at <= chars.len(),
                    rest == chars@.skip(start as int),
                    word_len(rest) == at - start + word_len(chars@.skip(at as int)),
                decreases chars.len() - at,
            {
                assert(chars@.skip(at as int).skip(1) =~= chars@.skip(at + 1));
                at += 1;
            }
            assert(word_len(rest) == at - start);
            proof {
                lemma_word_len(rest);
            }
            let ghost before = r@;
            r.push(string_of(slice_subrange(chars.as_slice(), start, at)));
            assert(rest.take(at - start) =~= chars@.subrange(start as int, at as int));
            assert(rest.skip(at - start) =~= chars@.skip(at as int));
            assert(texts(r@) =~= texts(before).push(rest.take(at - start)));
            assert(trim_start(rest) == rest);
            assert(texts(before) + (seq![rest.take(at - start)] + words(chars@.skip(at as int)))
                =~= texts(r@) + words(chars@.skip(at as int)));
        }
    }
    assert(words(chars@.skip(at as int)) =~= Seq::<Seq<char>>::empty());
    assert(texts(r@) + Seq::<Seq<char>>::empty() =~= texts(r@));
    r
}

} // verus!
