//! What searching, splitting and trimming give, in terms of how a text is put
//! together.
use crate::text::{
    begins, ends, find, is_white_space, lemma_find_from, lemma_rfind, lines, mentions, occurs_at,
    rfind, texts, trim, trim_end, trim_start, without_return, word_len, words,
};
use crate::text_utils::{enclosed_value, lemma_stem_of_name, stem, with_extension};
use vstd::prelude::*;

verus! {

/// A pattern stands at the end of what comes before it.
pub proof fn law_occurrence_splits_the_text(before: Seq<char>, pat: Seq<char>, after: Seq<char>)
    ensures
        occurs_at(before + pat + after, pat, before.len() as int),
{
    let text = before + pat + after;
    assert(text.subrange(before.len() as int, before.len() + pat.len() as int) =~= pat);
}

/// A text mentions a pattern exactly if it is something, the pattern, and
/// something more.
pub proof fn law_mentioned_text_stands_in_between(text: Seq<char>, pat: Seq<char>)
    ensures
        mentions(text, pat) <==> exists|before: Seq<char>, after: Seq<char>|
            text == #[trigger] (before + pat + after),
{
    if mentions(text, pat) {
        let i = choose|i: int| occurs_at(text, pat, i);
        assert(text =~= text.take(i) + pat + text.skip(i + pat.len()));
    }
    if exists|before: Seq<char>, after: Seq<char>| text == #[trigger] (before + pat + after) {
        let (before, after) = choose|before: Seq<char>, after: Seq<char>|
            text == #[trigger] (before + pat + after);
        law_occurrence_splits_the_text(before, pat, after);
    }
}

/// A text begins with a pattern exactly if it is the pattern and something
/// more.
pub proof fn law_beginning_is_followed_by_the_rest(text: Seq<char>, pat: Seq<char>)
    ensures
        begins(text, pat) <==> exists|after: Seq<char>| text == #[trigger] (pat + after),
{
    if begins(text, pat) {
        assert(text =~= pat + text.skip(pat.len() as int));
    }
    if exists|after: Seq<char>| text == #[trigger] (pat + after) {
        let after = choose|after: Seq<char>| text == #[trigger] (pat + after);
        assert(text.subrange(0, pat.len() as int) =~= pat);
    }
}

/// A text ends with a pattern exactly if it is something and the pattern.
pub proof fn law_ending_follows_the_rest(text: Seq<char>, pat: Seq<char>)
    ensures
        ends(text, pat) <==> exists|before: Seq<char>| text == #[trigger] (before + pat),
{
    if ends(text, pat) {
        assert(text =~= text.take(text.len() - pat.len()) + pat);
    }
    if exists|before: Seq<char>| text == #[trigger] (before + pat) {
        let before = choose|before: Seq<char>| text == #[trigger] (before + pat);
        assert(text.subrange(text.len() - pat.len(), text.len() as int) =~= pat);
    }
}

/// A search finds the first place where the pattern can be cut out, and fails
/// exactly if there is none.
pub proof fn law_search_finds_the_first_place(text: Seq<char>, pat: Seq<char>, i: int)
    ensures
        find(text, pat) == Some(i) <==> {
            &&& 0 <= i <= text.len() - pat.len()
            &&& text.subrange(i, i + pat.len()) == pat
            &&& forall|j: int|
                0 <= j < i ==> #[trigger] text.subrange(j, j + pat.len()) != pat
        },
        find(text, pat) is None <==> forall|j: int|
            0 <= j <= text.len() - pat.len() ==> #[trigger] text.subrange(j, j + pat.len()) != pat,
{
    lemma_find_from(text, pat, 0);
    if let Some(n) = find(text, pat) {
        assert(occurs_at(text, pat, n));
        assert forall|j: int| 0 <= j < n implies #[trigger] text.subrange(j, j + pat.len()) != pat by {
            assert(!occurs_at(text, pat, j));
        }
        if 0 <= i <= text.len() - pat.len() && text.subrange(i, i + pat.len()) == pat && i < n {
            assert(!occurs_at(text, pat, i));
        }
        assert(text.subrange(n, n + pat.len()) == pat);
    } else {
        assert forall|j: int| 0 <= j <= text.len() - pat.len() implies #[trigger] text.subrange(
            j,
            j + pat.len(),
        ) != pat by {
            assert(!occurs_at(text, pat, j));
        }
    }
}

/// The search for the last place of a character gives a place that holds it
/// and after which it does not come again, and fails exactly if it is nowhere.
pub proof fn law_last_place_is_the_last(text: Seq<char>, c: char, i: int)
    ensures
        rfind(text, c) == Some(i) <==> {
            &&& 0 <= i < text.len()
            &&& text[i] == c
            &&& !text.skip(i + 1).contains(c)
        },
        rfind(text, c) is None <==> !text.contains(c),
{
    lemma_rfind(text, c);
    if let Some(n) = rfind(text, c) {
        assert(!text.skip(n + 1).contains(c)) by {
            let rest = text.skip(n + 1);
            if rest.contains(c) {
                let k = choose|k: int| 0 <= k < rest.len() && rest[k] == c;
                assert(text[n + 1 + k] == c);
            }
        }
        if 0 <= i < n && text[i] == c {
            assert(text.skip(i + 1)[n - i - 1] == c);
        }
        assert(text[n] == c);
    }
}

/// A list of strings and the list of their texts go side by side.
pub proof fn law_texts_go_side_by_side(strings: Seq<String>, i: int)
    requires
        0 <= i < strings.len(),
    ensures
        texts(strings).len() == strings.len(),
        texts(strings)[i] == strings[i]@,
{
}

/// Up to a newline stands one line, without a carriage return at its end; the
/// lines after the newline follow. A text without a newline is one line as it
/// is, and an empty text is none.
pub proof fn law_lines_are_what_newlines_part(line: Seq<char>, rest: Seq<char>)
    requires
        !line.contains('\n'),
    ensures
        lines(line.push('\n') + rest) == seq![without_return(line)] + lines(rest),
        line.len() > 0 ==> lines(line) == seq![line],
        lines(Seq::<char>::empty()).len() == 0,
        without_return(line.push('\r')) == line,
        !ends(line, seq!['\r']) ==> without_return(line) == line,
{
    let text = line.push('\n') + rest;
    let newline = seq!['\n'];
    law_search_finds_the_first_place(text, newline, line.len() as int);
    assert(text.subrange(line.len() as int, line.len() as int + 1) =~= newline);
    assert forall|j: int| 0 <= j < line.len() implies #[trigger] text.subrange(j, j + 1)
        != newline by {
        assert(text.subrange(j, j + 1)[0] == line[j]);
        assert(newline[0] == '\n');
    }
    assert(text.take(line.len() as int) =~= line);
    assert(text.skip(line.len() as int + 1) =~= rest);
    law_search_finds_the_first_place(line, newline, 0);
    assert forall|j: int| 0 <= j <= line.len() - 1 implies #[trigger] line.subrange(j, j + 1)
        != newline by {
        assert(line.subrange(j, j + 1)[0] == line[j]);
        assert(newline[0] == '\n');
    }
    assert(line.push('\r').drop_last() =~= line);
    if line.len() > 0 && line.last() == '\r' {
        assert(line.subrange(line.len() - 1, line.len() as int) =~= seq!['\r']);
    }
}

/// White space is what Unicode lists as such.
pub proof fn law_white_space_is_unicodes(c: char)
    ensures
        is_white_space(c) <==> ('\t' <= c <= '\r') || c == ' ' || c == '\u{85}' || c == '\u{a0}'
            || c == '\u{1680}' || ('\u{2000}' <= c <= '\u{200a}') || c == '\u{2028}' || c
            == '\u{2029}' || c == '\u{202f}' || c == '\u{205f}' || c == '\u{3000}',
{
}

/// Whether a text is white space through and through.
pub open spec fn is_blank(text: Seq<char>) -> bool {
    forall|i: int| 0 <= i < text.len() ==> is_white_space(#[trigger] text[i])
}

/// Whether white space stands nowhere in a text.
pub open spec fn is_solid(text: Seq<char>) -> bool {
    forall|i: int| 0 <= i < text.len() ==> !is_white_space(#[trigger] text[i])
}

/// White space before a text is dropped from its beginning.
proof fn lemma_trim_start_drops(blank: Seq<char>, text: Seq<char>)
    requires
        is_blank(blank),
    ensures
        trim_start(blank + text) == trim_start(text),
    decreases blank.len(),
{
    if blank.len() == 0 {
        assert(blank + text =~= text);
    } else {
        let rest = blank.skip(1);
        assert forall|i: int| 0 <= i < rest.len() implies is_white_space(#[trigger] rest[i]) by {
            assert(rest[i] == blank[i + 1]);
        }
        lemma_trim_start_drops(rest, text);
        assert(is_white_space(blank[0]));
        assert((blank + text).skip(1) =~= rest + text);
    }
}

/// White space after a text is dropped from its end.
proof fn lemma_trim_end_drops(text: Seq<char>, blank: Seq<char>)
    requires
        is_blank(blank),
    ensures
        trim_end(text + blank) == trim_end(text),
    decreases blank.len(),
{
    if blank.len() == 0 {
        assert(text + blank =~= text);
    } else {
        let rest = blank.drop_last();
        lemma_trim_end_drops(text, rest);
        assert(is_white_space(blank[blank.len() - 1]));
        assert((text + blank).drop_last() =~= text + rest);
    }
}

/// Trimming leaves what stands between the white space at the two ends. A text
/// of white space alone leaves nothing.
pub proof fn law_trimming_leaves_the_middle(left: Seq<char>, middle: Seq<char>, right: Seq<char>)
    requires
        is_blank(left),
        is_blank(right),
        middle.len() > 0 ==> !is_white_space(middle[0]) && !is_white_space(middle.last()),
    ensures
        trim(left + middle + right) == middle,
{
    assert(left + middle + right =~= left + (middle + right));
    lemma_trim_start_drops(left, middle + right);
    if middle.len() > 0 {
        assert((middle + right)[0] == middle[0]);
        lemma_trim_end_drops(middle, right);
    } else {
        assert(middle + right =~= right + middle);
        lemma_trim_start_drops(right, middle);
        assert(trim_start(middle) =~= middle);
        assert(trim_end(middle) =~= middle);
    }
}

/// A text is what trimming leaves of it, with white space at the two ends.
pub proof fn law_trimming_drops_white_space_alone(text: Seq<char>)
    ensures
        exists|left: Seq<char>, right: Seq<char>|
            is_blank(left) && is_blank(right) && text == #[trigger] (left + trim(text) + right),
        trim(text).len() == 0 <==> is_blank(text),
{
    let (left, start) = lemma_trim_start_splits(text);
    let (end, right) = lemma_trim_end_splits(start);
    assert(text =~= left + trim(text) + right);
    if trim(text).len() == 0 {
        assert forall|i: int| 0 <= i < text.len() implies is_white_space(#[trigger] text[i]) by {
            if i < left.len() {
                assert(text[i] == left[i]);
            } else {
                assert(text[i] == right[i - left.len()]);
            }
        }
    }
    if is_blank(text) {
        let none = Seq::<char>::empty();
        law_trimming_leaves_the_middle(text, none, none);
        assert(text + none + none =~= text);
    }
}

proof fn lemma_trim_start_splits(text: Seq<char>) -> (r: (Seq<char>, Seq<char>))
    ensures
        is_blank(r.0),
        r.1 == trim_start(text),
        text == r.0 + r.1,
    decreases text.len(),
{
    if text.len() > 0 && is_white_space(text[0]) {
        let (blank, rest) = lemma_trim_start_splits(text.skip(1));
        let all = seq![text[0]] + blank;
        assert forall|i: int| 0 <= i < all.len() implies is_white_space(#[trigger] all[i]) by {
            if i > 0 {
                assert(all[i] == blank[i - 1]);
            }
        }
        assert(text =~= seq![text[0]] + text.skip(1));
        assert(text =~= all + rest);
        (all, rest)
    } else {
        assert(text =~= Seq::<char>::empty() + text);
        (Seq::empty(), text)
    }
}

proof fn lemma_trim_end_splits(text: Seq<char>) -> (r: (Seq<char>, Seq<char>))
    ensures
        is_blank(r.1),
        r.0 == trim_end(text),
        text == r.0 + r.1,
    decreases text.len(),
{
    if text.len() > 0 && is_white_space(text.last()) {
        let (rest, blank) = lemma_trim_end_splits(text.drop_last());
        let all = blank.push(text.last());
        assert forall|i: int| 0 <= i < all.len() implies is_white_space(#[trigger] all[i]) by {
            if i < blank.len() {
                assert(all[i] == blank[i]);
            }
        }
        assert(text =~= text.drop_last().push(text.last()));
        assert(text =~= rest + all);
        (rest, all)
    } else {
        assert(text =~= text + Seq::<char>::empty());
        (text, Seq::empty())
    }
}

/// A text of white space alone has no words. A word that white space or the
/// beginning precedes, and white space or the end follows, is the first word;
/// the words of the rest follow.
pub proof fn law_words_are_what_white_space_parts(
    blank: Seq<char>,
    word: Seq<char>,
    gap: char,
    rest: Seq<char>,
)
    requires
        is_blank(blank),
        is_solid(word),
        word.len() > 0,
        is_white_space(gap),
    ensures
        words(blank).len() == 0,
        words(blank + word) == seq![word],
        words(blank + word + (seq![gap] + rest)) == seq![word] + words(rest),
{
    let none = Seq::<char>::empty();
    lemma_trim_start_drops(blank, none);
    assert(blank + none =~= blank);
    lemma_trim_start_drops(blank, word);
    assert(word[0] == word[0] && !is_white_space(word[0]));
    lemma_word_len_is(word, none);
    assert(word + none =~= word);
    assert(word.take(word.len() as int) =~= word);
    assert(word.skip(word.len() as int) =~= none);
    assert(words(none) =~= Seq::<Seq<char>>::empty());
    assert(words(blank + word) =~= seq![word]);
    let after = seq![gap] + rest;
    assert(blank + word + after =~= blank + (word + after));
    lemma_trim_start_drops(blank, word + after);
    assert((word + after)[0] == word[0]);
    lemma_word_len_is(word, after);
    assert((word + after).take(word.len() as int) =~= word);
    assert((word + after).skip(word.len() as int) =~= after);
    let lone = seq![gap];
    assert(is_blank(lone));
    lemma_trim_start_drops(lone, rest);
    assert(words(after) == words(rest));
}

/// A word ends where the text does or white space begins.
proof fn lemma_word_len_is(word: Seq<char>, after: Seq<char>)
    requires
        is_solid(word),
        after.len() > 0 ==> is_white_space(after[0]),
    ensures
        word_len(word + after) == word.len(),
    decreases word.len(),
{
    let text = word + after;
    if word.len() == 0 {
        assert(text =~= after);
    } else {
        let rest = word.skip(1);
        assert forall|i: int| 0 <= i < rest.len() implies !is_white_space(#[trigger] rest[i]) by {
            assert(rest[i] == word[i + 1]);
        }
        lemma_word_len_is(rest, after);
        assert(text[0] == word[0]);
        assert(text.skip(1) =~= rest + after);
    }
}

/// Between a start marker, where it first comes, and the end marker that next
/// comes after it stands the enclosed value.
pub proof fn law_enclosed_value_stands_between_the_markers(
    start: Seq<char>,
    end: Seq<char>,
    before: Seq<char>,
    value: Seq<char>,
    after: Seq<char>,
)
    requires
        find(before + start + value + end + after, start) == Some(before.len() as int),
        find(value + end + after, end) == Some(value.len() as int),
    ensures
        enclosed_value(start, end, before + start + value + end + after) == Some(value),
{
    let text = before + start + value + end + after;
    assert(text.skip(before.len() as int + start.len()) =~= value + end + after);
    assert((value + end + after).take(value.len() as int) =~= value);
}

/// An enclosed value stands between the two markers, holds no end marker, and
/// there is one exactly if an end marker comes after the first start marker.
pub proof fn law_enclosed_value_is_enclosed(start: Seq<char>, end: Seq<char>, text: Seq<char>)
    ensures
        enclosed_value(start, end, text) matches Some(value) ==> {
            let i = find(text, start)->0;
            let j = i + start.len() + value.len();
            &&& find(text, start) is Some
            &&& text == text.take(i) + start + value + end + text.skip(j + end.len())
        },
        enclosed_value(start, end, text) matches Some(value) ==> end.len() > 0 ==> !mentions(
            value,
            end,
        ),
        enclosed_value(start, end, text) is None <==> !mentions(text, start) || !mentions(
            text.skip(find(text, start)->0 + start.len()),
            end,
        ),
{
    lemma_find_from(text, start, 0);
    if let Some(i) = find(text, start) {
        let rest = text.skip(i + start.len());
        lemma_find_from(rest, end, 0);
        if let Some(j) = find(rest, end) {
            let value = rest.take(j);
            let after = rest.skip(j + end.len());
            assert(occurs_at(rest, end, j));
            assert(occurs_at(text, start, i));
            let before = text.take(i);
            assert(text =~= before + start + value + end + after);
            assert(after =~= text.skip(i + start.len() + value.len() + end.len()));
            if end.len() > 0 && mentions(value, end) {
                let k = choose|k: int| occurs_at(value, end, k);
                assert(rest.subrange(k, k + end.len()) =~= value.subrange(k, k + end.len()));
                assert(occurs_at(rest, end, k));
            }
        }
    }
}

/// The stem of a name is what stands before its last dot; a name whose only
/// dot, if any, comes first is its own stem.
pub proof fn law_stem_stands_before_the_last_dot(name: Seq<char>, base: Seq<char>)
    ensures
        stem(name) == base <==> {
            ||| name == base && forall|k: int| 1 <= k < name.len() ==> name[k] != '.'
            ||| base.len() > 0 && exists|extension: Seq<char>|
                !extension.contains('.') && name == #[trigger] (base + seq!['.'] + extension)
        },
{
    lemma_rfind(name, '.');
    reveal_strlit(".");
    assert("."@ =~= seq!['.']);
    match rfind(name, '.') {
        Some(i) if i > 0 => {
            let extension = name.skip(i + 1);
            assert(!extension.contains('.')) by {
                if extension.contains('.') {
                    let k = choose|k: int| 0 <= k < extension.len() && extension[k] == '.';
                    assert(name[i + 1 + k] == '.');
                }
            }
            assert(name =~= name.take(i) + seq!['.'] + extension);
            assert(name[i] == '.');
        },
        _ => {},
    }
    if base.len() > 0 && exists|extension: Seq<char>|
        !extension.contains('.') && name == #[trigger] (base + seq!['.'] + extension) {
        let extension = choose|extension: Seq<char>|
            !extension.contains('.') && name == #[trigger] (base + seq!['.'] + extension);
        lemma_stem_of_name(base, extension);
    }
}

/// A name is its stem, a dot and its extension.
pub proof fn law_extension_follows_a_dot(base: Seq<char>, extension: Seq<char>)
    ensures
        with_extension(base, extension) == base + seq!['.'] + extension,
{
    reveal_strlit(".");
    assert("."@ =~= seq!['.']);
}

} // verus!
