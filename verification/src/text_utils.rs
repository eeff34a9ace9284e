//! Pieces of text: values between markers, and the parts of file names.
use crate::text::{chars_of, find, lemma_find_from, lemma_rfind, rfind, search, search_last, string_of};
use vstd::prelude::*;
use vstd::slice::slice_subrange;

verus! {

/// What stands in a text between the first `start` and the first `end` after
/// it, if both are there.
pub open spec fn enclosed_value(start: Seq<char>, end: Seq<char>, text: Seq<char>) -> Option<
    Seq<char>,
> {
    match find(text, start) {
        Some(i) => {
            let rest = text.skip(i + start.len());
            match find(rest, end) {
                Some(j) => Some(rest.take(j)),
                None => None,
            }
        },
        None => None,
    }
}

/// What stands in a text between the first `start` and the first `end` after
/// it, if both are there.
pub fn parse_enclosed_value(start: &str, end: &str, text: &str) -> (r: Option<String>)
    ensures
        match r {
            Some(value) => enclosed_value(start@, end@, text@) == Some(value@),
            None => enclosed_value(start@, end@, text@) is None,
        },
{
    let text: Vec<char> = chars_of(text);
    let start: Vec<char> = chars_of(start);
    let end: Vec<char> = chars_of(end);
    proof {
        lemma_find_from(text@, start@, 0);
    }
    let size: usize = text.len();
    let i: usize = match search(text.as_slice(), start.as_slice()) {
        Some(i) => i,
        None => {
            return None;
        },
    };
    let rest: &[char] = slice_subrange(text.as_slice(), i + start.len(), size);
    assert(rest@ =~= text@.skip(i + start@.len()));
    proof {
        lemma_find_from(rest@, end@, 0);
    }
    match search(rest, end.as_slice()) {
        Some(j) => {
            assert(rest@.subrange(0, j as int) =~= rest@.take(j as int));
            Some(string_of(slice_subrange(rest, 0, j)))
        },
        None => None,
    }
}

/// The stem of a file name: what stands before its last dot, or all of it
/// where there is no dot but at the beginning.
pub open spec fn stem(name: Seq<char>) -> Seq<char> {
    match rfind(name, '.') {
        Some(i) => if i == 0 {
            name
        } else {
            name.take(i)
        },
        None => name,
    }
}

/// The stem of the name of a directory entry.
pub fn file_stem(name: &str) -> (r: String)
    ensures
        r@ == stem(name@),
{
    let chars: Vec<char> = chars_of(name);
    proof {
        lemma_rfind(chars@, '.');
    }
    match search_last(chars.as_slice(), '.') {
        Some(i) => {
            if i == 0 {
                string_of(chars.as_slice())
            } else {
                assert(chars@.subrange(0, i as int) =~= chars@.take(i as int));
                string_of(slice_subrange(chars.as_slice(), 0, i))
            }
        },
        None => string_of(chars.as_slice()),
    }
}

/// The name that a stem and an extension make.
pub open spec fn with_extension(stem: Seq<char>, extension: Seq<char>) -> Seq<char> {
    stem + "."@ + extension
}

/// A name made of a stem and an extension without a dot has that stem.
pub proof fn lemma_stem_of_name(base: Seq<char>, extension: Seq<char>)
    requires
        base.len() > 0,
        !extension.contains('.'),
    ensures
        stem(with_extension(base, extension)) == base,
{
    reveal_strlit(".");
    let name = with_extension(base, extension);
    lemma_rfind(name, '.');
    assert(name[base.len() as int] == '.');
    let i = rfind(name, '.').unwrap();
    if i > base.len() {
        assert(name[i] == extension[i - base.len() - 1]);
    }
    assert(name.take(i) =~= base);
}

} // verus!
