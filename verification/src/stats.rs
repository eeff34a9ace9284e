//! How many tracks were downloaded in each format.
use crate::text::chars_of;
use vstd::prelude::*;

verus! {

/// Whether a text comes before another in the order of their characters.
pub open spec fn precedes(a: Seq<char>, b: Seq<char>) -> bool
    decreases a.len(),
{
    if b.len() == 0 {
        false
    } else if a.len() == 0 {
        true
    } else if a[0] != b[0] {
        a[0] < b[0]
    } else {
        precedes(a.skip(1), b.skip(1))
    }
}

/// No text comes before itself, and of two different texts one comes first.
pub proof fn lemma_precedes_is_total(a: Seq<char>, b: Seq<char>)
    ensures
        !precedes(a, a),
        a != b ==> precedes(a, b) || precedes(b, a),
        precedes(a, b) ==> !precedes(b, a),
    decreases a.len(),
{
    if a.len() > 0 {
        if b.len() > 0 {
            lemma_precedes_is_total(a.skip(1), b.skip(1));
            if a[0] == b[0] && a.skip(1) == b.skip(1) {
                assert(a =~= seq![a[0]] + a.skip(1));
                assert(b =~= seq![b[0]] + b.skip(1));
            }
        } else {
            lemma_precedes_is_total(a.skip(1), b);
        }
    } else if b.len() == 0 {
        assert(a =~= b);
    }
}

/// What comes before a text comes before all that come after it.
pub proof fn lemma_precedes_is_transitive(a: Seq<char>, b: Seq<char>, c: Seq<char>)
    requires
        precedes(a, b),
        precedes(b, c),
    ensures
        precedes(a, c),
    decreases a.len(),
{
    if a.len() > 0 && b.len() > 0 && c.len() > 0 && a[0] == b[0] && b[0] == c[0] {
        lemma_precedes_is_transitive(a.skip(1), b.skip(1), c.skip(1));
    }
}

/// How two texts lie to each other.
#[derive(Clone, Copy, PartialEq, Eq, Structural)]
enum Place {
    Before,
    Same,
    After,
}

/// How `a` lies to `b` in the order of their characters.
fn place(a: &str, b: &str) -> (r: Place)
    ensures
        match r {
            Place::Before => precedes(a@, b@),
            Place::Same => a@ == b@,
            Place::After => precedes(b@, a@),
        },
{
    let x: Vec<char> = chars_of(a);
    let y: Vec<char> = chars_of(b);
    let mut i: usize = 0;
    assert(x@.skip(0) =~= x@ && y@.skip(0) =~= y@);
    while i < x.len() && i < y.len()
        invariant
            x@ == a@,
            y@ == b@,
            i <= x.len(),
            i <= y.len(),
            x@.take(i as int) == y@.take(i as int),
            precedes(x@, y@) == precedes(x@.skip(i as int), y@.skip(i as int)),
            precedes(y@, x@) == precedes(y@.skip(i as int), x@.skip(i as int)),
        decreases x.len() - i,
    {
        if x[i] < y[i] {
            return Place::Before;
        }
        if y[i] < x[i] {
            return Place::After;
        }
        assert(x@.skip(i as int).skip(1) =~= x@.skip(i + 1));
        assert(y@.skip(i as int).skip(1) =~= y@.skip(i + 1));
        assert(x@.take(i + 1) =~= x@.take(i as int).push(x@[i as int]));
        assert(y@.take(i + 1) =~= y@.take(i as int).push(y@[i as int]));
        i += 1;
    }
    if i < y.len() {
        Place::Before
    } else if i < x.len() {
        Place::After
    } else {
        assert(x@ =~= x@.take(i as int) && y@ =~= y@.take(i as int));
        Place::Same
    }
}

/// The counts that a list of formats and counts stands for.
pub open spec fn counts(entries: Seq<(String, usize)>) -> Map<Seq<char>, usize>
    decreases entries.len(),
{
    if entries.len() == 0 {
        Map::empty()
    } else {
        counts(entries.drop_last()).insert(entries.last().0@, entries.last().1)
    }
}

/// The counts after one more track of a format.
pub open spec fn counted(stats: Map<Seq<char>, usize>, format: Seq<char>) -> Map<Seq<char>, usize> {
    stats.insert(
        format,
        if stats.contains_key(format) {
            (stats[format] + 1) as usize
        } else {
            1
        },
    )
}

/// The counts after tracks of the given formats.
pub open spec fn tally(formats: Seq<Seq<char>>) -> Map<Seq<char>, usize>
    decreases formats.len(),
{
    if formats.len() == 0 {
        Map::empty()
    } else {
        counted(tally(formats.drop_last()), formats.last())
    }
}

/// How often a format stands among the given ones.
pub open spec fn occurrences(formats: Seq<Seq<char>>, format: Seq<char>) -> nat
    decreases formats.len(),
{
    if formats.len() == 0 {
        0
    } else {
        occurrences(formats.drop_last(), format) + if formats.last() == format {
            1nat
        } else {
            0nat
        }
    }
}

/// Each format counts as many tracks as were downloaded in it, and no other
/// format is listed.
pub proof fn law_counts_are_the_downloaded_tracks(formats: Seq<Seq<char>>, format: Seq<char>)
    requires
        formats.len() <= usize::MAX,
    ensures
        tally(formats).contains_key(format) <==> formats.contains(format),
        tally(formats).contains_key(format) ==> tally(formats)[format] == occurrences(
            formats,
            format,
        ),
        occurrences(formats, format) <= formats.len(),
        !formats.contains(format) ==> occurrences(formats, format) == 0,
    decreases formats.len(),
{
    if formats.len() > 0 {
        let front = formats.drop_last();
        law_counts_are_the_downloaded_tracks(front, format);
        if front.contains(format) {
            let i = choose|i: int| 0 <= i < front.len() && front[i] == format;
            assert(formats[i] == format);
        }
        assert(formats[formats.len() - 1] == formats.last());
        if formats.contains(format) && formats.last() != format {
            let i = choose|i: int| 0 <= i < formats.len() && formats[i] == format;
            assert(front[i] == format);
        }
    }
}

/// Whether a list is in the order of its formats and names each once.
pub open spec fn is_sorted(entries: Seq<(String, usize)>) -> bool {
    forall|i: int, j: int|
        0 <= i < j < entries.len() ==> precedes(
            (#[trigger] entries[i]).0@,
            (#[trigger] entries[j]).0@,
        )
}

/// How many tracks were downloaded in each format.
pub struct FormatStats {
    entries: Vec<(String, usize)>,
}

impl View for FormatStats {
    type V = Map<Seq<char>, usize>;

    closed spec fn view(&self) -> Map<Seq<char>, usize> {
        counts(self.entries@)
    }
}

/// A sorted list gives each of its formats the count beside it, and no other
/// format one.
pub proof fn lemma_counts(entries: Seq<(String, usize)>)
    requires
        is_sorted(entries),
    ensures
        forall|i: int|
            0 <= i < entries.len() ==> counts(entries).contains_key((#[trigger] entries[i]).0@)
                && counts(entries)[entries[i].0@] == entries[i].1,
        forall|k: Seq<char>| #[trigger]
            counts(entries).contains_key(k) ==> exists|i: int|
                0 <= i < entries.len() && (#[trigger] entries[i]).0@ == k,
    decreases entries.len(),
{
    if entries.len() > 0 {
        let front = entries.drop_last();
        assert(is_sorted(front)) by {
            assert forall|i: int, j: int| 0 <= i < j < front.len() implies precedes(
                (#[trigger] front[i]).0@,
                (#[trigger] front[j]).0@,
            ) by {
                assert(front[i] == entries[i] && front[j] == entries[j]);
            }
        }
        lemma_counts(front);
        assert forall|i: int| 0 <= i < entries.len() implies counts(entries).contains_key(
            (#[trigger] entries[i]).0@,
        ) && counts(entries)[entries[i].0@] == entries[i].1 by {
            if i < front.len() {
                assert(front[i] == entries[i]);
                assert(precedes(entries[i].0@, entries[entries.len() - 1].0@));
                lemma_precedes_is_total(entries[i].0@, entries[i].0@);
            }
        }
        assert forall|k: Seq<char>| #[trigger] counts(entries).contains_key(k) implies exists|i: int|
            0 <= i < entries.len() && (#[trigger] entries[i]).0@ == k by {
            if counts(front).contains_key(k) {
                let i = choose|i: int| 0 <= i < front.len() && (#[trigger] front[i]).0@ == k;
                assert(entries[i] == front[i]);
            } else {
                assert(entries[entries.len() - 1].0@ == k);
            }
        }
    }
}

/// Two sorted lists with the same entries, but one that only the second has
/// or has with another count, differ in that count alone.
proof fn lemma_counts_insert(
    before: Seq<(String, usize)>,
    after: Seq<(String, usize)>,
    at: int,
    added: bool,
)
    requires
        is_sorted(before),
        is_sorted(after),
        0 <= at < after.len(),
        added ==> before == after.remove(at),
        !added ==> before.len() == after.len() && before[at].0@ == after[at].0@ && before
            =~= after.update(at, before[at]),
    ensures
        counts(after) == counts(before).insert(after[at].0@, after[at].1),
        added ==> !counts(before).contains_key(after[at].0@),
        !added ==> counts(before).contains_key(after[at].0@) && counts(before)[after[at].0@]
            == before[at].1,
{
    lemma_counts(before);
    lemma_counts(after);
    let name = after[at].0@;
    let expected = counts(before).insert(name, after[at].1);
    assert forall|k: Seq<char>| counts(after).contains_key(k) <==> expected.contains_key(k) by {
        if counts(after).contains_key(k) && k != name {
            let i = choose|i: int| 0 <= i < after.len() && (#[trigger] after[i]).0@ == k;
            let j = if added && i > at {
                i - 1
            } else {
                i
            };
            assert(before[j] == after[i]);
        }
        if counts(before).contains_key(k) && k != name {
            let j = choose|j: int| 0 <= j < before.len() && (#[trigger] before[j]).0@ == k;
            let i = if added && j >= at {
                j + 1
            } else {
                j
            };
            assert(before[j] == after[i]);
        }
    }
    assert forall|k: Seq<char>| counts(after).contains_key(k) implies counts(after)[k]
        == expected[k] by {
        if k != name {
            let i = choose|i: int| 0 <= i < after.len() && (#[trigger] after[i]).0@ == k;
            let j = if added && i > at {
                i - 1
            } else {
                i
            };
            assert(before[j] == after[i]);
        }
    }
    assert(counts(after) =~= expected);
    if added && counts(before).contains_key(name) {
        let j = choose|j: int| 0 <= j < before.len() && (#[trigger] before[j]).0@ == name;
        let i = if j >= at {
            j + 1
        } else {
            j
        };
        assert(before[j] == after[i]);
        lemma_precedes_is_total(name, name);
    }
}

impl FormatStats {
    /// Whether the list behind the counts is in order.
    pub closed spec fn wf(&self) -> bool {
        is_sorted(self.entries@)
    }

    /// No tracks yet.
    pub fn new() -> (r: Self)
        ensures
            r.wf(),
            r@ == Map::<Seq<char>, usize>::empty(),
    {
        FormatStats { entries: Vec::new() }
    }

    /// Counts one more track of a format.
    pub fn record(&mut self, format: &str)
        requires
            old(self).wf(),
            old(self)@.contains_key(format@) ==> old(self)@[format@] < usize::MAX,
        ensures
            final(self).wf(),
            final(self)@ == counted(old(self)@, format@),
    {
        let ghost before = self.entries@;
        let mut at: usize = 0;
        while at < self.entries.len()
            invariant
                at <= self.entries@.len(),
                self.entries@ == before,
                before == old(self).entries@,
                is_sorted(before),
                old(self)@.contains_key(format@) ==> old(self)@[format@] < usize::MAX,
                forall|i: int| 0 <= i < at ==> precedes((#[trigger] before[i]).0@, format@),
            ensures
                at <= self.entries@.len(),
                self.entries@ == before,
                forall|i: int| 0 <= i < at ==> precedes((#[trigger] before[i]).0@, format@),
                forall|i: int| at <= i < before.len() ==> precedes(format@, (#[trigger] before[i]).0@),
            decreases self.entries@.len() - at,
        {
            match place(self.entries[at].0.as_str(), format) {
                Place::Before => {},
                Place::Same => {
                    proof {
                        lemma_counts(before);
                    }
                    let count: usize = self.entries[at].1 + 1;
                    let name: String = self.entries[at].0.clone();
                    self.entries[at] = (name, count);
                    proof {
                        let after = self.entries@;
                        assert forall|i: int, j: int| 0 <= i < j < after.len() implies precedes(
                            (#[trigger] after[i]).0@,
                            (#[trigger] after[j]).0@,
                        ) by {
                            assert(after[i].0@ == before[i].0@ && after[j].0@ == before[j].0@);
                        }
                        lemma_counts_insert(before, after, at as int, false);
                    }
                    return;
                },
                Place::After => {
                    proof {
                        assert forall|i: int| at <= i < before.len() implies precedes(
                            format@,
                            (#[trigger] before[i]).0@,
                        ) by {
                            if i > at {
                                lemma_precedes_is_transitive(
                                    format@,
                                    before[at as int].0@,
                                    before[i].0@,
                                );
                            }
                        }
                    }
                    break;
                },
            }
            at += 1;
        }
        let entry: (String, usize) = (format.to_owned(), 1);
        self.entries.insert(at, entry);
        proof {
            let after = self.entries@;
            assert(after == before.insert(at as int, entry));
            assert forall|i: int, j: int| 0 <= i < j < after.len() implies precedes(
                (#[trigger] after[i]).0@,
                (#[trigger] after[j]).0@,
            ) by {
                let a = if i > at {
                    i - 1
                } else {
                    i
                };
                let b = if j > at {
                    j - 1
                } else {
                    j
                };
                if i != at {
                    assert(after[i] == before[a]);
                }
                if j != at {
                    assert(after[j] == before[b]);
                }
            }
            assert(after.remove(at as int) =~= before);
            lemma_counts_insert(before, after, at as int, true);
        }
    }

    /// The formats and their counts, in the order of the formats.
    pub fn summary(&self) -> (r: &Vec<(String, usize)>)
        requires
            self.wf(),
        ensures
            is_sorted(r@),
            counts(r@) == self@,
    {
        &self.entries
    }
}

} // verus!
