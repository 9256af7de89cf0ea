//! The flat `key=value` file format of the device traits: lines, comments,
//! section headers and the map of values that a file describes.

use vstd::prelude::*;
use crate::text::{chars_eq, chars_of, copy_range, find_char, first_index, trim, trim_bounds};

verus! {

/// The lines of `s`, split at each `\n`; the last line may be empty.
pub open spec fn split_lines(s: Seq<char>) -> Seq<Seq<char>>
    decreases s.len(),
{
    if s.len() == 0 {
        seq![Seq::<char>::empty()]
    } else if s.last() == '\n' {
        split_lines(s.drop_last()).push(Seq::<char>::empty())
    } else {
        let l = split_lines(s.drop_last());
        l.update(l.len() - 1, l.last().push(s.last()))
    }
}

/// The key and value that one line of a traits file gives: blank lines,
/// `#` comments, `[section]` headers and lines without `=` give none; else
/// the key is the trimmed text before the first `=` and the value the
/// trimmed text after it.
pub open spec fn line_entry(line: Seq<char>) -> Option<(Seq<char>, Seq<char>)> {
    let t = trim(line);
    if t.len() == 0 || t[0] == '#' || t[0] == '[' {
        None
    } else {
        match first_index(t, '=') {
            Some(j) => Some((trim(t.take(j)), trim(t.skip(j + 1)))),
            None => None,
        }
    }
}

/// The values that `lines` set; a key set twice keeps its last value.
pub open spec fn values_of_lines(lines: Seq<Seq<char>>) -> Map<Seq<char>, Seq<char>>
    decreases lines.len(),
{
    if lines.len() == 0 {
        Map::empty()
    } else {
        let m = values_of_lines(lines.drop_last());
        match line_entry(lines.last()) {
            Some(e) => m.insert(e.0, e.1),
            None => m,
        }
    }
}

/// The values that the text of a traits file sets.
pub open spec fn trait_values(input: Seq<char>) -> Map<Seq<char>, Seq<char>> {
    values_of_lines(split_lines(input))
}

/// A later line that sets a key wins over every earlier line.
pub proof fn lemma_later_line_wins(lines: Seq<Seq<char>>, line: Seq<char>)
    requires
        line_entry(line) is Some,
    ensures
        values_of_lines(lines.push(line)) == values_of_lines(lines).insert(
            line_entry(line).unwrap().0,
            line_entry(line).unwrap().1,
        ),
{
    assert(lines.push(line).drop_last() =~= lines);
}

/// A text has at least one line.
proof fn lemma_split_lines_nonempty(s: Seq<char>)
    ensures
        split_lines(s).len() >= 1,
    decreases s.len(),
{
    if s.len() > 0 {
        lemma_split_lines_nonempty(s.drop_last());
    }
}

/// A text without `\n` is a single line.
pub(crate) proof fn lemma_split_single(line: Seq<char>)
    requires
        !line.contains('\n'),
    ensures
        split_lines(line) == seq![line],
    decreases line.len(),
{
    if line.len() > 0 {
        assert(line.drop_last().len() < line.len());
        assert forall|i: int| 0 <= i < line.drop_last().len() implies line.drop_last()[i] != '\n' by {
            assert(line[i] != '\n');
        }
        lemma_split_single(line.drop_last());
        assert(line[line.len() - 1] != '\n');
        assert(line.drop_last().push(line.last()) =~= line);
    } else {
        assert(line =~= Seq::<char>::empty());
    }
}

/// Text that follows a line break starts a new line: the lines of `a + b`
/// are the complete lines of `a` and then the lines of `b`.
pub(crate) proof fn lemma_split_append(a: Seq<char>, b: Seq<char>)
    requires
        a.len() == 0 || a.last() == '\n',
    ensures
        split_lines(a + b) == split_lines(a).drop_last() + split_lines(b),
    decreases b.len(),
{
    if b.len() == 0 {
        assert(a + b =~= a);
        if a.len() > 0 {
            assert(split_lines(a) == split_lines(a.drop_last()).push(Seq::<char>::empty()));
        }
        assert(split_lines(a) =~= split_lines(a).drop_last() + seq![Seq::<char>::empty()]);
    } else {
        let p = split_lines(a).drop_last();
        assert((a + b).drop_last() =~= a + b.drop_last());
        assert((a + b).last() == b.last());
        lemma_split_append(a, b.drop_last());
        lemma_split_lines_nonempty(b.drop_last());
        let l = split_lines(b.drop_last());
        if b.last() == '\n' {
            assert((p + l).push(Seq::<char>::empty()) =~= p + l.push(Seq::<char>::empty()));
        } else {
            let pl = p + l;
            assert(pl.update(pl.len() - 1, pl.last().push(b.last())) =~= p + l.update(
                l.len() - 1,
                l.last().push(b.last()),
            ));
        }
    }
}

/// Where `x` has the values of `y` and one more key `k` set to `w`, the
/// same lines after both keep that relation, or set `k` themselves and
/// make the two equal.
pub(crate) proof fn lemma_values_after(
    x: Seq<Seq<char>>,
    y: Seq<Seq<char>>,
    after: Seq<Seq<char>>,
    k: Seq<char>,
    w: Seq<char>,
)
    requires
        values_of_lines(x) == values_of_lines(y).insert(k, w),
        !values_of_lines(y).contains_key(k),
    ensures
        (values_of_lines(x + after) == values_of_lines(y + after).insert(k, w)
            && !values_of_lines(y + after).contains_key(k))
            || values_of_lines(x + after) == values_of_lines(y + after),
    decreases after.len(),
{
    if after.len() == 0 {
        assert(x + after =~= x);
        assert(y + after =~= y);
    } else {
        lemma_values_after(x, y, after.drop_last(), k, w);
        assert((x + after).drop_last() =~= x + after.drop_last());
        assert((y + after).drop_last() =~= y + after.drop_last());
        assert((x + after).last() == after.last());
        assert((y + after).last() == after.last());
        let mx = values_of_lines(x + after.drop_last());
        let my = values_of_lines(y + after.drop_last());
        if let Some(e) = line_entry(after.last()) {
            if e.0 == k {
                assert(mx.insert(e.0, e.1) =~= my.insert(e.0, e.1));
            } else {
                if mx == my.insert(k, w) {
                    assert(mx.insert(e.0, e.1) =~= my.insert(e.0, e.1).insert(k, w));
                }
            }
        }
    }
}

/// A map from keys to values, both strings of characters, kept as two
/// parallel vectors with distinct keys.
pub struct TraitValues {
    keys: Vec<Vec<char>>,
    vals: Vec<Vec<char>>,
    model: Ghost<Map<Seq<char>, Seq<char>>>,
}

impl View for TraitValues {
    type V = Map<Seq<char>, Seq<char>>;

    closed spec fn view(&self) -> Map<Seq<char>, Seq<char>> {
        self.model@
    }
}

impl TraitValues {
    pub closed spec fn wf(&self) -> bool {
        &&& self.keys.len() == self.vals.len()
        &&& forall|i: int|
            0 <= i < self.keys.len() ==> #[trigger] self.model@.contains_key(self.keys@[i]@)
                && self.model@[self.keys@[i]@] == self.vals@[i]@
        &&& forall|k: Seq<char>|
            #[trigger] self.model@.contains_key(k) ==> exists|i: int|
                0 <= i < self.keys.len() && self.keys@[i]@ == k
        &&& forall|i: int, j: int|
            0 <= i < j < self.keys.len() ==> self.keys@[i]@ != self.keys@[j]@
    }

    /// The keys, in the order in which they first appeared.
    pub closed spec fn key_seq(&self) -> Seq<Seq<char>> {
        self.keys@.map_values(|k: Vec<char>| k@)
    }

    pub fn new() -> (r: TraitValues)
        ensures
            r.wf(),
            r@ == Map::<Seq<char>, Seq<char>>::empty(),
    {
        TraitValues { keys: Vec::new(), vals: Vec::new(), model: Ghost(Map::empty()) }
    }

    pub fn len(&self) -> (r: usize)
        requires
            self.wf(),
        ensures
            r == self.key_seq().len(),
    {
        self.keys.len()
    }

    /// The key at position `i`.
    pub fn key_at(&self, i: usize) -> (r: &Vec<char>)
        requires
            self.wf(),
            i < self.key_seq().len(),
        ensures
            r@ == self.key_seq()[i as int],
    {
        &self.keys[i]
    }

    /// The keys of the map are exactly the entries of `key_seq`.
    pub proof fn lemma_key_seq(&self)
        requires
            self.wf(),
        ensures
            forall|k: Seq<char>|
                #![trigger self@.contains_key(k)]
                #![trigger self.key_seq().contains(k)]
                self@.contains_key(k) <==> self.key_seq().contains(k),
    {
        assert forall|k: Seq<char>| self@.contains_key(k) <==> self.key_seq().contains(k) by {
            if self@.contains_key(k) {
                let i = choose|i: int| 0 <= i < self.keys.len() && self.keys@[i]@ == k;
                assert(self.key_seq()[i] == k);
            }
            if self.key_seq().contains(k) {
                let i = choose|i: int| 0 <= i < self.key_seq().len() && self.key_seq()[i] == k;
                assert(self.model@.contains_key(self.keys@[i]@));
            }
        }
    }

    fn position(&self, key: &Vec<char>) -> (r: Option<usize>)
        requires
            self.wf(),
        ensures
            match r {
                Some(i) => i < self.keys.len() && self.keys@[i as int]@ == key@,
                None => !self@.contains_key(key@),
            },
    {
        let mut i: usize = 0;
        while i < self.keys.len()
            invariant
                self.wf(),
                0 <= i <= self.keys.len(),
                forall|j: int| 0 <= j < i ==> self.keys@[j]@ != key@,
            decreases self.keys.len() - i,
        {
            if chars_eq(&self.keys[i], key) {
                return Some(i);
            }
            i = i + 1;
        }
        None
    }

    /// The value of `key`, if the map holds it.
    pub fn get(&self, key: &Vec<char>) -> (r: Option<&Vec<char>>)
        requires
            self.wf(),
        ensures
            match r {
                Some(v) => self@.contains_key(key@) && v@ == self@[key@],
                None => !self@.contains_key(key@),
            },
    {
        match self.position(key) {
            Some(i) => {
                proof {
                    assert(self.model@.contains_key(self.keys@[i as int]@));
                }
                Some(&self.vals[i])
            },
            None => None,
        }
    }

    /// Sets `key` to `value`.
    pub fn insert(&mut self, key: Vec<char>, value: Vec<char>)
        requires
            old(self).wf(),
        ensures
            final(self).wf(),
            final(self)@ == old(self)@.insert(key@, value@),
    {
        let ghost m = self.model@.insert(key@, value@);
        match self.position(&key) {
            Some(i) => {
                self.vals.set(i, value);
                self.model = Ghost(m);
                assert forall|j: int| 0 <= j < self.keys.len() implies #[trigger]
                    self.model@.contains_key(self.keys@[j]@) && self.model@[self.keys@[j]@]
                        == self.vals@[j]@ by {
                    if j != i {
                        assert(old(self).model@.contains_key(old(self).keys@[j]@));
                        if j < i {
                            assert(self.keys@[j]@ != self.keys@[i as int]@);
                        } else {
                            assert(self.keys@[i as int]@ != self.keys@[j]@);
                        }
                    }
                }
                assert forall|k: Seq<char>| #[trigger] self.model@.contains_key(k) implies exists|
                    j: int,
                | 0 <= j < self.keys.len() && self.keys@[j]@ == k by {
                    if k != key@ {
                        assert(old(self).model@.contains_key(k));
                    }
                }
            },
            None => {
                let ghost n = self.keys.len();
                self.keys.push(key);
                self.vals.push(value);
                self.model = Ghost(m);
                assert forall|k: Seq<char>| #[trigger] self.model@.contains_key(k) implies exists|
                    j: int,
                | 0 <= j < self.keys.len() && self.keys@[j]@ == k by {
                    if k != self.keys@[n as int]@ {
                        assert(old(self).model@.contains_key(k));
                        let j = choose|j: int|
                            0 <= j < old(self).keys.len() && old(self).keys@[j]@ == k;
                        assert(self.keys@[j] == old(self).keys@[j]);
                    }
                }
                assert forall|i: int, j: int|
                    0 <= i < j < self.keys.len() implies self.keys@[i]@ != self.keys@[j]@ by {
                    if j == n {
                        assert(old(self).model@.contains_key(old(self).keys@[i]@));
                    }
                }
            },
        }
    }
}

} // verus!
verus! {

/// Adds what the line `s[lo..hi]` sets to `values`.
fn add_line(values: &mut TraitValues, s: &Vec<char>, lo: usize, hi: usize)
    requires
        old(values).wf(),
        lo <= hi <= s.len(),
    ensures
        final(values).wf(),
        final(values)@ == match line_entry(s@.subrange(lo as int, hi as int)) {
            Some(e) => old(values)@.insert(e.0, e.1),
            None => old(values)@,
        },
{
    let (a, b) = trim_bounds(s, lo, hi);
    let ghost t = s@.subrange(a as int, b as int);
    if a == b || s[a] == '#' || s[a] == '[' {
        return ;
    }
    assert(t[0] == s@[a as int]);
    match find_char(s, a, b, '=') {
        None => {},
        Some(j) => {
            let (ka, kb) = trim_bounds(s, a, j);
            let (va, vb) = trim_bounds(s, j + 1, b);
            assert(t.take(j - a) =~= s@.subrange(a as int, j as int));
            assert(t.skip(j - a + 1) =~= s@.subrange(j + 1, b as int));
            let key = copy_range(s, ka, kb);
            let value = copy_range(s, va, vb);
            values.insert(key, value);
        },
    }
}

/// The values that the text of a traits file sets.
pub fn parse_values(input: &str) -> (r: TraitValues)
    ensures
        r.wf(),
        r@ == trait_values(input@),
{
    let s = chars_of(input);
    let mut values = TraitValues::new();
    let mut start: usize = 0;
    let mut i: usize = 0;
    let ghost mut done: Seq<Seq<char>> = seq![];
    assert(s@.take(0) =~= Seq::<char>::empty());
    assert(s@.subrange(0, 0) =~= Seq::<char>::empty());
    while i < s.len()
        invariant
            start <= i <= s.len(),
            values.wf(),
            split_lines(s@.take(i as int)) == done.push(s@.subrange(start as int, i as int)),
            values@ == values_of_lines(done),
        decreases s.len() - i,
    {
        let ghost prev = s@.take(i as int);
        assert(s@.take(i + 1).drop_last() =~= prev);
        if s[i] == '\n' {
            add_line(&mut values, &s, start, i);
            proof {
                let line = s@.subrange(start as int, i as int);
                assert(done.push(line).drop_last() =~= done);
                done = done.push(line);
                assert(s@.subrange(i + 1, i + 1) =~= Seq::<char>::empty());
            }
            start = i + 1;
        } else {
            proof {
                let l = split_lines(prev);
                assert(s@.subrange(start as int, i as int).push(s@[i as int]) =~= s@.subrange(
                    start as int,
                    i + 1,
                ));
                assert(l.update(l.len() - 1, l.last().push(s@[i as int])) =~= done.push(
                    s@.subrange(start as int, i + 1),
                ));
            }
        }
        i = i + 1;
    }
    add_line(&mut values, &s, start, s.len());
    proof {
        let line = s@.subrange(start as int, s.len() as int);
        assert(done.push(line).drop_last() =~= done);
        assert(s@.take(s.len() as int) =~= s@);
    }
    values
}

} // verus!
