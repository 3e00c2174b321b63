//! An insertion-ordered header multimap with case-insensitive names.

use crate::sequences::lemma_filter_push;
use crate::text::{check_name, check_value, fold, folded, is_name, is_value, lemma_fold_keeps_name};
use vstd::prelude::*;

verus! {

/// One header line as mathematics: the name and the value.
pub type Line = (Seq<char>, Seq<char>);

/// One stored header line. The name is kept in lower case.
#[derive(Clone, Debug, PartialEq, Eq)]
pub struct Header {
    pub name: String,
    pub value: String,
}

impl View for Header {
    type V = Line;

    open spec fn view(&self) -> Line {
        (self.name@, self.value@)
    }
}

/// Why a header was refused.
#[derive(Clone, Copy, Debug, PartialEq, Eq, Structural)]
pub enum HeaderError {
    /// The name is empty or holds a character that is no token character.
    InvalidName,
    /// The value holds a NUL, a line feed or a carriage return.
    InvalidValue,
}

/// The views of a sequence of stored lines.
pub open spec fn lines(v: Seq<Header>) -> Seq<Line> {
    Seq::new(v.len(), |i: int| v[i]@)
}

/// Every name is a lower-case header name and every value a header value.
pub open spec fn well_formed(s: Seq<Line>) -> bool {
    forall|i: int|
        0 <= i < s.len() ==> {
            &&& is_name((#[trigger] s[i]).0)
            &&& fold(s[i].0) == s[i].0
            &&& is_value(s[i].1)
        }
}

/// Selects the lines whose name is `key`.
pub open spec fn named(key: Seq<char>) -> spec_fn(Line) -> bool {
    |e: Line| e.0 == key
}

/// Selects the lines whose name is not `key`.
pub open spec fn not_named(key: Seq<char>) -> spec_fn(Line) -> bool {
    |e: Line| e.0 != key
}

/// Whether some line of `s` has the name `key`.
pub open spec fn has_name(s: Seq<Line>, key: Seq<char>) -> bool {
    exists|i: int| 0 <= i < s.len() && (#[trigger] s[i]).0 == key
}

/// Whether `i` is the place of the first line of `s` named `key`.
pub open spec fn is_first_named(s: Seq<Line>, key: Seq<char>, i: int) -> bool {
    &&& 0 <= i < s.len()
    &&& s[i].0 == key
    &&& forall|j: int| 0 <= j < i ==> (#[trigger] s[j]).0 != key
}

/// The place of the first line of `s` named `key`, where there is one.
pub open spec fn first_named(s: Seq<Line>, key: Seq<char>) -> int {
    choose|i: int| is_first_named(s, key, i)
}

/// The values of the lines named `key`, in the order of the lines.
pub open spec fn values_of(s: Seq<Line>, key: Seq<char>) -> Seq<Seq<char>> {
    s.filter(named(key)).map_values(|e: Line| e.1)
}

/// The texts of `parts` with `", "` between neighbours.
pub open spec fn joined(parts: Seq<Seq<char>>) -> Seq<char>
    decreases parts.len(),
{
    if parts.len() == 0 {
        Seq::empty()
    } else if parts.len() == 1 {
        parts[0]
    } else {
        joined(parts.drop_last()) + seq![',', ' '] + parts.last()
    }
}

/// What `get` reads under `key`: nothing where no line has that name, else
/// the values of all such lines, joined.
pub open spec fn lookup(s: Seq<Line>, key: Seq<char>) -> Option<Seq<char>> {
    if has_name(s, key) {
        Some(joined(values_of(s, key)))
    } else {
        None
    }
}

/// `s` after `key` has been set to `value`: the first line named `key` holds
/// the new value in its old place and every later line of that name has gone;
/// where there was none, the new line stands at the end.
pub open spec fn with_set(s: Seq<Line>, key: Seq<char>, value: Seq<char>) -> Seq<Line> {
    if has_name(s, key) {
        let i = first_named(s, key);
        s.take(i).push((key, value)) + s.skip(i + 1).filter(not_named(key))
    } else {
        s.push((key, value))
    }
}

/// `s` after a line `key: value` has been added beside what was there.
pub open spec fn with_appended(s: Seq<Line>, key: Seq<char>, value: Seq<char>) -> Seq<Line> {
    s.push((key, value))
}

/// Two places that both are the first of a name are one place.
pub proof fn lemma_first_named_unique(s: Seq<Line>, key: Seq<char>, i: int)
    requires
        is_first_named(s, key, i),
    ensures
        has_name(s, key),
        first_named(s, key) == i,
{
    let c = first_named(s, key);
    assert(is_first_named(s, key, c));
    if c < i {
        assert(s[c].0 != key);
    }
    if i < c {
        assert(s[i].0 != key);
    }
}

/// A sequence without a line named `key` has nothing to select under it.
pub proof fn lemma_filter_absent(s: Seq<Line>, key: Seq<char>)
    ensures
        has_name(s, key) <==> s.filter(named(key)).len() > 0,
    decreases s.len(),
{
    reveal(Seq::filter);
    if s.len() > 0 {
        let t = s.drop_last();
        lemma_filter_absent(t, key);
        if has_name(t, key) {
            let i = choose|i: int| 0 <= i < t.len() && (#[trigger] t[i]).0 == key;
            assert(s[i].0 == key);
        }
        if has_name(s, key) && !has_name(t, key) {
            let i = choose|i: int| 0 <= i < s.len() && (#[trigger] s[i]).0 == key;
            if i < t.len() {
                assert(t[i].0 == key);
            }
        }
        if s.last().0 == key {
            assert(s[s.len() - 1].0 == key);
        }
    }
}

/// A sequence in which no line passes `pred` has an empty filter.
pub proof fn lemma_filter_none(s: Seq<Line>, pred: spec_fn(Line) -> bool)
    requires
        forall|i: int| 0 <= i < s.len() ==> !pred(#[trigger] s[i]),
    ensures
        s.filter(pred) == Seq::<Line>::empty(),
    decreases s.len(),
{
    reveal(Seq::filter);
    if s.len() > 0 {
        let t = s.drop_last();
        assert forall|i: int| 0 <= i < t.len() implies !pred(#[trigger] t[i]) by {
            assert(t[i] == s[i]);
        }
        lemma_filter_none(t, pred);
        assert(!pred(s.last()));
    }
}

/// Dropping the lines of one name leaves the lines of every other name as
/// they were, in their order.
pub proof fn lemma_filter_other(s: Seq<Line>, key: Seq<char>, other: Seq<char>)
    requires
        other != key,
    ensures
        s.filter(not_named(key)).filter(named(other)) == s.filter(named(other)),
    decreases s.len(),
{
    reveal(Seq::filter);
    if s.len() > 0 {
        let t = s.drop_last();
        lemma_filter_other(t, key, other);
        lemma_filter_push(t.filter(not_named(key)), s.last(), named(other));
        assert(t.push(s.last()) =~= s);
    }
}

/// Setting a name leaves exactly one line of that name, with the new value:
/// a lookup under the name reads that value.
pub proof fn lemma_set_overwrites(s: Seq<Line>, key: Seq<char>, value: Seq<char>)
    ensures
        with_set(s, key, value).filter(named(key)) == seq![(key, value)],
        lookup(with_set(s, key, value), key) == Some(value),
{
    let line: Line = (key, value);
    let t = with_set(s, key, value);
    if has_name(s, key) {
        let i = first_named(s, key);
        let w = choose|w: int| 0 <= w < s.len() && (#[trigger] s[w]).0 == key;
        lemma_least_named(s, key, w);
        assert(is_first_named(s, key, i));
        let front = s.take(i);
        let back = s.skip(i + 1).filter(not_named(key));
        assert forall|j: int| 0 <= j < front.len() implies !named(key)(#[trigger] front[j]) by {
            assert(front[j] == s[j]);
        }
        lemma_filter_none(front, named(key));
        assert forall|j: int| 0 <= j < back.len() implies !named(key)(#[trigger] back[j]) by {
            s.skip(i + 1).lemma_filter_pred(not_named(key), j);
            assert(not_named(key)(back[j]));
        }
        lemma_filter_none(back, named(key));
        lemma_filter_push(front, line, named(key));
        Seq::filter_distributes_over_add(front.push(line), back, named(key));
        assert(t.filter(named(key)) =~= seq![line]);
        assert(t[i] == line);
    } else {
        assert forall|j: int| 0 <= j < s.len() implies !named(key)(#[trigger] s[j]) by {}
        lemma_filter_none(s, named(key));
        lemma_filter_push(s, line, named(key));
        assert(t.filter(named(key)) =~= seq![line]);
        assert(t[s.len() as int] == line);
    }
    assert(has_name(t, key));
    assert(values_of(t, key) =~= seq![value]);
}

/// Setting a name leaves the lines of every other name as they were: what a
/// lookup reads under another name does not change.
pub proof fn lemma_set_keeps_others(
    s: Seq<Line>,
    key: Seq<char>,
    value: Seq<char>,
    other: Seq<char>,
)
    requires
        other != key,
    ensures
        with_set(s, key, value).filter(named(other)) == s.filter(named(other)),
        lookup(with_set(s, key, value), other) == lookup(s, other),
{
    let line: Line = (key, value);
    let t = with_set(s, key, value);
    if has_name(s, key) {
        let i = first_named(s, key);
        let w = choose|w: int| 0 <= w < s.len() && (#[trigger] s[w]).0 == key;
        lemma_least_named(s, key, w);
        assert(is_first_named(s, key, i));
        let front = s.take(i);
        let tail_lines = s.skip(i + 1);
        let back = tail_lines.filter(not_named(key));
        lemma_filter_other(tail_lines, key, other);
        lemma_filter_push(front, line, named(other));
        lemma_filter_push(front, s[i], named(other));
        Seq::filter_distributes_over_add(front.push(line), back, named(other));
        Seq::filter_distributes_over_add(front.push(s[i]), tail_lines, named(other));
        assert(front.push(s[i]) + tail_lines =~= s);
    } else {
        lemma_filter_push(s, line, named(other));
    }
    lemma_filter_absent(s, other);
    lemma_filter_absent(t, other);
}

/// Appending under a name adds the new value behind the values that the
/// name has, and leaves every other name as it was.
pub proof fn lemma_append_adds(s: Seq<Line>, key: Seq<char>, value: Seq<char>, other: Seq<char>)
    ensures
        values_of(with_appended(s, key, value), key) == values_of(s, key).push(value),
        lookup(with_appended(s, key, value), key) == Some(
            joined(values_of(s, key).push(value)),
        ),
        other != key ==> lookup(with_appended(s, key, value), other) == lookup(s, other),
{
    let line: Line = (key, value);
    let t = with_appended(s, key, value);
    lemma_filter_push(s, line, named(key));
    assert(values_of(t, key) =~= values_of(s, key).push(value));
    assert(t[s.len() as int] == line);
    assert(has_name(t, key));
    if other != key {
        lemma_filter_push(s, line, named(other));
        lemma_filter_absent(s, other);
        lemma_filter_absent(t, other);
    }
}

/// Where some line has the name, one of them is the first.
pub proof fn lemma_least_named(s: Seq<Line>, key: Seq<char>, w: int)
    requires
        0 <= w < s.len(),
        s[w].0 == key,
    ensures
        exists|i: int| is_first_named(s, key, i),
    decreases w,
{
    if forall|j: int| 0 <= j < w ==> (#[trigger] s[j]).0 != key {
        assert(is_first_named(s, key, w));
    } else {
        let j = choose|j: int| 0 <= j < w && (#[trigger] s[j]).0 == key;
        lemma_least_named(s, key, j);
    }
}

/// An insertion-ordered multimap of header lines. Names are compared without
/// regard to ASCII case and kept in lower case.
#[derive(Debug, PartialEq, Eq)]
pub struct Headers {
    entries: Vec<Header>,
}

impl View for Headers {
    type V = Seq<Line>;

    closed spec fn view(&self) -> Seq<Line> {
        lines(self.entries@)
    }
}

impl Clone for Headers {
    /// A copy with the same lines.
    fn clone(&self) -> (h: Headers)
        ensures
            h@ == self@,
    {
        self.duplicate()
    }
}

impl Headers {
    #[verifier::type_invariant]
    spec fn inv(&self) -> bool {
        well_formed(lines(self.entries@))
    }

    /// A multimap without lines.
    pub fn new() -> (h: Headers)
        ensures
            h@ == Seq::<Line>::empty(),
    {
        let h = Headers { entries: Vec::new() };
        assert(h@ =~= Seq::<Line>::empty());
        h
    }

    /// The number of lines.
    pub fn len(&self) -> (n: usize)
        ensures
            n == self@.len(),
    {
        self.entries.len()
    }

    /// The lines, in order. Every one is well formed.
    pub fn entries(&self) -> (v: &Vec<Header>)
        ensures
            lines(v@) == self@,
            well_formed(self@),
    {
        proof {
            use_type_invariant(self);
        }
        &self.entries
    }

    /// Sets `name` to `value`: the first line of that name takes the value,
    /// later lines of that name are removed, and where there was none a line
    /// is added at the end. Refuses an invalid name or value and then changes
    /// nothing.
    pub fn set(&mut self, name: &str, value: &str) -> (r: Result<(), HeaderError>)
        ensures
            !is_name(name@) ==> r == Err::<(), HeaderError>(HeaderError::InvalidName),
            is_name(name@) && !is_value(value@) ==> r == Err::<(), HeaderError>(
                HeaderError::InvalidValue,
            ),
            is_name(name@) && is_value(value@) ==> r is Ok,
            r is Ok ==> final(self)@ == with_set(old(self)@, fold(name@), value@),
            r is Err ==> final(self)@ == old(self)@,
            well_formed(final(self)@),
    {
        proof {
            use_type_invariant(&*self);
        }
        if !check_name(name) {
            return Err(HeaderError::InvalidName);
        }
        if !check_value(value) {
            return Err(HeaderError::InvalidValue);
        }
        let key = folded(name);
        proof {
            lemma_fold_keeps_name(name@);
            crate::text::lemma_fold_idempotent(name@);
        }
        let ghost before = lines(self.entries@);
        let ghost line: Line = (key@, value@);
        let ghost mut at: int = 0;
        let n: usize = self.entries.len();
        let mut out: Vec<Header> = Vec::new();
        let mut placed = false;
        let mut i: usize = 0;
        while i < n
            invariant
                n == self.entries.len(),
                before == lines(self.entries@),
                well_formed(before),
                line == (key@, value@),
                is_name(key@),
                fold(key@) == key@,
                is_value(value@),
                i <= n,
                well_formed(lines(out@)),
                !placed ==> lines(out@) == before.take(i as int),
                !placed ==> forall|j: int| 0 <= j < i ==> (#[trigger] before[j]).0 != key@,
                placed ==> at < i && is_first_named(before, key@, at),
                placed ==> lines(out@) == before.take(at).push(line) + before.subrange(
                    at + 1,
                    i as int,
                ).filter(not_named(key@)),
            decreases n - i,
        {
            let here = &self.entries[i];
            assert(here@ == before[i as int]);
            let same = here.name == key;
            let ghost prev = lines(out@);
            if same {
                if !placed {
                    out.push(Header { name: key.clone(), value: value.to_owned() });
                    placed = true;
                    proof {
                        at = i as int;
                        assert(before.subrange(at + 1, i + 1) =~= Seq::<Line>::empty());
                        assert(lines(out@) =~= prev.push(line));
                        assert(lines(out@) =~= before.take(at).push(line) + before.subrange(
                            at + 1,
                            i + 1,
                        ).filter(not_named(key@)));
                    }
                } else {
                    proof {
                        lemma_filter_push(
                            before.subrange(at + 1, i as int),
                            before[i as int],
                            not_named(key@),
                        );
                        assert(before.subrange(at + 1, i + 1) =~= before.subrange(
                            at + 1,
                            i as int,
                        ).push(before[i as int]));
                    }
                }
            } else {
                out.push(Header { name: here.name.clone(), value: here.value.clone() });
                proof {
                    assert(lines(out@) =~= prev.push(before[i as int]));
                    if placed {
                        lemma_filter_push(
                            before.subrange(at + 1, i as int),
                            before[i as int],
                            not_named(key@),
                        );
                        assert(before.subrange(at + 1, i + 1) =~= before.subrange(
                            at + 1,
                            i as int,
                        ).push(before[i as int]));
                        assert(lines(out@) =~= before.take(at).push(line) + before.subrange(
                            at + 1,
                            i + 1,
                        ).filter(not_named(key@)));
                    } else {
                        assert(lines(out@) =~= before.take(i + 1));
                    }
                }
            }
            i = i + 1;
        }
        if !placed {
            let ghost prev = lines(out@);
            out.push(Header { name: key, value: value.to_owned() });
            proof {
                assert(before.take(n as int) =~= before);
                assert(lines(out@) =~= prev.push(line));
                assert(!has_name(before, line.0));
            }
        } else {
            proof {
                lemma_first_named_unique(before, key@, at);
                assert(before.subrange(at + 1, n as int) =~= before.skip(at + 1));
            }
        }
        self.entries = out;
        Ok(())
    }

    /// Adds a line `name: value` at the end, leaving every line that is there.
    /// Refuses an invalid name or value and then changes nothing.
    pub fn append(&mut self, name: &str, value: &str) -> (r: Result<(), HeaderError>)
        ensures
            !is_name(name@) ==> r == Err::<(), HeaderError>(HeaderError::InvalidName),
            is_name(name@) && !is_value(value@) ==> r == Err::<(), HeaderError>(
                HeaderError::InvalidValue,
            ),
            is_name(name@) && is_value(value@) ==> r is Ok,
            r is Ok ==> final(self)@ == with_appended(old(self)@, fold(name@), value@),
            r is Err ==> final(self)@ == old(self)@,
            well_formed(final(self)@),
    {
        proof {
            use_type_invariant(&*self);
        }
        if !check_name(name) {
            return Err(HeaderError::InvalidName);
        }
        if !check_value(value) {
            return Err(HeaderError::InvalidValue);
        }
        let key = folded(name);
        proof {
            lemma_fold_keeps_name(name@);
            crate::text::lemma_fold_idempotent(name@);
        }
        let mut out = self.copied();
        let ghost before = lines(out@);
        out.push(Header { name: key, value: value.to_owned() });
        assert(lines(out@) =~= before.push((fold(name@), value@)));
        self.entries = out;
        Ok(())
    }

    /// The value under `name`: the values of all lines of that name, joined
    /// with `", "`, or nothing where no line has that name.
    pub fn get(&self, name: &str) -> (r: Option<String>)
        ensures
            match r {
                Some(text) => lookup(self@, fold(name@)) == Some(text@),
                None => lookup(self@, fold(name@)).is_none(),
            },
    {
        let key = folded(name);
        let ghost all = lines(self.entries@);
        let n: usize = self.entries.len();
        let mut out = String::new();
        let mut found = false;
        let mut i: usize = 0;
        while i < n
            invariant
                n == self.entries.len(),
                all == lines(self.entries@),
                i <= n,
                found == has_name(all.take(i as int), key@),
                found ==> out@ == joined(values_of(all.take(i as int), key@)),
                !found ==> out@ == Seq::<char>::empty(),
            decreases n - i,
        {
            let here = &self.entries[i];
            let ghost seen = all.take(i as int);
            proof {
                assert(all.take(i + 1) =~= seen.push(all[i as int]));
                lemma_filter_push(seen, all[i as int], named(key@));
                lemma_filter_absent(seen, key@);
                lemma_filter_absent(all.take(i + 1), key@);
            }
            if here.name == key {
                let ghost old_vals = values_of(seen, key@);
                let ghost new_vals = values_of(all.take(i + 1), key@);
                proof {
                    assert(new_vals =~= old_vals.push(here.value@));
                    assert(new_vals.drop_last() =~= old_vals);
                }
                if found {
                    proof {
                        reveal_strlit(", ");
                        assert(", "@ =~= seq![',', ' ']);
                    }
                    out.append(", ");
                }
                out.append(here.value.as_str());
                found = true;
                proof {
                    if old_vals.len() == 0 {
                        assert(out@ =~= here.value@);
                    }
                }
            }
            i = i + 1;
        }
        proof {
            assert(all.take(n as int) =~= all);
        }
        if found {
            Some(out)
        } else {
            None
        }
    }

    /// Adds every line of `other` at the end, in order, but for the lines
    /// named `name`.
    pub fn extend_without(&mut self, other: &Headers, name: &str)
        ensures
            final(self)@ == old(self)@ + other@.filter(not_named(fold(name@))),
            well_formed(final(self)@),
    {
        proof {
            use_type_invariant(&*self);
            use_type_invariant(other);
        }
        let key = folded(name);
        let mut out = self.copied();
        let ghost before = lines(out@);
        let ghost more = lines(other.entries@);
        let n: usize = other.entries.len();
        let mut i: usize = 0;
        proof {
            reveal(Seq::filter);
            assert(more.take(0).filter(not_named(key@)) =~= Seq::<Line>::empty());
        }
        while i < n
            invariant
                n == other.entries.len(),
                more == lines(other.entries@),
                well_formed(more),
                well_formed(lines(out@)),
                i <= n,
                lines(out@) == before + more.take(i as int).filter(not_named(key@)),
            decreases n - i,
        {
            let here = &other.entries[i];
            let ghost prev = lines(out@);
            proof {
                lemma_filter_push(more.take(i as int), more[i as int], not_named(key@));
                assert(more.take(i + 1) =~= more.take(i as int).push(more[i as int]));
            }
            if here.name != key {
                out.push(Header { name: here.name.clone(), value: here.value.clone() });
                assert(lines(out@) =~= prev.push(more[i as int]));
            }
            i = i + 1;
            assert(lines(out@) =~= before + more.take(i as int).filter(not_named(key@)));
        }
        assert(more.take(n as int) =~= more);
        self.entries = out;
    }

    /// A copy with the same lines.
    pub fn duplicate(&self) -> (h: Headers)
        ensures
            h@ == self@,
    {
        proof {
            use_type_invariant(self);
        }
        Headers { entries: self.copied() }
    }

    fn copied(&self) -> (out: Vec<Header>)
        ensures
            lines(out@) == lines(self.entries@),
    {
        let ghost all = lines(self.entries@);
        let n: usize = self.entries.len();
        let mut out: Vec<Header> = Vec::new();
        let mut i: usize = 0;
        while i < n
            invariant
                n == self.entries.len(),
                all == lines(self.entries@),
                i <= n,
                lines(out@) == all.take(i as int),
            decreases n - i,
        {
            let here = &self.entries[i];
            let ghost prev = lines(out@);
            out.push(Header { name: here.name.clone(), value: here.value.clone() });
            i = i + 1;
            assert(lines(out@) =~= prev.push(all[i - 1]));
            assert(lines(out@) =~= all.take(i as int));
        }
        assert(all.take(n as int) =~= all);
        out
    }
}

} // verus!
