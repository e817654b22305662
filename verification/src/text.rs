//! Small verified helpers on strings, stated over their character sequences.

use vstd::prelude::*;
use vstd::string::*;

verus! {

/// Whether `prefix` is an initial segment of `s`.
pub open spec fn is_prefix(prefix: Seq<char>, s: Seq<char>) -> bool {
    prefix.len() <= s.len() && s.subrange(0, prefix.len() as int) == prefix
}

/// Index of the first character of `s` that belongs to `stops`, or `s.len()` if
/// none does.
pub open spec fn first_of(s: Seq<char>, stops: Set<char>) -> int
    decreases s.len(),
{
    if s.len() == 0 || stops.contains(s[0]) {
        0
    } else {
        1 + first_of(s.drop_first(), stops)
    }
}

/// The pieces of `s` between its characters that belong to `stops`. There is
/// always one piece more than there are such characters, so the empty string
/// has one empty piece.
pub open spec fn split(s: Seq<char>, stops: Set<char>) -> Seq<Seq<char>>
    decreases s.len(),
{
    let i = first_of(s, stops);
    if 0 <= i < s.len() {
        seq![s.subrange(0, i)] + split(s.subrange(i + 1, s.len() as int), stops)
    } else {
        seq![s]
    }
}

/// `first_of` is in range, nothing before it is a stop, and it is one unless it
/// is the length.
pub proof fn lemma_first_of(s: Seq<char>, stops: Set<char>)
    ensures
        0 <= first_of(s, stops) <= s.len(),
        forall|k: int| 0 <= k < first_of(s, stops) ==> !stops.contains(#[trigger] s[k]),
        first_of(s, stops) < s.len() ==> stops.contains(s[first_of(s, stops)]),
    decreases s.len(),
{
    if s.len() == 0 || stops.contains(s[0]) {
    } else {
        let t = s.drop_first();
        lemma_first_of(t, stops);
        assert forall|k: int| 0 <= k < first_of(s, stops) implies !stops.contains(
            #[trigger] s[k],
        ) by {
            if k > 0 {
                assert(s[k] == t[k - 1]);
            }
        }
        assert(first_of(t, stops) < t.len() ==> s[first_of(s, stops)] == t[first_of(t, stops)]);
    }
}

/// An index with the three properties of `lemma_first_of` is `first_of`.
pub proof fn lemma_first_of_is(s: Seq<char>, stops: Set<char>, i: int)
    requires
        0 <= i <= s.len(),
        forall|k: int| 0 <= k < i ==> !stops.contains(#[trigger] s[k]),
        i < s.len() ==> stops.contains(s[i]),
    ensures
        first_of(s, stops) == i,
{
    lemma_first_of(s, stops);
    let f = first_of(s, stops);
    if f < i {
        assert(!stops.contains(s[f]));
    } else if i < f {
        assert(stops.contains(s[i]));
    }
}

/// The pieces with `sep` between each two that follow each other.
pub open spec fn join(pieces: Seq<Seq<char>>, sep: char) -> Seq<char>
    decreases pieces.len(),
{
    if pieces.len() == 0 {
        Seq::empty()
    } else if pieces.len() == 1 {
        pieces[0]
    } else {
        pieces[0] + seq![sep] + join(pieces.drop_first(), sep)
    }
}

/// Splitting undoes joining, for pieces that do not hold the separator.
pub proof fn lemma_split_join(pieces: Seq<Seq<char>>, sep: char)
    requires
        pieces.len() > 0,
        forall|i: int, k: int|
            0 <= i < pieces.len() && 0 <= k < pieces[i].len() ==> #[trigger] pieces[i][k] != sep,
    ensures
        split(join(pieces, sep), set![sep]) == pieces,
    decreases pieces.len(),
{
    let first = pieces[0];
    let joined = join(pieces, sep);
    let stops = set![sep];
    assert forall|k: int| 0 <= k < first.len() implies !stops.contains(#[trigger] first[k]) by {
        assert(pieces[0][k] != sep);
    }
    if pieces.len() == 1 {
        lemma_first_of_is(joined, stops, joined.len() as int);
        assert(split(joined, stops) =~= pieces);
    } else {
        let rest = pieces.drop_first();
        assert forall|i: int, k: int|
            0 <= i < rest.len() && 0 <= k < rest[i].len() implies #[trigger] rest[i][k] != sep by {
            assert(rest[i][k] == pieces[i + 1][k]);
        }
        lemma_split_join(rest, sep);
        assert forall|k: int| 0 <= k < first.len() implies !stops.contains(#[trigger] joined[k]) by {
            assert(joined[k] == first[k]);
        }
        assert(joined[first.len() as int] == sep);
        lemma_first_of_is(joined, stops, first.len() as int);
        assert(joined.subrange(0, first.len() as int) =~= first);
        assert(joined.subrange(first.len() as int + 1, joined.len() as int) =~= join(rest, sep));
        assert(split(joined, stops) =~= pieces);
    }
}

/// A filter that every element passes keeps the sequence as it is.
pub proof fn lemma_filter_keeps_all<A>(s: Seq<A>, test: spec_fn(A) -> bool)
    requires
        forall|i: int| 0 <= i < s.len() ==> test(#[trigger] s[i]),
    ensures
        s.filter(test) == s,
    decreases s.len(),
{
    reveal(Seq::filter);
    if s.len() > 0 {
        let earlier = s.drop_last();
        assert forall|i: int| 0 <= i < earlier.len() implies test(#[trigger] earlier[i]) by {
            assert(earlier[i] == s[i]);
        }
        lemma_filter_keeps_all(earlier, test);
        assert(test(s[s.len() - 1]));
        assert(earlier.push(s.last()) =~= s);
    }
}

/// The characters of a string, one by one.
pub fn chars_of(s: &str) -> (out: Vec<char>)
    ensures
        out@ == s@,
{
    let mut out: Vec<char> = Vec::new();
    for c in it: s.chars()
        invariant
            it.seq() == s@,
            out@ == s@.subrange(0, it.index() as int),
    {
        out.push(c);
    }
    assert(s@.subrange(0, s@.len() as int) == s@);
    out
}

/// Whether `s` begins with `prefix`.
pub fn starts_with(s: &str, prefix: &str) -> (b: bool)
    ensures
        b == is_prefix(prefix@, s@),
{
    let sc = chars_of(s);
    let pc = chars_of(prefix);
    if pc.len() > sc.len() {
        return false;
    }
    let mut i: usize = 0;
    while i < pc.len()
        invariant
            i <= pc.len() <= sc.len(),
            sc@ == s@,
            pc@ == prefix@,
            sc@.subrange(0, i as int) == pc@.subrange(0, i as int),
        decreases pc.len() - i,
    {
        if sc[i] != pc[i] {
            proof {
                let whole = sc@.subrange(0, pc.len() as int);
                assert(whole[i as int] == sc@[i as int]);
            }
            return false;
        }
        assert(sc@.subrange(0, i + 1) == sc@.subrange(0, i as int).push(sc@[i as int]));
        assert(pc@.subrange(0, i + 1) == pc@.subrange(0, i as int).push(pc@[i as int]));
        i = i + 1;
    }
    assert(pc@.subrange(0, pc.len() as int) == pc@);
    true
}

/// Whether two strings hold the same characters.
pub fn same_text(a: &str, b: &str) -> (same: bool)
    ensures
        same == (a@ == b@),
{
    let ac = chars_of(a);
    let bc = chars_of(b);
    if ac.len() != bc.len() {
        return false;
    }
    let mut i: usize = 0;
    while i < ac.len()
        invariant
            i <= ac.len() == bc.len(),
            ac@ == a@,
            bc@ == b@,
            forall|k: int| 0 <= k < i ==> ac@[k] == bc@[k],
        decreases ac.len() - i,
    {
        if ac[i] != bc[i] {
            return false;
        }
        i = i + 1;
    }
    assert(a@ =~= b@);
    true
}

/// Whether `names` holds `name`.
pub fn contains_name(names: &Vec<String>, name: &str) -> (found: bool)
    ensures
        found == names.deep_view().contains(name@),
{
    let mut i: usize = 0;
    while i < names.len()
        invariant
            i <= names.len(),
            forall|k: int| 0 <= k < i ==> names.deep_view()[k] != name@,
        decreases names.len() - i,
    {
        if same_text(names[i].as_str(), name) {
            assert(names.deep_view()[i as int] == name@);
            return true;
        }
        i = i + 1;
    }
    false
}

/// What a sequence holds after a push: what it held, and the new element.
pub proof fn lemma_push_contains<A>(s: Seq<A>, x: A)
    ensures
        forall|y: A| #[trigger] s.push(x).contains(y) <==> s.contains(y) || y == x,
{
    let t = s.push(x);
    assert forall|y: A| #[trigger] t.contains(y) <==> s.contains(y) || y == x by {
        if t.contains(y) {
            let k = choose|k: int| 0 <= k < t.len() && t[k] == y;
            if k < s.len() {
                assert(s[k] == y);
            }
        }
        if s.contains(y) {
            let k = choose|k: int| 0 <= k < s.len() && s[k] == y;
            assert(t[k] == y);
        }
        if y == x {
            assert(t[s.len() as int] == y);
        }
    }
}

/// Adds `name` to `names` unless they hold it.
pub fn add_name(names: &mut Vec<String>, name: &str)
    ensures
        old(names).deep_view().no_duplicates() ==> final(names).deep_view().no_duplicates(),
        final(names).deep_view() == if old(names).deep_view().contains(name@) {
            old(names).deep_view()
        } else {
            old(names).deep_view().push(name@)
        },
        forall|other: Seq<char>| #[trigger]
            final(names).deep_view().contains(other) <==> old(names).deep_view().contains(other)
                || other == name@,
{
    let ghost before = names.deep_view();
    proof {
        lemma_push_contains(before, name@);
    }
    if !contains_name(names, name) {
        names.push(name.to_owned());
        assert(names.deep_view() == before.push(name@));
    }
}

/// The pieces of `s` between occurrences of `a` or `b`, in order.
pub fn split_on_either(s: &str, a: char, b: char) -> (out: Vec<String>)
    ensures
        out.deep_view() == split(s@, set![a, b]),
{
    let ghost stops = set![a, b];
    let chars = chars_of(s);
    let n = chars.len();
    let mut out: Vec<String> = Vec::new();
    let mut start: usize = 0;
    let mut i: usize = 0;
    assert(s@.subrange(0, n as int) == s@);
    assert(out.deep_view() == Seq::<Seq<char>>::empty());
    while i < n
        invariant
            n == chars.len(),
            chars@ == s@,
            stops == set![a, b],
            start <= i <= n,
            forall|k: int| start <= k < i ==> !stops.contains(#[trigger] chars@[k]),
            split(s@, stops) == out.deep_view() + split(s@.subrange(start as int, n as int), stops),
        decreases n - i,
    {
        if chars[i] == a || chars[i] == b {
            let piece = s.substring_char(start, i).to_owned();
            proof {
                let tail = s@.subrange(start as int, n as int);
                assert forall|k: int| 0 <= k < i - start implies !stops.contains(
                    #[trigger] tail[k],
                ) by {}
                lemma_first_of_is(tail, stops, i - start);
                assert(tail.subrange(0, i - start) == s@.subrange(start as int, i as int));
                assert(tail.subrange(i - start + 1, tail.len() as int) == s@.subrange(
                    i + 1,
                    n as int,
                ));
                assert(out.deep_view().push(piece@) + split(s@.subrange(i + 1, n as int), stops)
                    == out.deep_view() + split(tail, stops));
            }
            let ghost before = out.deep_view();
            out.push(piece);
            assert(out.deep_view() == before.push(piece@));
            start = i + 1;
        }
        i = i + 1;
    }
    let piece = s.substring_char(start, n).to_owned();
    proof {
        let tail = s@.subrange(start as int, n as int);
        assert forall|k: int| 0 <= k < tail.len() implies !stops.contains(#[trigger] tail[k]) by {}
        lemma_first_of_is(tail, stops, tail.len() as int);
    }
    let ghost before = out.deep_view();
    out.push(piece);
    assert(out.deep_view() == before.push(piece@));
    out
}

/// The pieces of `s` between occurrences of `sep`, in order.
pub fn split_on(s: &str, sep: char) -> (out: Vec<String>)
    ensures
        out.deep_view() == split(s@, set![sep]),
{
    assert(set![sep, sep] =~= set![sep]);
    split_on_either(s, sep, sep)
}

} // verus!
