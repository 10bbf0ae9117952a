//! Character-sequence utilities shared by the text store and the command
//! parser: splitting a sequence on a separator character, joining pieces
//! back together, and the laws that relate the two operations.

use vstd::prelude::*;

verus! {

/// Splits `s` at every occurrence of `sep`.  The result always holds at
/// least one piece; splitting the empty sequence yields one empty piece,
/// and a trailing separator yields a trailing empty piece.
pub open spec fn split_on(s: Seq<char>, sep: char) -> Seq<Seq<char>>
    decreases s.len(),
{
    if s.len() == 0 {
        seq![Seq::<char>::empty()]
    } else if s.last() == sep {
        split_on(s.drop_last(), sep).push(Seq::<char>::empty())
    } else {
        let p = split_on(s.drop_last(), sep);
        p.update(p.len() - 1, p.last().push(s.last()))
    }
}

/// Joins the pieces of `ls` with a single `sep` between consecutive pieces.
pub open spec fn join_with(ls: Seq<Seq<char>>, sep: char) -> Seq<char>
    decreases ls.len(),
{
    if ls.len() == 0 {
        Seq::<char>::empty()
    } else if ls.len() == 1 {
        ls[0]
    } else {
        join_with(ls.drop_last(), sep).push(sep) + ls.last()
    }
}

/// No piece of `ls` contains the character `sep`.
pub open spec fn sep_free(ls: Seq<Seq<char>>, sep: char) -> bool {
    forall|i: int| 0 <= i < ls.len() ==> !ls[i].contains(sep)
}

/// Splitting always yields at least one piece.
pub proof fn lemma_split_on_len(s: Seq<char>, sep: char)
    ensures
        split_on(s, sep).len() >= 1,
    decreases s.len(),
{
    if s.len() > 0 {
        lemma_split_on_len(s.drop_last(), sep);
    }
}

/// The separator occurs in none of the pieces of a split.
pub proof fn lemma_split_on_sep_free(s: Seq<char>, sep: char)
    ensures
        sep_free(split_on(s, sep), sep),
    decreases s.len(),
{
    if s.len() == 0 {
        assert forall|i: int| 0 <= i < split_on(s, sep).len() implies !split_on(
            s,
            sep,
        )[i].contains(sep) by {
            assert(forall|j: int|
                0 <= j < Seq::<char>::empty().len() ==> Seq::<char>::empty()[j] != sep);
        }
    } else {
        lemma_split_on_sep_free(s.drop_last(), sep);
        lemma_split_on_len(s.drop_last(), sep);
        let p = split_on(s.drop_last(), sep);
        if s.last() == sep {
            assert forall|i: int| 0 <= i < p.push(Seq::<char>::empty()).len() implies !p.push(
                Seq::<char>::empty(),
            )[i].contains(sep) by {
                if i < p.len() {
                    assert(p.push(Seq::<char>::empty())[i] == p[i]);
                } else {
                    assert(forall|j: int|
                        0 <= j < Seq::<char>::empty().len() ==> Seq::<char>::empty()[j] != sep);
                }
            }
        } else {
            let q = p.update(p.len() - 1, p.last().push(s.last()));
            assert forall|i: int| 0 <= i < q.len() implies !q[i].contains(sep) by {
                if i == p.len() - 1 {
                    let piece = p.last().push(s.last());
                    assert(!p[i].contains(sep));
                    assert forall|j: int| 0 <= j < piece.len() implies piece[j] != sep by {
                        if j < p.last().len() {
                            assert(p.last()[j] != sep);
                        }
                    }
                } else {
                    assert(q[i] == p[i]);
                }
            }
        }
    }
}

/// Joining the pieces of a split restores the original sequence.
pub proof fn lemma_join_split_identity(s: Seq<char>, sep: char)
    ensures
        join_with(split_on(s, sep), sep) == s,
    decreases s.len(),
{
    if s.len() == 0 {
        assert(join_with(split_on(s, sep), sep) =~= s);
    } else {
        lemma_join_split_identity(s.drop_last(), sep);
        lemma_split_on_len(s.drop_last(), sep);
        let p = split_on(s.drop_last(), sep);
        if s.last() == sep {
            let q = p.push(Seq::<char>::empty());
            assert(q.drop_last() =~= p);
            assert(join_with(q, sep) =~= s);
        } else {
            let q = p.update(p.len() - 1, p.last().push(s.last()));
            if p.len() == 1 {
                assert(join_with(q, sep) == q[0]);
                assert(q[0] =~= s);
            } else {
                assert(q.drop_last() =~= p.drop_last());
                assert(q.last() == p.last().push(s.last()));
                let jd = join_with(p.drop_last(), sep);
                assert(jd.push(sep) + p.last() == s.drop_last());
                assert(join_with(q, sep) == jd.push(sep) + p.last().push(s.last()));
                assert(jd.push(sep) + p.last().push(s.last()) =~= (jd.push(sep)
                    + p.last()).push(s.last()));
                assert(s.drop_last().push(s.last()) =~= s);
                assert(join_with(q, sep) =~= s);
            }
        }
    }
}

/// A sequence free of the separator splits into exactly one piece: itself.
pub proof fn lemma_split_on_sep_free_single(s: Seq<char>, sep: char)
    requires
        !s.contains(sep),
    ensures
        split_on(s, sep) =~~= seq![s],
    decreases s.len(),
{
    if s.len() == 0 {
        assert(split_on(s, sep) =~~= seq![s]);
    } else {
        assert(s[s.len() - 1] != sep);
        assert(!s.drop_last().contains(sep)) by {
            assert forall|i: int| 0 <= i < s.drop_last().len() implies s.drop_last()[i] != sep by {
                assert(s[i] != sep);
            }
        }
        lemma_split_on_sep_free_single(s.drop_last(), sep);
        let p = split_on(s.drop_last(), sep);
        assert(p == seq![s.drop_last()]);
        assert(p.update(p.len() - 1, p.last().push(s.last())) =~~= seq![s]);
    }
}

/// Splitting `a + [sep] + b`, with `b` free of the separator, splits `a`
/// and appends `b` as one further piece.
pub proof fn lemma_split_on_append(a: Seq<char>, b: Seq<char>, sep: char)
    requires
        !b.contains(sep),
    ensures
        split_on(a + seq![sep] + b, sep) =~~= split_on(a, sep).push(b),
    decreases b.len(),
{
    if b.len() == 0 {
        let s = a + seq![sep] + b;
        assert(s =~= a.push(sep));
        assert(s.len() > 0 && s.last() == sep);
        assert(s.drop_last() =~= a);
        assert(split_on(s, sep) =~~= split_on(a, sep).push(b));
    } else {
        assert(b[b.len() - 1] != sep);
        assert(!b.drop_last().contains(sep)) by {
            assert forall|i: int| 0 <= i < b.drop_last().len() implies b.drop_last()[i] != sep by {
                assert(b[i] != sep);
            }
        }
        lemma_split_on_append(a, b.drop_last(), sep);
        let s = a + seq![sep] + b;
        assert(s.len() > 0 && s.last() == b.last());
        assert(s.drop_last() =~= a + seq![sep] + b.drop_last());
        let p = split_on(s.drop_last(), sep);
        assert(p =~~= split_on(a, sep).push(b.drop_last()));
        lemma_split_on_len(a, sep);
        assert(p.last() == b.drop_last());
        assert(split_on(s, sep) == p.update(p.len() - 1, p.last().push(b.last())));
        assert(b.drop_last().push(b.last()) =~= b);
        assert(split_on(s, sep) =~~= split_on(a, sep).push(b));
    }
}

/// Splitting the join of separator-free pieces restores the pieces.
pub proof fn lemma_split_join_inverse(ls: Seq<Seq<char>>, sep: char)
    requires
        ls.len() >= 1,
        sep_free(ls, sep),
    ensures
        split_on(join_with(ls, sep), sep) =~~= ls,
    decreases ls.len(),
{
    if ls.len() == 1 {
        lemma_split_on_sep_free_single(ls[0], sep);
        assert(split_on(join_with(ls, sep), sep) =~~= ls);
    } else {
        assert(sep_free(ls.drop_last(), sep)) by {
            assert forall|i: int| 0 <= i < ls.drop_last().len() implies !ls.drop_last()[i].contains(
                sep,
            ) by {
                assert(!ls[i].contains(sep));
            }
        }
        lemma_split_join_inverse(ls.drop_last(), sep);
        assert(!ls.last().contains(sep));
        lemma_split_on_append(join_with(ls.drop_last(), sep), ls.last(), sep);
        assert(join_with(ls, sep) =~= join_with(ls.drop_last(), sep) + seq![sep] + ls.last());
        assert(split_on(join_with(ls, sep), sep) =~~= ls.drop_last().push(ls.last()));
        assert(ls.drop_last().push(ls.last()) =~~= ls);
    }
}

/// A subrange of a sequence free of `sep` is itself free of `sep`.
pub proof fn lemma_sep_free_subrange(s: Seq<char>, a: int, b: int, sep: char)
    requires
        !s.contains(sep),
        0 <= a <= b <= s.len(),
    ensures
        !s.subrange(a, b).contains(sep),
{
    assert forall|i: int| 0 <= i < s.subrange(a, b).len() implies s.subrange(a, b)[i] != sep by {
        assert(s[a + i] != sep);
    }
}

/// The concatenation of two sequences free of `sep` is free of `sep`.
pub proof fn lemma_sep_free_concat(a: Seq<char>, b: Seq<char>, sep: char)
    requires
        !a.contains(sep),
        !b.contains(sep),
    ensures
        !(a + b).contains(sep),
{
    assert forall|i: int| 0 <= i < (a + b).len() implies (a + b)[i] != sep by {
        if i < a.len() {
            assert(a[i] != sep);
        } else {
            assert(b[i - a.len()] != sep);
        }
    }
}

/// Relies on `String::push`: appends exactly the one character `c` to `s`.
#[verifier::external_body]
pub fn push_char(s: &mut String, c: char)
    ensures
        final(s)@ == old(s)@.push(c),
{
    s.push(c);
}

/// Relies on `str`'s `PartialEq`: two slices are equal exactly when their
/// character sequences are equal.
#[verifier::external_body]
pub fn str_eq(a: &str, b: &str) -> (r: bool)
    ensures
        r == (a@ == b@),
{
    a == b
}

/// Splits `s` at every occurrence of `sep`, as [`split_on`] describes.
pub fn split_by(s: &str, sep: char) -> (parts: Vec<String>)
    ensures
        parts.deep_view() == split_on(s@, sep),
{
    let n = s.unicode_len();
    let mut parts: Vec<String> = Vec::new();
    let mut cur = String::new();
    let mut i: usize = 0;
    while i < n
        invariant
            i <= n,
            n == s@.len(),
            parts.deep_view().push(cur@) =~~= split_on(s@.take(i as int), sep),
        decreases n - i,
    {
        let c = s.get_char(i);
        let ghost t = s@.take(i as int);
        let ghost t2 = s@.take(i as int + 1);
        proof {
            assert(t2.len() > 0);
            assert(t2.drop_last() =~= t);
            assert(t2.last() == s@[i as int]);
        }
        if c == sep {
            parts.push(cur);
            cur = String::new();
            proof {
                assert(parts.deep_view().push(cur@) =~~= split_on(t2, sep));
            }
        } else {
            push_char(&mut cur, c);
            proof {
                let p = split_on(t, sep);
                assert(p.len() == parts.deep_view().push(cur@).len());
                assert(split_on(t2, sep) == p.update(p.len() - 1, p.last().push(c)));
                assert(parts.deep_view().push(cur@) =~~= split_on(t2, sep));
            }
        }
        i = i + 1;
    }
    proof {
        assert(s@.take(n as int) =~= s@);
    }
    parts.push(cur);
    proof {
        assert(parts.deep_view() =~~= split_on(s@, sep));
    }
    parts
}

} // verus!
