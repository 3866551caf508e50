//! Splitting a sequence on a separator and joining the pieces back.
//!
//! Both the dotted-name wire codec and the HTTP text layer cut their input on
//! a delimiter. The model is shared: `split_seq` scans left to right for
//! non-overlapping occurrences of the separator, `join_seq` puts the separator
//! back between the pieces, and the lemmas below relate the two and support
//! the loops that compute them.

use vstd::prelude::*;

verus! {

/// The pieces of `s` between non-overlapping occurrences of `sep`, scanning
/// left to right. There is always at least one piece; an empty separator
/// never splits.
pub open spec fn split_seq<T>(s: Seq<T>, sep: Seq<T>) -> Seq<Seq<T>>
    decreases s.len(),
{
    if sep.len() == 0 || s.len() < sep.len() {
        seq![s]
    } else if s.take(sep.len() as int) == sep {
        seq![Seq::<T>::empty()] + split_seq(s.skip(sep.len() as int), sep)
    } else {
        let rest = split_seq(s.drop_first(), sep);
        seq![seq![s[0]] + rest[0]] + rest.drop_first()
    }
}

/// The pieces of `ls` concatenated with `sep` between each pair.
pub open spec fn join_seq<T>(ls: Seq<Seq<T>>, sep: Seq<T>) -> Seq<T>
    decreases ls.len(),
{
    if ls.len() == 0 {
        Seq::empty()
    } else if ls.len() == 1 {
        ls[0]
    } else {
        ls[0] + sep + join_seq(ls.drop_first(), sep)
    }
}

/// A prefix glued onto the first piece, ahead of the remaining pieces. This is
/// the shape of a split that is still scanning its first piece.
pub open spec fn glue_first<T>(pre: Seq<T>, ls: Seq<Seq<T>>) -> Seq<Seq<T>>
    recommends
        ls.len() >= 1,
{
    seq![pre + ls[0]] + ls.drop_first()
}

/// A split always yields at least one piece.
pub proof fn lemma_split_nonempty<T>(s: Seq<T>, sep: Seq<T>)
    ensures
        split_seq(s, sep).len() >= 1,
    decreases s.len(),
{
    if !(sep.len() == 0 || s.len() < sep.len()) && s.take(sep.len() as int) != sep {
        lemma_split_nonempty(s.drop_first(), sep);
    }
}

/// Joining the pieces of a split restores the sequence that was split.
pub proof fn lemma_join_split<T>(s: Seq<T>, sep: Seq<T>)
    requires
        sep.len() >= 1,
    ensures
        join_seq(split_seq(s, sep), sep) == s,
    decreases s.len(),
{
    let n = sep.len() as int;
    if s.len() < sep.len() {
        assert(join_seq(split_seq(s, sep), sep) =~= s);
    } else if s.take(n) == sep {
        let rest = s.skip(n);
        lemma_join_split(rest, sep);
        lemma_split_nonempty(rest, sep);
        assert(split_seq(s, sep).drop_first() =~= split_seq(rest, sep));
        assert(join_seq(split_seq(s, sep), sep) =~= sep + join_seq(split_seq(rest, sep), sep));
        assert(s =~= s.take(n) + s.skip(n));
    } else {
        let tail = s.drop_first();
        let r = split_seq(tail, sep);
        lemma_join_split(tail, sep);
        lemma_split_nonempty(tail, sep);
        let out = split_seq(s, sep);
        assert(out.drop_first() =~= r.drop_first());
        if r.len() == 1 {
            assert(join_seq(r, sep) == r[0]);
            assert(out.len() == 1);
            assert(join_seq(out, sep) == seq![s[0]] + r[0]);
            assert(join_seq(out, sep) =~= s);
        } else {
            assert(join_seq(r, sep) == r[0] + sep + join_seq(r.drop_first(), sep));
            assert(join_seq(out, sep) == (seq![s[0]] + r[0]) + sep + join_seq(
                out.drop_first(),
                sep,
            ));
            assert(join_seq(out, sep) =~= seq![s[0]] + (r[0] + sep + join_seq(
                r.drop_first(),
                sep,
            )));
            assert(join_seq(out, sep) =~= s);
        }
    }
}

/// A scan that finds no separator at position `i` moves one element of `s`
/// into the piece under construction.
pub proof fn lemma_split_step_nomatch<T>(s: Seq<T>, sep: Seq<T>, i: int)
    requires
        sep.len() >= 1,
        0 <= i < s.len(),
        !(i + sep.len() <= s.len() && s.subrange(i, i + sep.len() as int) == sep),
    ensures
        split_seq(s.skip(i), sep) == glue_first(seq![s[i]], split_seq(s.skip(i + 1), sep)),
{
    let n = sep.len() as int;
    let t = s.skip(i);
    assert(t.drop_first() =~= s.skip(i + 1));
    lemma_split_nonempty(s.skip(i + 1), sep);
    if t.len() < sep.len() {
        let r = split_seq(t.drop_first(), sep);
        assert(t.drop_first().len() < sep.len());
        assert(r == seq![t.drop_first()]);
        assert(glue_first(seq![s[i]], r) =~~= seq![t]);
    } else {
        assert(t.take(n) =~= s.subrange(i, i + n));
        assert(t.take(n) != sep);
        assert(split_seq(t, sep) == glue_first(
            seq![t[0]],
            split_seq(t.drop_first(), sep),
        ));
        assert(glue_first(seq![t[0]], split_seq(t.drop_first(), sep)) =~~= glue_first(
            seq![s[i]],
            split_seq(s.skip(i + 1), sep),
        ));
    }
}

/// A scan that finds the separator at position `i` closes the piece under
/// construction with an empty continuation.
pub proof fn lemma_split_step_match<T>(s: Seq<T>, sep: Seq<T>, i: int)
    requires
        sep.len() >= 1,
        0 <= i,
        i + sep.len() <= s.len(),
        s.subrange(i, i + sep.len() as int) == sep,
    ensures
        split_seq(s.skip(i), sep) == seq![Seq::<T>::empty()] + split_seq(
            s.skip(i + sep.len() as int),
            sep,
        ),
{
    let n = sep.len() as int;
    let t = s.skip(i);
    assert(t.take(n) =~= s.subrange(i, i + n));
    assert(t.skip(n) =~= s.skip(i + n));
}

/// Pushing one more piece extends a join by a separator and that piece.
pub proof fn lemma_join_push<T>(ls: Seq<Seq<T>>, sep: Seq<T>, x: Seq<T>)
    requires
        ls.len() >= 1,
    ensures
        join_seq(ls.push(x), sep) == join_seq(ls, sep) + sep + x,
    decreases ls.len(),
{
    if ls.len() == 1 {
        assert(ls.push(x).drop_first() =~~= seq![x]);
        assert(ls.push(x)[0] == ls[0]);
        assert(join_seq(seq![x], sep) == x);
        assert(join_seq(ls.push(x), sep) == ls[0] + sep + x);
    } else {
        assert(ls.push(x).drop_first() =~~= ls.drop_first().push(x));
        lemma_join_push(ls.drop_first(), sep, x);
        assert(join_seq(ls.push(x), sep) =~= join_seq(ls, sep) + sep + x);
    }
}

} // verus!
