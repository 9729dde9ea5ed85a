//! Facts about sequences: joining pieces of text, and what it means that one
//! sequence is left when elements of another are taken out.
use vstd::prelude::*;

verus! {

/// The pieces of text, one after the other.
pub open spec fn concat(parts: Seq<Seq<char>>) -> Seq<char>
    decreases parts.len(),
{
    if parts.len() == 0 {
        Seq::empty()
    } else {
        concat(parts.drop_last()) + parts.last()
    }
}

pub proof fn lemma_concat_push(parts: Seq<Seq<char>>, x: Seq<char>)
    ensures
        concat(parts.push(x)) == concat(parts) + x,
{
    assert(parts.push(x).drop_last() =~= parts);
}

pub proof fn lemma_concat_single(x: Seq<char>)
    ensures
        concat(seq![x]) == x,
{
    assert(seq![x].drop_last() =~= Seq::<Seq<char>>::empty());
    assert(concat(seq![x]) =~= x) by {
        reveal_with_fuel(concat, 2);
    }
}

pub proof fn lemma_concat_append(a: Seq<Seq<char>>, b: Seq<Seq<char>>)
    ensures
        concat(a + b) == concat(a) + concat(b),
    decreases b.len(),
{
    if b.len() == 0 {
        assert(a + b =~= a);
        assert(concat(a) + concat(b) =~= concat(a));
    } else {
        assert((a + b).drop_last() =~= a + b.drop_last());
        lemma_concat_append(a, b.drop_last());
        assert(concat(a + b) =~= concat(a) + concat(b));
    }
}

/// Whether `a` is what is left of `b` when some of its elements are taken
/// out: the elements of `a` occur in `b`, in the same order.
pub open spec fn is_subseq<T>(a: Seq<T>, b: Seq<T>) -> bool
    decreases b.len(),
{
    if a.len() == 0 {
        true
    } else if b.len() == 0 {
        false
    } else {
        (a.last() == b.last() && is_subseq(a.drop_last(), b.drop_last())) || is_subseq(
            a,
            b.drop_last(),
        )
    }
}

/// Adding the same element to both keeps the relation.
pub proof fn lemma_subseq_push_both<T>(a: Seq<T>, b: Seq<T>, x: T)
    requires
        is_subseq(a, b),
    ensures
        is_subseq(a.push(x), b.push(x)),
{
    assert(a.push(x).drop_last() =~= a);
    assert(b.push(x).drop_last() =~= b);
}

/// Adding an element to the longer one keeps the relation.
pub proof fn lemma_subseq_push_right<T>(a: Seq<T>, b: Seq<T>, x: T)
    requires
        is_subseq(a, b),
    ensures
        is_subseq(a, b.push(x)),
{
    assert(b.push(x).drop_last() =~= b);
}

/// Every sequence is left of itself when nothing is taken out.
pub proof fn lemma_subseq_refl<T>(a: Seq<T>)
    ensures
        is_subseq(a, a),
    decreases a.len(),
{
    if a.len() > 0 {
        lemma_subseq_refl(a.drop_last());
    }
}

/// What is left is no longer than what it was taken from.
pub proof fn lemma_subseq_len<T>(a: Seq<T>, b: Seq<T>)
    requires
        is_subseq(a, b),
    ensures
        a.len() <= b.len(),
    decreases b.len(),
{
    if a.len() > 0 {
        if a.last() == b.last() && is_subseq(a.drop_last(), b.drop_last()) {
            lemma_subseq_len(a.drop_last(), b.drop_last());
        } else {
            lemma_subseq_len(a, b.drop_last());
        }
    }
}

/// Where nothing was taken out, the two are the same.
pub proof fn lemma_subseq_full<T>(a: Seq<T>, b: Seq<T>)
    requires
        is_subseq(a, b),
        a.len() == b.len(),
    ensures
        a == b,
    decreases b.len(),
{
    if a.len() > 0 {
        if a.last() == b.last() && is_subseq(a.drop_last(), b.drop_last()) {
            lemma_subseq_full(a.drop_last(), b.drop_last());
            assert(a =~= a.drop_last().push(a.last()));
            assert(b =~= b.drop_last().push(b.last()));
        } else {
            lemma_subseq_len(a, b.drop_last());
        }
    } else {
        assert(a =~= b);
    }
}

/// What is left of a front part is left of the whole.
pub proof fn lemma_subseq_take<T>(a: Seq<T>, b: Seq<T>, k: int)
    requires
        0 <= k <= b.len(),
        is_subseq(a, b.take(k)),
    ensures
        is_subseq(a, b),
    decreases b.len() - k,
{
    if k < b.len() {
        assert(b.take(k + 1) =~= b.take(k).push(b[k]));
        lemma_subseq_push_right(a, b.take(k), b[k]);
        lemma_subseq_take(a, b, k + 1);
    } else {
        assert(b.take(k) =~= b);
    }
}

/// What is left of some pieces of text is no longer than all of them.
pub proof fn lemma_subseq_concat_len(a: Seq<Seq<char>>, b: Seq<Seq<char>>)
    requires
        is_subseq(a, b),
    ensures
        concat(a).len() <= concat(b).len(),
    decreases b.len(),
{
    if a.len() > 0 {
        if a.last() == b.last() && is_subseq(a.drop_last(), b.drop_last()) {
            lemma_subseq_concat_len(a.drop_last(), b.drop_last());
        } else {
            lemma_subseq_concat_len(a, b.drop_last());
        }
    }
}

/// Where a piece was taken out and no piece is empty, what is left is
/// shorter.
pub proof fn lemma_subseq_concat_shorter(a: Seq<Seq<char>>, b: Seq<Seq<char>>)
    requires
        is_subseq(a, b),
        a.len() < b.len(),
        forall|i: int| 0 <= i < b.len() ==> (#[trigger] b[i]).len() >= 1,
    ensures
        concat(a).len() < concat(b).len(),
    decreases b.len(),
{
    assert(b.last().len() >= 1);
    if a.len() > 0 {
        if a.last() == b.last() && is_subseq(a.drop_last(), b.drop_last()) {
            assert forall|i: int| 0 <= i < b.drop_last().len() implies (
            #[trigger] b.drop_last()[i]).len() >= 1 by {
                assert(b.drop_last()[i] == b[i]);
            }
            lemma_subseq_concat_shorter(a.drop_last(), b.drop_last());
        } else {
            lemma_subseq_concat_len(a, b.drop_last());
        }
    }
}

/// Putting an element into the longer one, at any place, keeps the relation.
pub proof fn lemma_subseq_insert<T>(a: Seq<T>, b: Seq<T>, k: int, x: T)
    requires
        is_subseq(a, b),
        0 <= k <= b.len(),
    ensures
        is_subseq(a, b.insert(k, x)),
    decreases b.len(),
{
    let c = b.insert(k, x);
    if k == b.len() {
        assert(c =~= b.push(x));
        lemma_subseq_push_right(a, b, x);
    } else if a.len() > 0 {
        assert(c.last() == b.last());
        assert(c.drop_last() =~= b.drop_last().insert(k, x));
        if a.last() == b.last() && is_subseq(a.drop_last(), b.drop_last()) {
            lemma_subseq_insert(a.drop_last(), b.drop_last(), k, x);
        } else {
            lemma_subseq_insert(a, b.drop_last(), k, x);
        }
    }
}

} // verus!
