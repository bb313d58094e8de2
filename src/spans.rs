//! Lists of byte spans read as one concatenated sequence (vectored I/O).
use vstd::prelude::*;

verus! {

/// The bytes of all spans, one after the other.
pub open spec fn spans_concat(spans: Seq<&[u8]>) -> Seq<u8>
    decreases spans.len(),
{
    if spans.len() == 0 {
        Seq::empty()
    } else {
        spans_concat(spans.drop_last()) + spans.last()@
    }
}

/// Concatenation distributes over joining two lists of spans.
pub proof fn lemma_spans_concat_append(a: Seq<&[u8]>, b: Seq<&[u8]>)
    ensures
        spans_concat(a + b) == spans_concat(a) + spans_concat(b),
    decreases b.len(),
{
    if b.len() == 0 {
        assert(a + b =~= a);
        assert(spans_concat(a) + spans_concat(b) =~= spans_concat(a));
    } else {
        lemma_spans_concat_append(a, b.drop_last());
        assert((a + b).drop_last() =~= a + b.drop_last());
        assert((a + b).last() == b.last());
        assert(spans_concat(a) + spans_concat(b.drop_last()) + b.last()@ =~= spans_concat(a) + (
        spans_concat(b.drop_last()) + b.last()@));
    }
}

/// Spans that are all empty contribute no bytes.
pub proof fn lemma_spans_concat_all_empty(spans: Seq<&[u8]>)
    requires
        forall|j: int| 0 <= j < spans.len() ==> (#[trigger] spans[j])@.len() == 0,
    ensures
        spans_concat(spans) == Seq::<u8>::empty(),
    decreases spans.len(),
{
    if spans.len() > 0 {
        lemma_spans_concat_all_empty(spans.drop_last());
        assert(spans_concat(spans) =~= Seq::<u8>::empty());
    }
}

/// One span alone concatenates to its own bytes.
pub proof fn lemma_spans_concat_single(s: &[u8])
    ensures
        spans_concat(seq![s]) == s@,
{
    let one = seq![s];
    assert(one.drop_last() =~= Seq::<&[u8]>::empty());
    assert(spans_concat(one.drop_last()) == Seq::<u8>::empty());
    assert(one.last() == s);
    assert(spans_concat(one) == spans_concat(one.drop_last()) + one.last()@);
    assert(Seq::<u8>::empty() + s@ =~= s@);
}

/// When every span before index `i` is empty, the concatenation starts with span `i`.
pub proof fn lemma_spans_concat_first_nonempty(spans: Seq<&[u8]>, i: int)
    requires
        0 <= i < spans.len(),
        forall|j: int| 0 <= j < i ==> (#[trigger] spans[j])@.len() == 0,
    ensures
        spans_concat(spans) == spans[i]@ + spans_concat(spans.subrange(i + 1, spans.len() as int)),
{
    let pre = spans.subrange(0, i);
    let rest = spans.subrange(i + 1, spans.len() as int);
    assert(spans =~= pre + seq![spans[i]] + rest);
    lemma_spans_concat_append(pre + seq![spans[i]], rest);
    lemma_spans_concat_append(pre, seq![spans[i]]);
    lemma_spans_concat_all_empty(pre);
    lemma_spans_concat_single(spans[i]);
    assert(Seq::<u8>::empty() + spans[i]@ =~= spans[i]@);
}

/// Returns the total number of bytes in `spans`.
pub fn spans_len(spans: &[&[u8]]) -> (r: usize)
    requires
        spans_concat(spans@).len() <= usize::MAX,
    ensures
        r == spans_concat(spans@).len(),
{
    let mut total: usize = 0;
    let mut i: usize = 0;
    while i < spans.len()
        invariant
            i <= spans@.len(),
            spans_concat(spans@).len() <= usize::MAX,
            total == spans_concat(spans@.subrange(0, i as int)).len(),
        decreases spans@.len() - i,
    {
        proof {
            let a = spans@.subrange(0, i as int);
            let b = spans@.subrange(i as int + 1, spans@.len() as int);
            assert(spans@.subrange(0, i as int + 1).drop_last() =~= a);
            assert(spans@ =~= spans@.subrange(0, i as int + 1) + b);
            lemma_spans_concat_append(spans@.subrange(0, i as int + 1), b);
        }
        total = total + spans[i].len();
        i = i + 1;
    }
    assert(spans@.subrange(0, i as int) =~= spans@);
    total
}

/// Returns the first span that holds at least one byte, or an empty span when there is none.
pub fn first_nonempty<'a>(spans: &[&'a [u8]]) -> (r: &'a [u8])
    ensures
        r@.len() == 0 <==> spans_concat(spans@).len() == 0,
        r@.len() <= spans_concat(spans@).len(),
        r@ == spans_concat(spans@).subrange(0, r@.len() as int),
        r@.len() > 0 ==> exists|k: int|
            0 <= k < spans@.len() && r == spans@[k] && forall|j: int|
                0 <= j < k ==> (#[trigger] spans@[j])@.len() == 0,
{
    let mut i: usize = 0;
    while i < spans.len()
        invariant
            i <= spans@.len(),
            forall|j: int| 0 <= j < i ==> (#[trigger] spans@[j])@.len() == 0,
        decreases spans@.len() - i,
    {
        if !spans[i].is_empty() {
            proof {
                lemma_spans_concat_first_nonempty(spans@, i as int);
                assert(spans_concat(spans@).subrange(0, spans@[i as int]@.len() as int)
                    =~= spans@[i as int]@);
                assert(spans[i as int] == spans@[i as int]);
            }
            return spans[i];
        }
        i = i + 1;
    }
    proof {
        lemma_spans_concat_all_empty(spans@);
    }
    let empty: &[u8] = &[];
    assert(empty@ =~= Seq::<u8>::empty());
    empty
}

} // verus!
