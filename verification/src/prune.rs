//! The mathematical model of pruning: keeping the elements of a sequence that
//! a boolean mask marks, in their original order.

use vstd::prelude::*;

verus! {

/// `mask_seq(s, keep)` is `s` restricted to the positions that `keep` marks
/// `true`, in their original order.
pub open spec fn mask_seq<T>(s: Seq<T>, keep: Seq<bool>) -> Seq<T>
    recommends
        keep.len() == s.len(),
    decreases s.len(),
{
    if s.len() == 0 {
        Seq::empty()
    } else {
        let rest = mask_seq(s.skip(1), keep.skip(1));
        if keep[0] {
            seq![s[0]] + rest
        } else {
            rest
        }
    }
}

/// The number of `true` marks in a mask.
pub open spec fn count_true(keep: Seq<bool>) -> nat
    decreases keep.len(),
{
    if keep.len() == 0 {
        0
    } else {
        (if keep[0] {
            1nat
        } else {
            0nat
        }) + count_true(keep.skip(1))
    }
}

/// The positions that a mask marks `true`, in increasing order.
pub open spec fn kept_indices(keep: Seq<bool>) -> Seq<int>
    decreases keep.len(),
{
    if keep.len() == 0 {
        Seq::empty()
    } else {
        let rest = kept_indices(keep.skip(1)).map_values(|j: int| j + 1);
        if keep[0] {
            seq![0] + rest
        } else {
            rest
        }
    }
}

proof fn lemma_mask_seq_push<T>(s: Seq<T>, keep: Seq<bool>, x: T, b: bool)
    requires
        keep.len() == s.len(),
    ensures
        b ==> mask_seq(s.push(x), keep.push(b)) == mask_seq(s, keep).push(x),
        !b ==> mask_seq(s.push(x), keep.push(b)) == mask_seq(s, keep),
    decreases s.len(),
{
    if s.len() == 0 {
        assert(s.push(x).skip(1) =~= Seq::<T>::empty());
        assert(keep.push(b).skip(1) =~= Seq::<bool>::empty());
        assert(mask_seq(s.push(x).skip(1), keep.push(b).skip(1)) =~= Seq::<T>::empty());
        assert(keep.push(b)[0] == b);
        assert(s.push(x)[0] == x);
        if b {
            assert(mask_seq(s.push(x), keep.push(b)) =~= mask_seq(s, keep).push(x));
        } else {
            assert(mask_seq(s.push(x), keep.push(b)) =~= mask_seq(s, keep));
        }
    } else {
        assert(s.push(x).skip(1) =~= s.skip(1).push(x));
        assert(keep.push(b).skip(1) =~= keep.skip(1).push(b));
        lemma_mask_seq_push(s.skip(1), keep.skip(1), x, b);
        assert(keep.push(b)[0] == keep[0]);
        assert(s.push(x)[0] == s[0]);
        if b {
            assert(mask_seq(s.push(x), keep.push(b)) =~= mask_seq(s, keep).push(x));
        } else {
            assert(mask_seq(s.push(x), keep.push(b)) =~= mask_seq(s, keep));
        }
    }
}

/// Extends a masked prefix by one position: the step a pruning loop takes.
pub proof fn lemma_mask_seq_take_step<T>(s: Seq<T>, keep: Seq<bool>, i: int)
    requires
        keep.len() == s.len(),
        0 <= i < s.len(),
    ensures
        keep[i] ==> mask_seq(s.take(i + 1), keep.take(i + 1)) == mask_seq(
            s.take(i),
            keep.take(i),
        ).push(s[i]),
        !keep[i] ==> mask_seq(s.take(i + 1), keep.take(i + 1)) == mask_seq(s.take(i), keep.take(i)),
{
    assert(s.take(i + 1) =~= s.take(i).push(s[i]));
    assert(keep.take(i + 1) =~= keep.take(i).push(keep[i]));
    lemma_mask_seq_push(s.take(i), keep.take(i), s[i], keep[i]);
}

/// Pruning never lengthens the sequence.
pub proof fn lemma_mask_seq_len_le<T>(s: Seq<T>, keep: Seq<bool>)
    requires
        keep.len() == s.len(),
    ensures
        mask_seq(s, keep).len() <= s.len(),
    decreases s.len(),
{
    if s.len() != 0 {
        lemma_mask_seq_len_le(s.skip(1), keep.skip(1));
    }
}

/// When every mark is `true`, pruning removes nothing.
pub proof fn lemma_mask_seq_all_kept<T>(s: Seq<T>, keep: Seq<bool>)
    requires
        keep.len() == s.len(),
        forall|i: int| 0 <= i < keep.len() ==> keep[i],
    ensures
        mask_seq(s, keep) == s,
    decreases s.len(),
{
    if s.len() == 0 {
        assert(mask_seq(s, keep) =~= s);
    } else {
        lemma_mask_seq_all_kept(s.skip(1), keep.skip(1));
        assert(mask_seq(s, keep) =~= s);
    }
}

/// Pruning keeps exactly as many elements as the mask marks `true`.
pub proof fn lemma_mask_seq_len<T>(s: Seq<T>, keep: Seq<bool>)
    requires
        keep.len() == s.len(),
    ensures
        mask_seq(s, keep).len() == count_true(keep),
    decreases s.len(),
{
    if s.len() != 0 {
        lemma_mask_seq_len(s.skip(1), keep.skip(1));
    }
}

/// When exactly one mark is `false`, pruning removes exactly that element:
/// the result is the original sequence with position `i` taken out, so its
/// length falls by exactly one.
pub proof fn lemma_mask_seq_single_drop<T>(s: Seq<T>, keep: Seq<bool>, i: int)
    requires
        keep.len() == s.len(),
        0 <= i < s.len(),
        forall|j: int| 0 <= j < keep.len() ==> (keep[j] <==> j != i),
    ensures
        mask_seq(s, keep) == s.remove(i),
        mask_seq(s, keep).len() == s.len() - 1,
    decreases s.len(),
{
    if i == 0 {
        assert(forall|j: int| 0 <= j < keep.skip(1).len() ==> keep.skip(1)[j] == keep[j + 1]);
        lemma_mask_seq_all_kept(s.skip(1), keep.skip(1));
        assert(mask_seq(s, keep) =~= s.remove(0));
    } else {
        assert(forall|j: int| 0 <= j < keep.skip(1).len() ==> keep.skip(1)[j] == keep[j + 1]);
        lemma_mask_seq_single_drop(s.skip(1), keep.skip(1), i - 1);
        assert(mask_seq(s, keep) == seq![s[0]] + s.skip(1).remove(i - 1));
        assert(seq![s[0]] + s.skip(1).remove(i - 1) =~= s.remove(i));
    }
}

/// Pruning commutes with mapping a function over the elements.
pub proof fn lemma_mask_seq_map_values<A, B>(s: Seq<A>, keep: Seq<bool>, f: spec_fn(A) -> B)
    requires
        keep.len() == s.len(),
    ensures
        mask_seq(s.map_values(f), keep) == mask_seq(s, keep).map_values(f),
    decreases s.len(),
{
    if s.len() == 0 {
        assert(mask_seq(s.map_values(f), keep) =~= mask_seq(s, keep).map_values(f));
    } else {
        lemma_mask_seq_map_values(s.skip(1), keep.skip(1), f);
        assert(s.map_values(f).skip(1) =~= s.skip(1).map_values(f));
        assert(mask_seq(s.map_values(f), keep) =~= mask_seq(s, keep).map_values(f));
    }
}

/// Order preservation: the survivors of a prune are the marked elements, read
/// off at strictly increasing original positions.
pub proof fn lemma_mask_seq_indices<T>(s: Seq<T>, keep: Seq<bool>)
    requires
        keep.len() == s.len(),
    ensures
        mask_seq(s, keep).len() == kept_indices(keep).len(),
        forall|j: int|
            0 <= j < kept_indices(keep).len() ==> 0 <= #[trigger] kept_indices(keep)[j] < s.len()
                && keep[kept_indices(keep)[j]],
        forall|j: int|
            0 <= j < kept_indices(keep).len() ==> mask_seq(s, keep)[j] == s[kept_indices(keep)[j]],
        forall|j1: int, j2: int|
            0 <= j1 < j2 < kept_indices(keep).len() ==> #[trigger] kept_indices(keep)[j1]
                < #[trigger] kept_indices(keep)[j2],
    decreases s.len(),
{
    if s.len() != 0 {
        lemma_mask_seq_indices(s.skip(1), keep.skip(1));
    }
}

} // verus!
