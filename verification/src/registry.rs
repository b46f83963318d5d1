//! The callback registry: an ordered collection of entries, each pairing a
//! stored closure with the observer side of its handle's liveness cell.

use vstd::prelude::*;
use crate::liveness::Handle;
use crate::liveness::LivenessObserver;
use crate::liveness::liveness_pair;
use crate::prune::mask_seq;
use crate::prune::lemma_mask_seq_take_step;
use crate::prune::lemma_mask_seq_len_le;
use crate::prune::lemma_mask_seq_indices;
use crate::prune::lemma_mask_seq_map_values;
use crate::prune::kept_indices;

verus! {

/// One registered subscription: the stored closure and the observer that
/// answers whether the paired handle is still alive.
struct Callback<F> {
    alive: LivenessObserver,
    closure: F,
}

impl<F> Callback<F> {
    /// Whether some clone of the paired handle is still alive. The answer
    /// depends on what the caller has dropped so far, so nothing is promised
    /// of it.
    fn is_alive(&self) -> bool {
        self.alive.is_alive()
    }

    /// Invokes the stored closure with `args`.
    fn call<Args>(&self, args: Args) where F: Fn(Args) -> ()
        requires
            call_requires(self.closure, (args,)),
        ensures
            call_ensures(self.closure, (args,), ()),
    {
        (self.closure)(args)
    }
}

/// Pairs a closure with a fresh liveness cell: the handle for the caller and
/// the entry for the registry.
fn wrap<F>(callback: F) -> (pair: (Handle, Callback<F>))
    ensures
        pair.1.closure == callback,
{
    let (handle, observer) = liveness_pair();
    (handle, Callback { alive: observer, closure: callback })
}

/// An ordered collection of registered callbacks, all accepting the same
/// argument type. Viewed as the sequence of stored closures in registration
/// order.
pub struct CallbackManager<F> {
    callbacks: Vec<Callback<F>>,
}

impl<F> View for CallbackManager<F> {
    type V = Seq<F>;

    closed spec fn view(&self) -> Seq<F> {
        self.callbacks@.map_values(|cb: Callback<F>| cb.closure)
    }
}

impl<F> Default for CallbackManager<F> {
    /// The empty registry.
    fn default() -> (manager: Self)
        ensures
            manager@ == Seq::<F>::empty(),
    {
        let manager = CallbackManager { callbacks: Vec::new() };
        proof {
            assert(manager@ =~= Seq::<F>::empty());
        }
        manager
    }
}

impl<F> CallbackManager<F> {
    /// Registers `callback` and returns the fresh handle paired with its
    /// entry: the entry is appended behind the existing ones and stays
    /// eligible for invocation until every clone of the handle is dropped.
    /// Registration always succeeds.
    pub fn add(&mut self, callback: F) -> (handle: Handle)
        ensures
            final(self)@ == old(self)@.push(callback),
    {
        let (handle, entry) = wrap(callback);
        self.callbacks.push(entry);
        proof {
            assert(self@ =~= old(self)@.push(callback));
        }
        handle
    }

    /// The number of entries currently registered, pruned or not yet pruned
    /// dead ones included.
    pub fn len(&self) -> (n: usize)
        ensures
            n == self@.len(),
    {
        self.callbacks.len()
    }

    /// Reads every entry's liveness once, in order: one mark per entry.
    fn liveness_marks(&self) -> (keep: Vec<bool>)
        ensures
            keep@.len() == self@.len(),
    {
        let mut keep: Vec<bool> = Vec::new();
        let mut i: usize = 0;
        while i < self.callbacks.len()
            invariant
                i <= self.callbacks@.len(),
                keep@.len() == i as int,
            decreases self.callbacks@.len() - i,
        {
            let alive = self.callbacks[i].is_alive();
            keep.push(alive);
            i = i + 1;
        }
        keep
    }

    /// Removes exactly the entries whose mark is `false`, keeping the others
    /// in their original order: a stable filter.
    fn retain_marked(&mut self, keep: &Vec<bool>)
        requires
            keep@.len() == old(self)@.len(),
        ensures
            final(self)@ == mask_seq(old(self)@, keep@),
    {
        let ghost entries0 = self.callbacks@;
        let mut kept: Vec<Callback<F>> = Vec::new();
        let mut i: usize = 0;
        while i < keep.len()
            invariant
                i <= keep@.len(),
                keep@.len() == entries0.len(),
                self.callbacks@ == entries0.skip(i as int),
                kept@ == mask_seq(entries0.take(i as int), keep@.take(i as int)),
            decreases keep@.len() - i,
        {
            let entry = self.callbacks.remove(0);
            proof {
                assert(entries0.skip(i as int).remove(0) =~= entries0.skip(i as int + 1));
                lemma_mask_seq_take_step(entries0, keep@, i as int);
            }
            if keep[i] {
                kept.push(entry);
            }
            i = i + 1;
        }
        proof {
            assert(entries0.take(entries0.len() as int) =~= entries0);
            assert(keep@.take(keep@.len() as int) =~= keep@);
        }
        self.callbacks = kept;
        proof {
            lemma_mask_seq_map_values(entries0, keep@, |cb: Callback<F>| cb.closure);
        }
    }

    /// Invokes every entry's closure once, in order, each with its own copy
    /// of `args`.
    fn invoke_all<Args: Copy>(&self, args: Args) where F: Fn(Args) -> ()
        requires
            forall|i: int| 0 <= i < self@.len() ==> call_requires(#[trigger] self@[i], (args,)),
        ensures
            forall|i: int| 0 <= i < self@.len() ==> call_ensures(#[trigger] self@[i], (args,), ()),
    {
        let mut j: usize = 0;
        while j < self.callbacks.len()
            invariant
                j <= self.callbacks@.len(),
                forall|i: int| 0 <= i < self@.len() ==> call_requires(#[trigger] self@[i], (args,)),
                forall|i: int| 0 <= i < j ==> call_ensures(#[trigger] self@[i], (args,), ()),
            decreases self.callbacks@.len() - j,
        {
            proof {
                assert(self@[j as int] == self.callbacks@[j as int].closure);
            }
            self.callbacks[j].call(args);
            j = j + 1;
        }
    }

    /// Prunes, then invokes: first removes every entry whose handle has been
    /// dropped (its liveness reading is `false`), keeping the survivors in
    /// registration order; then invokes each surviving closure once, in that
    /// order, with its own copy of `args`. Which entries survive depends on
    /// the liveness readings, so the contract promises the survivors to be
    /// some masked subsequence of the old entries; the mask itself is decided
    /// at run time by which handles the caller has dropped.
    ///
    /// Reentrant invocation cannot arise: `run_all` borrows the registry
    /// exclusively, so no stored closure can reach it during the pass.
    pub fn run_all<Args: Copy>(&mut self, args: Args) where F: Fn(Args) -> ()
        requires
            forall|i: int| 0 <= i < old(self)@.len() ==> call_requires(
                #[trigger] old(self)@[i],
                (args,),
            ),
        ensures
            exists|keep: Seq<bool>| keep.len() == old(self)@.len() && final(self)@ == mask_seq(
                old(self)@,
                keep,
            ),
            final(self)@.len() <= old(self)@.len(),
            forall|i: int| 0 <= i < final(self)@.len() ==> call_ensures(
                #[trigger] final(self)@[i],
                (args,),
                (),
            ),
    {
        let keep = self.liveness_marks();
        self.retain_marked(&keep);
        proof {
            lemma_mask_seq_len_le(old(self)@, keep@);
            lemma_mask_seq_indices(old(self)@, keep@);
            assert forall|j: int| 0 <= j < self@.len() implies call_requires(
                #[trigger] self@[j],
                (args,),
            ) by {
                let k = kept_indices(keep@)[j];
                assert(0 <= k < old(self)@.len());
                assert(self@[j] == old(self)@[k]);
                assert(call_requires(old(self)@[k], (args,)));
            }
        }
        self.invoke_all(args);
    }
}

} // verus!
