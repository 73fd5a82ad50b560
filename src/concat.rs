use vstd::prelude::*;

use crate::kv::{advanced, opt_view, refill, copy_bytes, KvIterator, PairView};

verus! {

/// The pending pairs of `parts[i]`, then of `parts[i + 1]`, and so on to the end.
pub open spec fn flat_from(parts: Seq<Seq<PairView>>, i: int) -> Seq<PairView>
    decreases parts.len() - i,
{
    if i < 0 || i >= parts.len() {
        Seq::empty()
    } else {
        parts[i] + flat_from(parts, i + 1)
    }
}

/// The pending pairs of each source in `iters`, in order.
pub open spec fn pendings<I: KvIterator>(iters: Seq<I>) -> Seq<Seq<PairView>> {
    iters.map_values(|it: I| it.pending())
}

/// Hands out the pairs of several sources one after the other: all of the first,
/// then all of the second, and so on, skipping sources that have none.
pub struct ConcatIterator<I: KvIterator> {
    iters: Vec<I>,
    key: Vec<u8>,
    value: Vec<u8>,
    current_idx: usize,
}

impl<I: KvIterator> ConcatIterator<I> {
    /// The index of the source that is drawn from next.
    pub closed spec fn current(&self) -> nat {
        self.current_idx as nat
    }

    /// The number of sources.
    pub closed spec fn len(&self) -> nat {
        self.iters@.len()
    }

    /// A concatenation of `iters`, drawn from in order.
    pub fn new(iters: Vec<I>) -> (r: Self)
        requires
            forall|i: int| 0 <= i < iters@.len() ==> #[trigger] iters@[i].wf(),
        ensures
            r.wf(),
            r.current() == 0,
            r.len() == iters@.len(),
            r.pending() == pendings(iters@).flatten(),
    {
        proof {
            lemma_flat_from_is_flatten(pendings(iters@), 0);
            assert(pendings(iters@).subrange(0, pendings(iters@).len() as int) =~= pendings(iters@));
        }
        ConcatIterator { iters, key: Vec::new(), value: Vec::new(), current_idx: 0 }
    }
}

impl<I: KvIterator> KvIterator for ConcatIterator<I> {
    closed spec fn wf(&self) -> bool {
        &&& self.current_idx <= self.iters@.len()
        &&& forall|i: int| 0 <= i < self.iters@.len() ==> #[trigger] self.iters@[i].wf()
    }

    closed spec fn pending(&self) -> Seq<PairView> {
        flat_from(pendings(self.iters@), self.current_idx as int)
    }

    fn next3(&mut self) -> (r: Option<(Vec<u8>, Vec<u8>)>) {
        loop
            invariant
                self.wf(),
                self.pending() == old(self).pending(),
            decreases self.iters@.len() - self.current_idx,
        {
            if self.current_idx >= self.iters.len() {
                return None;
            }
            let ghost before = self.iters@;
            let ghost c = self.current_idx as int;
            let next = self.iters[self.current_idx].next3();
            proof {
                assert(self.iters@ == before.update(c, self.iters@[c]));
                assert forall|i: int| 0 <= i < self.iters@.len() implies #[trigger] self.iters@[i].wf() by {
                    if i != c {
                        assert(self.iters@[i] == before[i]);
                    }
                }
                lemma_flat_from_update(pendings(before), pendings(self.iters@), c);
            }
            match next {
                Some(kv) => {
                    refill(&mut self.key, kv.0.as_slice());
                    refill(&mut self.value, kv.1.as_slice());
                    let k = copy_bytes(self.key.as_slice());
                    let v = copy_bytes(self.value.as_slice());
                    proof {
                        assert(pendings(before)[c] =~= before[c].pending());
                        assert(pendings(self.iters@)[c] =~= self.iters@[c].pending());
                        assert(old(self).pending() == before[c].pending() + flat_from(pendings(before), c + 1));
                        assert(self.pending() == self.iters@[c].pending() + flat_from(pendings(self.iters@), c + 1));
                        assert(self.pending() =~= old(self).pending().drop_first());
                    }
                    return Some((k, v));
                },
                None => {
                    proof {
                        assert(pendings(before)[c] =~= before[c].pending());
                        assert(pendings(self.iters@)[c] =~= self.iters@[c].pending());
                        lemma_concat_skips_empty(pendings(self.iters@), c);
                    }
                    self.current_idx = self.current_idx + 1;
                },
            }
        }
    }
}

/// The flattening from `i` on is the standard flattening of the parts from `i` on.
pub proof fn lemma_flat_from_is_flatten(parts: Seq<Seq<PairView>>, i: int)
    requires
        0 <= i <= parts.len(),
    ensures
        flat_from(parts, i) == parts.subrange(i, parts.len() as int).flatten(),
    decreases parts.len() - i,
{
    let rest = parts.subrange(i, parts.len() as int);
    if i < parts.len() {
        lemma_flat_from_is_flatten(parts, i + 1);
        assert(rest.first() == parts[i]);
        assert(rest.drop_first() =~= parts.subrange(i + 1, parts.len() as int));
    } else {
        assert(rest.len() == 0);
    }
}

/// A source with no pairs adds nothing: the pairs pending from it on are those pending
/// from the next source on.
pub proof fn lemma_concat_skips_empty(parts: Seq<Seq<PairView>>, c: int)
    requires
        0 <= c < parts.len(),
        parts[c].len() == 0,
    ensures
        flat_from(parts, c) == flat_from(parts, c + 1),
{
    assert(parts[c] + flat_from(parts, c + 1) =~= flat_from(parts, c + 1));
}

/// A concatenation of no sources has nothing pending: its first advance returns `None`.
pub proof fn lemma_no_sources_nothing_pending(parts: Seq<Seq<PairView>>)
    requires
        parts.len() == 0,
    ensures
        parts.flatten().len() == 0,
        forall|after: Seq<PairView>, r: Option<PairView>|
            advanced(parts.flatten(), after, r) ==> r is None && after.len() == 0,
{
}

/// Changing the part at `c` changes only that part of the flattening from `c` on;
/// the flattening from `c + 1` is unaffected.
proof fn lemma_flat_from_update(a: Seq<Seq<PairView>>, b: Seq<Seq<PairView>>, c: int)
    requires
        0 <= c < a.len(),
        a.len() == b.len(),
        forall|i: int| 0 <= i < a.len() && i != c ==> a[i] == b[i],
    ensures
        flat_from(a, c + 1) == flat_from(b, c + 1),
        flat_from(a, c) == a[c] + flat_from(a, c + 1),
        flat_from(b, c) == b[c] + flat_from(b, c + 1),
{
    lemma_flat_from_agree(a, b, c + 1);
}

proof fn lemma_flat_from_agree(a: Seq<Seq<PairView>>, b: Seq<Seq<PairView>>, k: int)
    requires
        a.len() == b.len(),
        0 <= k,
        forall|i: int| k <= i < a.len() ==> a[i] == b[i],
    ensures
        flat_from(a, k) == flat_from(b, k),
    decreases a.len() - k,
{
    if k < a.len() {
        lemma_flat_from_agree(a, b, k + 1);
    }
}

} // verus!
