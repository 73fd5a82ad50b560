use vstd::prelude::*;

use crate::decimal::{push_zero_padded, zero_pad5};

verus! {

/// A key/value pair as byte strings.
pub type PairView = (Seq<u8>, Seq<u8>);

/// The bytes of `"key_"`.
pub open spec fn key_prefix() -> Seq<u8> {
    seq![107u8, 101u8, 121u8, 95u8]
}

/// The bytes of `"value_"`.
pub open spec fn value_prefix() -> Seq<u8> {
    seq![118u8, 97u8, 108u8, 117u8, 101u8, 95u8]
}

/// The key produced at position `i`: `"key_"` followed by `i` padded to five digits.
pub open spec fn key_of(i: nat) -> Seq<u8> {
    key_prefix() + zero_pad5(i)
}

/// The value produced at position `i`: `"value_"` followed by `i` padded to five digits.
pub open spec fn value_of(i: nat) -> Seq<u8> {
    value_prefix() + zero_pad5(i)
}

/// The pair produced at position `i`.
pub open spec fn pair_of(i: nat) -> PairView {
    (key_of(i), value_of(i))
}

/// The pairs for the positions `from, from + 1, ..., to - 1`; empty when `to <= from`.
pub open spec fn pairs(from: nat, to: nat) -> Seq<PairView> {
    Seq::new(if from <= to { (to - from) as nat } else { 0 }, |j: int| pair_of((from + j) as nat))
}

/// What an optional owned pair holds.
pub open spec fn opt_view(r: Option<(Vec<u8>, Vec<u8>)>) -> Option<PairView> {
    match r {
        Some(kv) => Some((kv.0@, kv.1@)),
        None => None,
    }
}

/// One advance over a sequence of pending pairs: with nothing pending the result is
/// `None` and nothing changes; otherwise the first pending pair is returned and removed.
pub open spec fn advanced(before: Seq<PairView>, after: Seq<PairView>, r: Option<PairView>) -> bool {
    if before.len() == 0 {
        r is None && after == before
    } else {
        r == Some(before[0]) && after == before.drop_first()
    }
}

/// A generator over `from .. to` has exactly `to - from` pairs to hand out, and the
/// pair at position `i` is `("key_" + zero_pad5(i), "value_" + zero_pad5(i))`.
pub proof fn lemma_generator_pairs(from: nat, to: nat)
    requires
        from <= to,
    ensures
        pairs(from, to).len() == to - from,
        forall|i: nat|
            from <= i < to ==> #[trigger] pairs(from, to)[i - from] == (
                key_prefix() + zero_pad5(i),
                value_prefix() + zero_pad5(i),
            ),
{
    assert forall|i: nat| from <= i < to implies #[trigger] pairs(from, to)[i - from] == (
        key_prefix() + zero_pad5(i),
        value_prefix() + zero_pad5(i),
    ) by {
        assert(from + (i - from) == i);
    }
}

/// Once nothing is pending, every further advance returns `None` and leaves nothing pending.
pub proof fn lemma_exhausted_stays_exhausted(
    before: Seq<PairView>,
    after: Seq<PairView>,
    r: Option<PairView>,
)
    requires
        before.len() == 0,
        advanced(before, after, r),
    ensures
        r is None,
        after.len() == 0,
{
}

/// Two advances from the same pending pairs agree: whichever entry point made them,
/// they return the same pair and leave the same pairs pending.
pub proof fn lemma_advance_deterministic(
    before: Seq<PairView>,
    after1: Seq<PairView>,
    r1: Option<PairView>,
    after2: Seq<PairView>,
    r2: Option<PairView>,
)
    requires
        advanced(before, after1, r1),
        advanced(before, after2, r2),
    ensures
        r1 == r2,
        after1 == after2,
{
}

/// Two runs of advances that start from the same pending pairs return the same results
/// step for step, whichever entry point made each step. `ps[k]` is what the first run
/// had pending before its step `k` and `rs[k]` what that step returned; `qs` and `ts`
/// are the same for the second run.
pub proof fn lemma_same_pending_same_output(
    ps: Seq<Seq<PairView>>,
    rs: Seq<Option<PairView>>,
    qs: Seq<Seq<PairView>>,
    ts: Seq<Option<PairView>>,
)
    requires
        ps.len() == rs.len() + 1,
        qs.len() == ts.len() + 1,
        rs.len() == ts.len(),
        ps[0] == qs[0],
        forall|k: int| 0 <= k < rs.len() ==> advanced(ps[k], ps[k + 1], #[trigger] rs[k]),
        forall|k: int| 0 <= k < ts.len() ==> advanced(qs[k], qs[k + 1], #[trigger] ts[k]),
    ensures
        rs == ts,
        ps == qs,
    decreases rs.len(),
{
    if rs.len() > 0 {
        let n = rs.len() - 1;
        lemma_same_pending_same_output(ps.take(n + 1), rs.take(n), qs.take(n + 1), ts.take(n));
        assert(advanced(ps[n], ps[n + 1], rs[n]));
        assert(advanced(qs[n], qs[n + 1], ts[n]));
        assert(ps.take(n + 1)[n] == ps[n]);
        assert(qs.take(n + 1)[n] == qs[n]);
        lemma_advance_deterministic(ps[n], ps[n + 1], rs[n], qs[n + 1], ts[n]);
        assert forall|k: int| 0 <= k < rs.len() implies rs[k] == ts[k] by {
            if k < n {
                assert(rs.take(n)[k] == ts.take(n)[k]);
            }
        }
        assert forall|k: int| 0 <= k < ps.len() implies ps[k] == qs[k] by {
            if k <= n {
                assert(ps.take(n + 1)[k] == qs.take(n + 1)[k]);
            }
        }
        assert(rs =~= ts);
        assert(ps =~= qs);
    } else {
        assert(ps =~= qs);
    }
}

/// A source of key/value pairs, handed out one at a time.
pub trait KvIterator: Sized {
    /// The internal consistency of the source.
    spec fn wf(&self) -> bool;

    /// The pairs that the source has yet to hand out, in order.
    spec fn pending(&self) -> Seq<PairView>;

    /// Hands out the next pair, or `None` once the source is exhausted.
    fn next3(&mut self) -> (r: Option<(Vec<u8>, Vec<u8>)>)
        requires
            old(self).wf(),
        ensures
            final(self).wf(),
            advanced(old(self).pending(), final(self).pending(), opt_view(r)),
    ;
}

/// Advances any source through its trait, with the dispatch fixed at compile time.
pub fn advance<I: KvIterator>(it: &mut I) -> (r: Option<(Vec<u8>, Vec<u8>)>)
    requires
        old(it).wf(),
    ensures
        final(it).wf(),
        advanced(old(it).pending(), final(it).pending(), opt_view(r)),
{
    it.next3()
}

/// Drains a source: every pending pair, in order, after which nothing is pending.
pub fn collect_all<I: KvIterator>(it: &mut I) -> (r: Vec<(Vec<u8>, Vec<u8>)>)
    requires
        old(it).wf(),
    ensures
        final(it).wf(),
        final(it).pending().len() == 0,
        r@.map_values(|kv: (Vec<u8>, Vec<u8>)| (kv.0@, kv.1@)) == old(it).pending(),
    decreases old(it).pending().len(),
{
    let mut out: Vec<(Vec<u8>, Vec<u8>)> = Vec::new();
    loop
        invariant
            it.wf(),
            out@.map_values(|kv: (Vec<u8>, Vec<u8>)| (kv.0@, kv.1@)) + it.pending()
                == old(it).pending(),
        decreases it.pending().len(),
    {
        let ghost before = it.pending();
        match it.next3() {
            Some(kv) => {
                let ghost prev = out@;
                out.push(kv);
                proof {
                    assert(out@.map_values(|kv: (Vec<u8>, Vec<u8>)| (kv.0@, kv.1@))
                        =~= prev.map_values(|kv: (Vec<u8>, Vec<u8>)| (kv.0@, kv.1@)).push(
                        before[0],
                    ));
                    assert(out@.map_values(|kv: (Vec<u8>, Vec<u8>)| (kv.0@, kv.1@)) + it.pending()
                        =~= prev.map_values(|kv: (Vec<u8>, Vec<u8>)| (kv.0@, kv.1@)) + before);
                }
            },
            None => {
                proof {
                    assert(out@.map_values(|kv: (Vec<u8>, Vec<u8>)| (kv.0@, kv.1@))
                        =~= old(it).pending());
                }
                return out;
            },
        }
    }
}

/// Copies `src` into `dst`, keeping the allocation of `dst`.
pub fn refill(dst: &mut Vec<u8>, src: &[u8])
    ensures
        final(dst)@ == src@,
{
    dst.clear();
    let mut i: usize = 0;
    while i < src.len()
        invariant
            i <= src@.len(),
            dst@ == src@.subrange(0, i as int),
        decreases src@.len() - i,
    {
        dst.push(src[i]);
        i = i + 1;
        proof {
            assert(dst@ =~= src@.subrange(0, i as int));
        }
    }
    proof {
        assert(dst@ =~= src@);
    }
}

/// A fresh copy of `src`.
pub fn copy_bytes(src: &[u8]) -> (r: Vec<u8>)
    ensures
        r@ == src@,
{
    let mut r: Vec<u8> = Vec::new();
    refill(&mut r, src);
    r
}

/// Generates `("key_" + i, "value_" + i)`, `i` padded to five digits, for each `i`
/// from a lower bound up to (not including) an upper bound.
pub struct TestIterator {
    idx: usize,
    to_idx: usize,
    key: Vec<u8>,
    value: Vec<u8>,
}

impl TestIterator {
    /// The position of the next pair.
    pub closed spec fn cursor(&self) -> nat {
        self.idx as nat
    }

    /// The exclusive upper bound of the positions.
    pub closed spec fn bound(&self) -> nat {
        self.to_idx as nat
    }

    /// A generator for the positions `from_idx .. to_idx`.
    pub fn new(from_idx: usize, to_idx: usize) -> (r: Self)
        ensures
            r.cursor() == from_idx,
            r.bound() == to_idx,
            r.pending() == pairs(from_idx as nat, to_idx as nat),
    {
        TestIterator { idx: from_idx, to_idx, key: Vec::new(), value: Vec::new() }
    }

    /// Formats the pair at the cursor into the buffers and moves the cursor on.
    fn step(&mut self) -> (r: Option<(Vec<u8>, Vec<u8>)>)
        ensures
            final(self).bound() == old(self).bound(),
            old(self).cursor() < old(self).bound() ==> final(self).cursor() == old(self).cursor() + 1,
            old(self).cursor() >= old(self).bound() ==> final(self).cursor() == old(self).cursor(),
            advanced(old(self).pending(), final(self).pending(), opt_view(r)),
    {
        if self.idx >= self.to_idx {
            return None;
        }
        self.key.clear();
        self.key.push(107u8);
        self.key.push(101u8);
        self.key.push(121u8);
        self.key.push(95u8);
        push_zero_padded(self.idx, 5, &mut self.key);

        self.value.clear();
        self.value.push(118u8);
        self.value.push(97u8);
        self.value.push(108u8);
        self.value.push(117u8);
        self.value.push(101u8);
        self.value.push(95u8);
        push_zero_padded(self.idx, 5, &mut self.value);

        self.idx = self.idx + 1;
        let k = copy_bytes(self.key.as_slice());
        let v = copy_bytes(self.value.as_slice());
        proof {
            let before = old(self).pending();
            assert(k@ =~= key_of(old(self).idx as nat));
            assert(v@ =~= value_of(old(self).idx as nat));
            assert(self.pending() =~= before.drop_first());
        }
        Some((k, v))
    }

    /// Advances by a direct call.
    pub fn next1(&mut self) -> (r: Option<(Vec<u8>, Vec<u8>)>)
        ensures
            final(self).bound() == old(self).bound(),
            old(self).cursor() < old(self).bound() ==> final(self).cursor() == old(self).cursor() + 1,
            old(self).cursor() >= old(self).bound() ==> final(self).cursor() == old(self).cursor(),
            advanced(old(self).pending(), final(self).pending(), opt_view(r)),
    {
        self.step()
    }

    /// Advances through the trait, by way of a generic function.
    pub fn next2(&mut self) -> (r: Option<(Vec<u8>, Vec<u8>)>)
        ensures
            advanced(old(self).pending(), final(self).pending(), opt_view(r)),
    {
        advance(self)
    }
}

impl KvIterator for TestIterator {
    open spec fn wf(&self) -> bool {
        true
    }

    closed spec fn pending(&self) -> Seq<PairView> {
        pairs(self.idx as nat, self.to_idx as nat)
    }

    fn next3(&mut self) -> (r: Option<(Vec<u8>, Vec<u8>)>) {
        self.step()
    }
}

} // verus!
