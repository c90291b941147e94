//! Putting processed pages back in page order before they are packaged.
//!
//! Pages leave the image pipeline in whatever order they finish. Each one is
//! held, in a map keyed by page index, until every page before it has been
//! handed on; a volume is complete when as many pages came back as were sent.
use vstd::prelude::*;
use std::collections::BTreeMap;
use vstd::laws_cmp::obeys_cmp;
use vstd::std_specs::btree::{increasing_seq, spec_keys_iter};
use vstd::std_specs::cmp::OrdSpec;
use vstd::std_specs::iter::IteratorSpec;
use crate::error::ConvertError;

verus! {

broadcast use vstd::std_specs::btree::group_btree_axioms, vstd::laws_cmp::group_laws_cmp;

/// Whether a sequence of page indices strictly increases.
pub open spec fn strictly_increasing(keys: Seq<u32>) -> bool {
    forall|i: int, j: int| 0 <= i < j < keys.len() ==> keys[i] < keys[j]
}

/// The page indices of a set, smallest first.
pub open spec fn key_order(keys: Set<u32>) -> Seq<u32> {
    choose|ks: Seq<u32>| strictly_increasing(ks) && ks.to_set() == keys
}

/// The pages of a map in increasing page order.
pub open spec fn in_key_order<T>(m: Map<u32, T>) -> Seq<T> {
    key_order(m.dom()).map_values(|k: u32| m[k])
}

/// Whether an association list has an entry for `k`.
pub open spec fn has_key<T>(s: Seq<(u32, T)>, k: u32) -> bool {
    exists|i: int| 0 <= i < s.len() && (#[trigger] s[i]).0 == k
}

/// How many consecutive keys starting at `from` the map holds.
pub open spec fn run_len<T>(m: Map<u32, T>, from: int) -> nat
    decreases u32::MAX + 1 - from,
{
    if from < 0 || from > u32::MAX || !m.dom().contains(from as u32) {
        0
    } else {
        1 + run_len(m, from + 1)
    }
}

/// The map without the keys `from .. from + len`.
pub open spec fn without_run<T>(m: Map<u32, T>, from: int, len: int) -> Map<u32, T> {
    m.remove_keys(Set::new(|k: u32| from <= k < from + len))
}

/// Pages waiting for the pages before them, and the next page to hand on.
pub struct PageReorder<T> {
    pending: BTreeMap<u32, T>,
    next_page: u32,
}

impl<T> PageReorder<T> {
    /// The waiting pages, by page index.
    pub closed spec fn waiting(&self) -> Map<u32, T> {
        self.pending@
    }

    /// The index of the next page to hand on.
    pub closed spec fn next(&self) -> u32 {
        self.next_page
    }

    /// Nothing waiting, and page 0 is the next to hand on.
    pub fn new() -> (reorder: Self)
        ensures
            reorder.waiting() == Map::<u32, T>::empty(),
            reorder.next() == 0,
    {
        PageReorder { pending: BTreeMap::new(), next_page: 0 }
    }

    /// Takes in the page with index `index` (replacing any page already
    /// waiting under that index) and returns the pages that can now be handed
    /// on: the run of consecutive indices starting at the next one.
    pub fn accept(&mut self, index: u32, item: T) -> (ready: Vec<T>)
        requires
            run_len(old(self).waiting().insert(index, item), old(self).next() as int) + old(self).next()
                <= u32::MAX,
        ensures
            ({
                let m = old(self).waiting().insert(index, item);
                let n = old(self).next() as int;
                &&& ready@.len() == run_len(m, n)
                &&& forall|i: int| 0 <= i < ready@.len() ==> #[trigger] ready@[i] == m[(n + i) as u32]
                &&& final(self).next() == n + ready@.len()
                &&& final(self).waiting() == without_run(m, n, ready@.len() as int)
            }),
    {
        let _replaced = self.pending.insert(index, item);
        let ghost m = self.waiting();
        let ghost n = self.next_page as int;
        let mut ready: Vec<T> = Vec::new();
        loop
            invariant
                n <= self.next_page,
                self.next_page == n + ready@.len(),
                run_len(m, n) + n <= u32::MAX,
                run_len(m, n) == ready@.len() + run_len(m, self.next_page as int),
                forall|i: int| 0 <= i < ready@.len() ==> #[trigger] ready@[i] == m[(n + i) as u32],
                self.waiting() == without_run(m, n, ready@.len() as int),
            ensures
                self.next_page == n + ready@.len(),
                run_len(m, n) == ready@.len(),
                forall|i: int| 0 <= i < ready@.len() ==> #[trigger] ready@[i] == m[(n + i) as u32],
                self.waiting() == without_run(m, n, ready@.len() as int),
            decreases run_len(m, self.next_page as int),
        {
            let next = self.next_page;
            match self.pending.remove(&next) {
                None => {
                    proof {
                        assert(!m.dom().contains(next));
                    }
                    break;
                },
                Some(page) => {
                    proof {
                        assert(m.dom().contains(next));
                        assert(page == m[next]);
                        assert(self.pending@ =~= without_run(m, n, ready@.len() + 1int));
                    }
                    ready.push(page);
                    self.next_page = next + 1;
                    proof {
                        assert(forall|i: int| 0 <= i < ready@.len() ==> #[trigger] ready@[i] == m[(n + i) as u32]);
                    }
                },
            }
        }
        ready
    }

    /// Hands on every waiting page, in increasing page order.
    pub fn into_waiting(self) -> (pages: Vec<T>)
        ensures
            pages@ == in_key_order(self.waiting()),
    {
        let ghost m = self.pending@;
        let keys = sorted_keys(&self.pending);
        let mut pending = self.pending;
        let mut pages: Vec<T> = Vec::new();
        let mut i: usize = 0;
        while i < keys.len()
            invariant
                strictly_increasing(keys@),
                keys@.to_set() == m.dom(),
                i <= keys@.len(),
                pages@ == keys@.take(i as int).map_values(|k: u32| m[k]),
                pending@ == m.remove_keys(keys@.take(i as int).to_set()),
            decreases keys@.len() - i,
        {
            let k = keys[i];
            proof {
                assert(keys@.to_set().contains(keys@[i as int]));
                assert(!keys@.take(i as int).to_set().contains(k)) by {
                    if keys@.take(i as int).to_set().contains(k) {
                        let j = choose|j: int| 0 <= j < i && keys@.take(i as int)[j] == k;
                        assert(keys@[j] < keys@[i as int]);
                    }
                }
            }
            let found = pending.remove(&k);
            match found {
                Some(page) => {
                    pages.push(page);
                },
                None => {
                    proof {
                        assert(false);
                    }
                },
            }
            proof {
                assert(keys@.take(i + 1int) == keys@.take(i as int).push(k));
                let before = keys@.take(i as int);
                let after = keys@.take(i + 1int);
                assert forall|x: u32| after.to_set().contains(x) == before.to_set().insert(k).contains(x) by {
                    if after.to_set().contains(x) {
                        let j = choose|j: int| 0 <= j < after.len() && after[j] == x;
                        if j < i {
                            assert(before[j] == x);
                        }
                    }
                    if before.to_set().contains(x) {
                        let j = choose|j: int| 0 <= j < before.len() && before[j] == x;
                        assert(after[j] == x);
                    }
                    if x == k {
                        assert(after[i as int] == x);
                    }
                }
                assert(after.to_set() =~= before.to_set().insert(k));
                assert(pending@ =~= m.remove_keys(keys@.take(i + 1int).to_set()));
                assert(pages@ =~= keys@.take(i + 1int).map_values(|k: u32| m[k]));
            }
            i = i + 1;
        }
        proof {
            assert(keys@.take(keys@.len() as int) == keys@);
            lemma_key_order(keys@, m.dom());
        }
        pages
    }
}

/// The keys of a map, smallest first.
fn sorted_keys<T>(m: &BTreeMap<u32, T>) -> (keys: Vec<u32>)
    ensures
        keys@.to_set() == m@.dom(),
        strictly_increasing(keys@),
{
    let mut keys: Vec<u32> = Vec::new();
    let ghost all = spec_keys_iter(m).remaining().unref();
    for k in it: m.keys()
        invariant
            it.seq().unref() == all,
            keys@ == all.take(it.index() as int),
    {
        keys.push(*k);
        proof {
            assert(all.take(it.index() as int + 1) =~= keys@);
        }
    }
    proof {
        assert(all.take(all.len() as int) =~= all);
        lemma_increasing_keys(spec_keys_iter(m).remaining());
    }
    keys
}

/// A volume's pages as they come back from the image pipeline: counted,
/// and held until they can be packaged in page order.
pub struct VolumeAssembly<T> {
    reorder: PageReorder<T>,
    received: u32,
    total: u32,
    volume_num: u32,
}

impl<T> VolumeAssembly<T> {
    /// The reorder buffer.
    pub closed spec fn buffer(&self) -> PageReorder<T> {
        self.reorder
    }

    /// How many pages came back so far.
    pub closed spec fn received(&self) -> u32 {
        self.received
    }

    /// How many pages were sent.
    pub closed spec fn total(&self) -> u32 {
        self.total
    }

    /// The volume being assembled.
    pub closed spec fn volume_num(&self) -> u32 {
        self.volume_num
    }

    /// Nothing received yet for a volume of `total` pages.
    pub fn new(volume_num: u32, total: u32) -> (assembly: Self)
        ensures
            assembly.buffer().waiting() == Map::<u32, T>::empty(),
            assembly.buffer().next() == 0,
            assembly.received() == 0,
            assembly.total() == total,
            assembly.volume_num() == volume_num,
    {
        VolumeAssembly { reorder: PageReorder::new(), received: 0, total, volume_num }
    }

    /// One page came back from the pipeline. A cancelled run stops with
    /// `Cancelled`; otherwise the page is counted and the pages that can now
    /// be packaged are returned, in page order.
    pub fn on_page(&mut self, cancelled: bool, index: u32, item: T) -> (result: Result<Vec<T>, ConvertError>)
        requires
            cancelled || old(self).received() < u32::MAX,
            cancelled || run_len(old(self).buffer().waiting().insert(index, item), old(self).buffer().next() as int)
                + old(self).buffer().next() <= u32::MAX,
        ensures
            final(self).total() == old(self).total(),
            final(self).volume_num() == old(self).volume_num(),
            cancelled ==> (result matches Err(ConvertError::Cancelled) && *final(self) == *old(self)),
            !cancelled ==> ({
                let m = old(self).buffer().waiting().insert(index, item);
                let n = old(self).buffer().next() as int;
                &&& result is Ok
                &&& final(self).received() == old(self).received() + 1
                &&& result->Ok_0@.len() == run_len(m, n)
                &&& forall|i: int| 0 <= i < result->Ok_0@.len() ==> #[trigger] result->Ok_0@[i] == m[(n + i) as u32]
                &&& final(self).buffer().next() == n + result->Ok_0@.len()
                &&& final(self).buffer().waiting() == without_run(m, n, result->Ok_0@.len() as int)
            }),
    {
        if cancelled {
            return Err(ConvertError::Cancelled);
        }
        self.received = self.received + 1;
        let ready = self.reorder.accept(index, item);
        Ok(ready)
    }

    /// The pipeline is done. A cancelled run stops with `Cancelled`; a volume
    /// that got back fewer or more pages than it sent is incomplete; otherwise
    /// the pages still waiting are packaged, in page order.
    pub fn finish(self, cancelled: bool) -> (result: Result<Vec<T>, ConvertError>)
        ensures
            cancelled ==> result matches Err(ConvertError::Cancelled),
            !cancelled && self.received() != self.total() ==> (result matches Err(
                ConvertError::IncompleteVolume { volume_num, expected, actual },
            ) && volume_num == self.volume_num() && expected == self.total() && actual == self.received()),
            !cancelled && self.received() == self.total() ==> result is Ok && result->Ok_0@
                == in_key_order(self.buffer().waiting()),
    {
        if cancelled {
            return Err(ConvertError::Cancelled);
        }
        if self.received != self.total {
            return Err(
                ConvertError::IncompleteVolume {
                    volume_num: self.volume_num,
                    expected: self.total,
                    actual: self.received,
                },
            );
        }
        Ok(self.reorder.into_waiting())
    }
}


/// Of two positions in an increasing sequence, the earlier holds the lesser item.
proof fn lemma_increasing_at<K: Ord>(s: Seq<K>, i: int, j: int)
    requires
        obeys_cmp::<K>(),
        increasing_seq(s),
        0 <= i < j < s.len(),
    ensures
        s[i].cmp_spec(&s[j]) is Less,
{
}

/// The keys that a map's key iterator yields strictly increase.
proof fn lemma_increasing_keys(r: Seq<&u32>)
    requires
        increasing_seq(r),
    ensures
        forall|i: int, j: int| 0 <= i < j < r.len() ==> *r[i] < *r[j],
{
    assert forall|i: int, j: int| 0 <= i < j < r.len() implies *r[i] < *r[j] by {
        assert(obeys_cmp::<&u32>());
        lemma_increasing_at(r, i, j);
    }
}

/// Two strictly increasing sequences with the same elements are equal.
proof fn lemma_increasing_unique(a: Seq<u32>, b: Seq<u32>)
    requires
        strictly_increasing(a),
        strictly_increasing(b),
        a.to_set() == b.to_set(),
    ensures
        a == b,
    decreases a.len(),
{
    if a.len() == 0 || b.len() == 0 {
        if a.len() > 0 {
            assert(a.to_set().contains(a[0]));
        }
        if b.len() > 0 {
            assert(b.to_set().contains(b[0]));
        }
        assert(a =~= b);
    } else {
        assert(b.to_set().contains(a[0]));
        assert(a.to_set().contains(b[0]));
        let p = choose|p: int| 0 <= p < b.len() && b[p] == a[0];
        let q = choose|q: int| 0 <= q < a.len() && a[q] == b[0];
        if p > 0 {
            assert(b[0] < b[p]);
        }
        if q > 0 {
            assert(a[0] < a[q]);
        }
        assert(a[0] == b[0]);
        let ra = a.drop_first();
        let rb = b.drop_first();
        assert(ra.to_set() =~= rb.to_set()) by {
            assert forall|x: u32| ra.to_set().contains(x) implies rb.to_set().contains(x) by {
                let i = choose|i: int| 0 <= i < ra.len() && ra[i] == x;
                assert(a[i + 1] == x);
                assert(a[0] < x);
                assert(b.to_set().contains(x));
                let j = choose|j: int| 0 <= j < b.len() && b[j] == x;
                assert(j != 0);
                assert(rb[j - 1] == x);
            }
            assert forall|x: u32| rb.to_set().contains(x) implies ra.to_set().contains(x) by {
                let i = choose|i: int| 0 <= i < rb.len() && rb[i] == x;
                assert(b[i + 1] == x);
                assert(b[0] < x);
                assert(a.to_set().contains(x));
                let j = choose|j: int| 0 <= j < a.len() && a[j] == x;
                assert(j != 0);
                assert(ra[j - 1] == x);
            }
        }
        lemma_increasing_unique(ra, rb);
        assert(a =~= b) by {
            assert forall|i: int| 0 <= i < a.len() implies a[i] == b[i] by {
                if i > 0 {
                    assert(a[i] == ra[i - 1]);
                    assert(b[i] == rb[i - 1]);
                }
            }
        }
    }
}

/// A strictly increasing sequence with the elements of a set is that set's key order.
proof fn lemma_key_order(ks: Seq<u32>, keys: Set<u32>)
    requires
        strictly_increasing(ks),
        ks.to_set() == keys,
    ensures
        key_order(keys) == ks,
{
    let c = key_order(keys);
    assert(strictly_increasing(c) && c.to_set() == keys);
    lemma_increasing_unique(c, ks);
}

/// What feeding pages one at a time into an empty reorder buffer whose next
/// page is 0 hands on, what stays waiting, and the index of the next page:
/// each step is what `PageReorder::accept` does.
pub open spec fn fed<T>(arrivals: Seq<(u32, T)>) -> (Seq<T>, Map<u32, T>, int)
    decreases arrivals.len(),
{
    if arrivals.len() == 0 {
        (Seq::empty(), Map::empty(), 0)
    } else {
        let (out, m, n) = fed(arrivals.drop_last());
        let m2 = m.insert(arrivals.last().0, arrivals.last().1);
        let r = run_len(m2, n);
        (out + Seq::new(r, |i: int| m2[(n + i) as u32]), without_run(m2, n, r as int), n + r)
    }
}

/// Every page index below the count arrives exactly once, and no other.
pub open spec fn each_page_once<T>(arrivals: Seq<(u32, T)>) -> bool {
    &&& arrivals.len() <= u32::MAX
    &&& forall|i: int| 0 <= i < arrivals.len() ==> (#[trigger] arrivals[i]).0 < arrivals.len()
    &&& forall|i: int, j: int|
        0 <= i < j < arrivals.len() ==> (#[trigger] arrivals[i]).0 != (#[trigger] arrivals[j]).0
    &&& forall|k: u32| k < arrivals.len() ==> #[trigger] has_key(arrivals, k)
}

/// The page that arrived with index `k`.
pub open spec fn page_with_index<T>(arrivals: Seq<(u32, T)>, k: u32) -> T {
    arrivals[choose|i: int| 0 <= i < arrivals.len() && (#[trigger] arrivals[i]).0 == k].1
}

/// Pages are packaged in page order: when every page of a volume comes back
/// exactly once, in any order, the pages handed on are all of them, by index,
/// and none is left waiting.
pub proof fn law_pages_in_order<T>(arrivals: Seq<(u32, T)>)
    requires
        each_page_once(arrivals),
    ensures
        fed(arrivals).0 == Seq::new(arrivals.len(), |i: int| page_with_index(arrivals, i as u32)),
        fed(arrivals).1 == Map::<u32, T>::empty(),
        fed(arrivals).2 == arrivals.len(),
{
    let n = arrivals.len() as int;
    lemma_fed_prefix(arrivals, n);
    assert(arrivals.take(n) == arrivals);
    let (out, m, nx) = fed(arrivals);
    if nx < n {
        assert(has_key(arrivals, nx as u32));
    }
    if nx > n {
        assert(has_key(arrivals, n as u32));
        let i = choose|i: int| 0 <= i < arrivals.len() && (#[trigger] arrivals[i]).0 == n as u32;
        assert(arrivals[i].0 < n);
    }
    assert(m =~= Map::<u32, T>::empty()) by {
        assert forall|k: u32| !m.dom().contains(k) by {
            if m.dom().contains(k) {
                let i = choose|i: int| 0 <= i < arrivals.len() && (#[trigger] arrivals[i]).0 == k;
                assert(arrivals[i].0 < n);
            }
        }
    }
}

/// Each key's entry is found at the one position that carries it.
proof fn lemma_page_with_index_at<T>(arrivals: Seq<(u32, T)>, i: int)
    requires
        each_page_once(arrivals),
        0 <= i < arrivals.len(),
    ensures
        page_with_index(arrivals, arrivals[i].0) == arrivals[i].1,
{
    let k = arrivals[i].0;
    let q = choose|q: int| 0 <= q < arrivals.len() && (#[trigger] arrivals[q]).0 == k;
    if q < i {
        assert(arrivals[q].0 != arrivals[i].0);
    } else if q > i {
        assert(arrivals[i].0 != arrivals[q].0);
    }
}

/// `run_len` counts present keys up to the first missing one.
proof fn lemma_run_len<T>(m: Map<u32, T>, a: int)
    requires
        0 <= a <= u32::MAX + 1,
    ensures
        a + run_len(m, a) <= u32::MAX + 1,
        forall|k: u32| a <= k < a + run_len(m, a) ==> #[trigger] m.dom().contains(k),
        a + run_len(m, a) > u32::MAX || !m.dom().contains((a + run_len(m, a)) as u32),
    decreases u32::MAX + 1 - a,
{
    if a <= u32::MAX && m.dom().contains(a as u32) {
        lemma_run_len(m, a + 1);
        assert(run_len(m, a) == 1 + run_len(m, a + 1));
    } else {
        assert(run_len(m, a) == 0);
    }
}

proof fn lemma_fed_prefix<T>(arrivals: Seq<(u32, T)>, j: int)
    requires
        each_page_once(arrivals),
        0 <= j <= arrivals.len(),
    ensures
        ({
            let (out, m, nx) = fed(arrivals.take(j));
            &&& 0 <= nx <= arrivals.len()
            &&& forall|k: u32| k < nx ==> #[trigger] has_key(arrivals.take(j), k)
            &&& nx < arrivals.len() ==> !has_key(arrivals.take(j), nx as u32)
            &&& out == Seq::new(nx as nat, |i: int| page_with_index(arrivals, i as u32))
            &&& forall|k: u32| #[trigger] m.dom().contains(k) <==> (has_key(arrivals.take(j), k) && k >= nx)
            &&& forall|k: u32| #[trigger] m.dom().contains(k) ==> m[k] == page_with_index(arrivals, k)
        }),
    decreases j,
{
    let total = arrivals.len() as int;
    if j == 0 {
        assert(arrivals.take(0) == Seq::<(u32, T)>::empty());
        assert(Seq::new(0, |i: int| page_with_index(arrivals, i as u32)) =~= Seq::<T>::empty());
    } else {
        lemma_fed_prefix(arrivals, j - 1);
        let pre = arrivals.take(j - 1);
        let cur = arrivals.take(j);
        assert(cur.drop_last() == pre);
        assert(cur.last() == arrivals[j - 1]);
        let (out, m, nx) = fed(pre);
        let k = arrivals[j - 1].0;
        let v = arrivals[j - 1].1;
        lemma_page_with_index_at(arrivals, j - 1);
        assert forall|key: u32| #[trigger] has_key(cur, key) <==> (has_key(pre, key) || key == k) by {
            if has_key(cur, key) {
                let i = choose|i: int| 0 <= i < cur.len() && (#[trigger] cur[i]).0 == key;
                if i < j - 1 {
                    assert(pre[i] == cur[i]);
                }
            }
            if has_key(pre, key) {
                let i = choose|i: int| 0 <= i < pre.len() && (#[trigger] pre[i]).0 == key;
                assert(cur[i] == pre[i]);
            }
            if key == k {
                assert(cur[j - 1].0 == k);
            }
        }
        assert(!has_key(pre, k)) by {
            if has_key(pre, k) {
                let i = choose|i: int| 0 <= i < pre.len() && (#[trigger] pre[i]).0 == k;
                assert(pre[i] == arrivals[i]);
                assert(arrivals[i].0 != arrivals[j - 1].0);
            }
        }
        assert(k >= nx) by {
            if k < nx {
                assert(has_key(pre, k));
            }
        }
        let m2 = m.insert(k, v);
        let r = run_len(m2, nx);
        lemma_run_len(m2, nx);
        let nx2 = nx + r;
        assert(nx2 <= total) by {
            if nx2 > total {
                assert(m2.dom().contains(total as u32));
                assert(has_key(cur, total as u32));
                let i = choose|i: int| 0 <= i < cur.len() && (#[trigger] cur[i]).0 == total as u32;
                assert(cur[i] == arrivals[i]);
            }
        }
        let (out2, mm, nn) = fed(cur);
        assert(nn == nx2);
        assert forall|key: u32| key < nx2 implies #[trigger] has_key(cur, key) by {
            if key < nx {
                assert(has_key(pre, key));
            } else {
                assert(m2.dom().contains(key));
            }
        }
        if nx2 < total {
            assert(!m2.dom().contains(nx2 as u32));
            assert(!has_key(cur, nx2 as u32));
        }
        assert forall|key: u32| #[trigger] m2.dom().contains(key) implies m2[key] == page_with_index(arrivals, key) by {
            if key != k {
                assert(m.dom().contains(key));
            }
        }
        let added = Seq::new(r, |i: int| m2[(nx + i) as u32]);
        assert(out2 == out + added);
        assert forall|i: int| 0 <= i < r implies #[trigger] added[i] == page_with_index(arrivals, (nx + i) as u32) by {
            assert(m2.dom().contains((nx + i) as u32));
        }
        assert(out + added =~= Seq::new(nx2 as nat, |i: int| page_with_index(arrivals, i as u32)));
        assert(mm == without_run(m2, nx, r as int));
        assert forall|key: u32| #[trigger] mm.dom().contains(key) <==> (has_key(cur, key) && key >= nx2) by {
            if has_key(cur, key) && key >= nx2 {
                if key != k {
                    assert(has_key(pre, key));
                }
            }
        }
    }
}

} // verus!
