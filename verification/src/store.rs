//! The keyed row store behind every table accumulator: a sequence of rows in
//! ingestion order, where ingesting a row whose key is already present
//! replaces the old row in place ("last wins").

use vstd::prelude::*;
use vstd::pervasive::VecAdditionalExecFns;

verus! {

/// A table row with a two-part integer key; tables keyed on a single
/// identifier use zero for the second part.
pub trait Keyed: Sized {
    /// The row's key, as a pair of mathematical integers.
    spec fn skey(&self) -> (int, int);

    /// The row's key, as the machine integers it is stored in.
    fn row_key(&self) -> (k: (i32, i32))
        ensures
            (k.0 as int, k.1 as int) == self.skey(),
    ;
}

/// Index of the first row with key `k`, or -1 if no row has it.
pub open spec fn first_key_index<V: Keyed>(s: Seq<V>, k: (int, int)) -> int
    decreases s.len(),
{
    if s.len() == 0 {
        -1
    } else if s[0].skey() == k {
        0
    } else {
        let r = first_key_index(s.drop_first(), k);
        if r == -1 {
            -1
        } else {
            r + 1
        }
    }
}

/// Index of the last row with key `k`, or -1 if no row has it.
pub open spec fn last_key_index<V: Keyed>(s: Seq<V>, k: (int, int)) -> int
    decreases s.len(),
{
    if s.len() == 0 {
        -1
    } else {
        let r = last_key_index(s.drop_first(), k);
        if r != -1 {
            r + 1
        } else if s[0].skey() == k {
            0
        } else {
            -1
        }
    }
}

/// The first (hence, under last-wins ingestion, the only) row with key `k`.
pub open spec fn lookup<V: Keyed>(s: Seq<V>, k: (int, int)) -> Option<V> {
    let i = first_key_index(s, k);
    if i == -1 {
        None
    } else {
        Some(s[i])
    }
}

/// One last-wins insertion: replace the row sharing `v`'s key in place, or
/// append `v` if its key is new.
pub open spec fn upsert<V: Keyed>(s: Seq<V>, v: V) -> Seq<V> {
    let i = first_key_index(s, v.skey());
    if i == -1 {
        s.push(v)
    } else {
        s.update(i, v)
    }
}

/// Last-wins insertion of a whole row sequence, in order.
pub open spec fn upsert_all<V: Keyed>(s: Seq<V>, vs: Seq<V>) -> Seq<V>
    decreases vs.len(),
{
    if vs.len() == 0 {
        s
    } else {
        upsert_all(upsert(s, vs[0]), vs.drop_first())
    }
}

pub proof fn lemma_first_key_index<V: Keyed>(s: Seq<V>, k: (int, int))
    ensures
        first_key_index(s, k) == -1 ==> forall|i: int|
            0 <= i < s.len() ==> (#[trigger] s[i]).skey() != k,
        first_key_index(s, k) != -1 ==> 0 <= first_key_index(s, k) < s.len() && s[first_key_index(
            s,
            k,
        )].skey() == k && forall|j: int|
            0 <= j < first_key_index(s, k) ==> (#[trigger] s[j]).skey() != k,
    decreases s.len(),
{
    if s.len() > 0 && s[0].skey() != k {
        let t = s.drop_first();
        lemma_first_key_index(t, k);
        assert(forall|i: int| 1 <= i < s.len() ==> #[trigger] s[i] == t[i - 1]);
    }
}

pub proof fn lemma_first_key_index_at<V: Keyed>(s: Seq<V>, k: (int, int), i: int)
    requires
        0 <= i < s.len(),
        s[i].skey() == k,
        forall|j: int| 0 <= j < i ==> (#[trigger] s[j]).skey() != k,
    ensures
        first_key_index(s, k) == i,
    decreases s.len(),
{
    if i > 0 {
        let t = s.drop_first();
        assert(forall|j: int| 1 <= j < s.len() ==> #[trigger] s[j] == t[j - 1]);
        lemma_first_key_index_at(t, k, i - 1);
    }
}

/// The first-match index is a function of the rows' keys alone.
pub proof fn lemma_first_key_index_congruent<V: Keyed>(s1: Seq<V>, s2: Seq<V>, k: (int, int))
    requires
        s1.len() == s2.len(),
        forall|i: int| 0 <= i < s1.len() ==> (#[trigger] s1[i]).skey() == (#[trigger] s2[i]).skey(),
    ensures
        first_key_index(s1, k) == first_key_index(s2, k),
    decreases s1.len(),
{
    if s1.len() > 0 {
        let t1 = s1.drop_first();
        let t2 = s2.drop_first();
        assert(forall|i: int| 1 <= i < s1.len() ==> #[trigger] s1[i] == t1[i - 1]);
        assert(forall|i: int| 1 <= i < s2.len() ==> #[trigger] s2[i] == t2[i - 1]);
        assert(forall|i: int| 0 <= i < t1.len() ==> (#[trigger] t1[i]).skey() == (
        #[trigger] t2[i]).skey()) by {
            assert(forall|i: int|
                0 <= i < t1.len() ==> t1[i] == s1[i + 1] && t2[i] == s2[i + 1] && (
                #[trigger] s1[i + 1]).skey() == (#[trigger] s2[i + 1]).skey());
        }
        lemma_first_key_index_congruent(t1, t2, k);
    }
}

pub proof fn lemma_lookup_upsert<V: Keyed>(s: Seq<V>, v: V, k: (int, int))
    ensures
        v.skey() == k ==> lookup(upsert(s, v), k) == Some(v),
        v.skey() != k ==> lookup(upsert(s, v), k) == lookup(s, k),
{
    let vk = v.skey();
    let i = first_key_index(s, vk);
    lemma_first_key_index(s, vk);
    lemma_first_key_index(s, k);
    if i == -1 {
        let p = s.push(v);
        assert(forall|j: int| 0 <= j < s.len() ==> #[trigger] p[j] == s[j]);
        if vk == k {
            lemma_first_key_index_at(p, k, s.len() as int);
        } else {
            let fk = first_key_index(s, k);
            if fk == -1 {
                if first_key_index(p, k) != -1 {
                    lemma_first_key_index(p, k);
                    let pi = first_key_index(p, k);
                    assert(p[pi].skey() == k);
                    assert(pi == s.len());
                    assert(false);
                }
            } else {
                lemma_first_key_index_at(p, k, fk);
            }
        }
    } else {
        let u = s.update(i, v);
        assert(u.len() == s.len());
        assert(forall|j: int| 0 <= j < s.len() && j != i ==> #[trigger] u[j] == s[j]);
        assert(forall|j: int|
            0 <= j < s.len() ==> (#[trigger] u[j]).skey() == (#[trigger] s[j]).skey());
        lemma_first_key_index_congruent(u, s, k);
        if vk == k {
            assert(first_key_index(u, k) == i);
            assert(u[i] == v);
        } else {
            let fk = first_key_index(s, k);
            if fk != -1 {
                assert(s[fk].skey() == k);
                assert(fk != i);
                assert(u[fk] == s[fk]);
            }
        }
    }
}

proof fn lemma_last_key_index_range<V: Keyed>(s: Seq<V>, k: (int, int))
    ensures
        last_key_index(s, k) != -1 ==> 0 <= last_key_index(s, k) < s.len() && s[last_key_index(
            s,
            k,
        )].skey() == k,
    decreases s.len(),
{
    if s.len() > 0 {
        let t = s.drop_first();
        lemma_last_key_index_range(t, k);
        assert(forall|j: int| 1 <= j < s.len() ==> #[trigger] s[j] == t[j - 1]);
    }
}

/// Every key either keeps its old binding or takes the last ingested row
/// using it: the last-wins law for one batch of rows.
pub proof fn lemma_last_wins<V: Keyed>(init: Seq<V>, vs: Seq<V>, k: (int, int))
    ensures
        last_key_index(vs, k) != -1 ==> lookup(upsert_all(init, vs), k) == Some(
            vs[last_key_index(vs, k)],
        ),
        last_key_index(vs, k) == -1 ==> lookup(upsert_all(init, vs), k) == lookup(init, k),
    decreases vs.len(),
{
    lemma_last_key_index_range(vs, k);
    if vs.len() > 0 {
        let rest = vs.drop_first();
        let next = upsert(init, vs[0]);
        lemma_last_wins(next, rest, k);
        lemma_lookup_upsert(init, vs[0], k);
        lemma_last_key_index_range(rest, k);
        assert(forall|j: int| 1 <= j < vs.len() ==> #[trigger] vs[j] == rest[j - 1]);
        assert(upsert_all(init, vs) == upsert_all(next, rest));
        if last_key_index(rest, k) != -1 {
            assert(last_key_index(vs, k) == last_key_index(rest, k) + 1);
            assert(vs[last_key_index(vs, k)] == rest[last_key_index(rest, k)]);
        } else if vs[0].skey() == k {
            assert(last_key_index(vs, k) == 0);
            assert(lookup(upsert_all(next, rest), k) == lookup(next, k));
            assert(lookup(next, k) == Some(vs[0]));
        } else {
            assert(last_key_index(vs, k) == -1);
        }
    }
}

/// Ingesting two batches in order is ingesting their concatenation.
pub proof fn lemma_upsert_all_concat<V: Keyed>(init: Seq<V>, a: Seq<V>, b: Seq<V>)
    ensures
        upsert_all(init, a + b) == upsert_all(upsert_all(init, a), b),
    decreases a.len(),
{
    if a.len() == 0 {
        assert(a + b =~= b);
    } else {
        assert((a + b)[0] == a[0]);
        assert((a + b).drop_first() =~= a.drop_first() + b);
        lemma_upsert_all_concat(upsert(init, a[0]), a.drop_first(), b);
    }
}

/// A batch ingested after another wins every key it mentions, whatever the
/// earlier batch said: archive-priority order.
pub proof fn lemma_later_batch_wins<V: Keyed>(init: Seq<V>, a: Seq<V>, b: Seq<V>, k: (int, int))
    ensures
        last_key_index(b, k) != -1 ==> lookup(upsert_all(init, a + b), k) == Some(
            b[last_key_index(b, k)],
        ),
{
    lemma_upsert_all_concat(init, a, b);
    lemma_last_wins(upsert_all(init, a), b, k);
}

/// Peeling the first element off a filter: the head contributes itself
/// exactly when the predicate holds of it.
pub proof fn lemma_seq_filter_first<A>(s: Seq<A>, pred: spec_fn(A) -> bool)
    requires
        s.len() > 0,
    ensures
        pred(s[0]) ==> s.filter(pred) =~= seq![s[0]] + s.drop_first().filter(pred),
        !pred(s[0]) ==> s.filter(pred) =~= s.drop_first().filter(pred),
    decreases s.len(),
{
    reveal(Seq::filter);
    if s.len() == 1 {
        assert(s.drop_last() =~= Seq::<A>::empty());
        assert(s.drop_first() =~= Seq::<A>::empty());
        assert(s.last() == s[0]);
    } else {
        let t = s.drop_last();
        assert(t.len() > 0);
        assert(t[0] == s[0]);
        lemma_seq_filter_first(t, pred);
        assert(s.drop_first().drop_last() =~= t.drop_first());
        assert(s.drop_first().len() > 0);
        assert(s.drop_first().last() == s.last());
        if pred(s.last()) {
            assert(s.filter(pred) == t.filter(pred).push(s.last()));
            assert(s.drop_first().filter(pred) == t.drop_first().filter(pred).push(s.last()));
        } else {
            assert(s.filter(pred) == t.filter(pred));
            assert(s.drop_first().filter(pred) == t.drop_first().filter(pred));
        }
    }
}

/// One table's accumulator: rows in ingestion order, at most one per key.
pub struct Store<V> {
    pub rows: Vec<V>,
}

impl<V: Keyed> Store<V> {
    pub fn new() -> (r: Self)
        ensures
            r.rows@ =~= Seq::<V>::empty(),
    {
        Store { rows: Vec::new() }
    }

    pub fn len(&self) -> (n: usize)
        ensures
            n == self.rows@.len(),
    {
        self.rows.len()
    }

    /// Insert or overwrite by key: the most recently ingested row for a key
    /// replaces any earlier one.
    pub fn ingest(&mut self, v: V)
        ensures
            final(self).rows@ == upsert(old(self).rows@, v),
    {
        let vk = v.row_key();
        let ghost k = v.skey();
        let n = self.rows.len();
        let mut i: usize = 0;
        while i < n
            invariant
                0 <= i <= n,
                n == self.rows@.len(),
                self.rows@ == old(self).rows@,
                (vk.0 as int, vk.1 as int) == v.skey(),
                k == v.skey(),
                forall|j: int| 0 <= j < i ==> (#[trigger] self.rows@[j]).skey() != v.skey(),
            decreases n - i,
        {
            let rk = self.rows[i].row_key();
            if rk.0 == vk.0 && rk.1 == vk.1 {
                proof {
                    assert(self.rows@[i as int].skey() == (rk.0 as int, rk.1 as int));
                    assert(k == (vk.0 as int, vk.1 as int));
                    lemma_first_key_index_at(self.rows@, k, i as int);
                }
                self.rows.set(i, v);
                return;
            }
            proof {
                assert(self.rows@[i as int].skey() == (rk.0 as int, rk.1 as int));
                assert(self.rows@[i as int].skey() != v.skey());
            }
            i = i + 1;
        }
        proof {
            lemma_first_key_index(self.rows@, k);
            if first_key_index(self.rows@, k) != -1 {
                assert(self.rows@[first_key_index(self.rows@, k)].skey() == k);
                assert(false);
            }
        }
        self.rows.push(v);
    }

    /// Ingest a decoded batch in order.
    pub fn ingest_all(&mut self, vs: Vec<V>)
        ensures
            final(self).rows@ == upsert_all(old(self).rows@, vs@),
    {
        let ghost orig = self.rows@;
        let ghost all = vs@;
        let mut vs = vs;
        while vs.len() > 0
            invariant
                upsert_all(orig, all) == upsert_all(self.rows@, vs@),
            decreases vs.len(),
        {
            let ghost before = vs@;
            let v = vs.remove(0);
            proof {
                assert(before.remove(0) =~= before.drop_first());
                assert(v == before[0]);
            }
            self.ingest(v);
        }
        proof {
            assert(upsert_all(self.rows@, vs@) == self.rows@);
        }
    }

    /// Look a key up: the row most recently ingested for it, if any.
    pub fn get_by_key(&self, k0: i32, k1: i32) -> (r: Option<&V>)
        ensures
            match r {
                Some(v) => lookup(self.rows@, (k0 as int, k1 as int)) == Some(*v),
                None => lookup(self.rows@, (k0 as int, k1 as int)) is None,
            },
    {
        let ghost k = (k0 as int, k1 as int);
        let n = self.rows.len();
        let mut i: usize = 0;
        while i < n
            invariant
                0 <= i <= n,
                n == self.rows@.len(),
                k == (k0 as int, k1 as int),
                forall|j: int| 0 <= j < i ==> (#[trigger] self.rows@[j]).skey() != k,
            decreases n - i,
        {
            let rk = self.rows[i].row_key();
            if rk.0 == k0 && rk.1 == k1 {
                proof {
                    assert(self.rows@[i as int].skey() == (rk.0 as int, rk.1 as int));
                    lemma_first_key_index_at(self.rows@, k, i as int);
                }
                return Some(&self.rows[i]);
            }
            proof {
                assert(self.rows@[i as int].skey() == (rk.0 as int, rk.1 as int));
                assert(self.rows@[i as int].skey() != k);
            }
            i = i + 1;
        }
        proof {
            lemma_first_key_index(self.rows@, k);
            if first_key_index(self.rows@, k) != -1 {
                assert(self.rows@[first_key_index(self.rows@, k)].skey() == k);
                assert(false);
            }
        }
        None
    }
}

} // verus!
