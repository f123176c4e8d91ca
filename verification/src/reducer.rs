//! The recidivist reducer: a single-pass, key-indexed filter that, per
//! subject identifier, withholds the chronologically earliest admission
//! (by admission year) and emits every other record, without requiring the
//! input to be sorted.  It keeps one record per subject seen so far — the
//! earliest so far — and on every later occurrence emits exactly one of
//! the stored and the incoming record, never the one it keeps.

use vstd::prelude::*;
use vstd::multiset::Multiset;

use crate::record::{copy_bytes, Record};

verus! {

/// One reduction step for a single subject: the stored earliest-so-far
/// record (if any) and an incoming record give the new stored record and
/// the emitted record (if any).  A first occurrence is stored and emits
/// nothing; afterwards the earlier of the two is stored and the other is
/// emitted.
pub open spec fn red_step(stored: Option<Record>, r: Record) -> (Option<Record>, Option<
    Record,
>) {
    match stored {
        None => (Some(r), None),
        Some(s) => if s.admission_year > r.admission_year {
            (Some(r), Some(s))
        } else {
            (Some(s), Some(r))
        },
    }
}

/// One subject's records folded through [`red_step`] in input order: the
/// finally stored record and the multiset of all emitted records.
pub open spec fn red_run(rs: Seq<Record>) -> (Option<Record>, Multiset<Record>)
    decreases rs.len(),
{
    if rs.len() == 0 {
        (None, Multiset::empty())
    } else {
        let (st, em) = red_run(rs.drop_last());
        let (st2, emitted) = red_step(st, rs.last());
        (
            st2,
            match emitted {
                Some(e) => em.insert(e),
                None => em,
            },
        )
    }
}

/// For any non-empty run of one subject's records, the reducer withholds
/// exactly one record — one with the minimum admission year — and emits
/// all the others, whatever the input order.
pub proof fn lemma_reducer_min(rs: Seq<Record>)
    requires
        rs.len() > 0,
    ensures
        ({
            let (st, em) = red_run(rs);
            &&& st matches Some(m) && rs.to_multiset().contains(m) && em == rs.to_multiset().remove(
                m,
            ) && forall|j: int|
                0 <= j < rs.len() ==> m.admission_year <= (#[trigger] rs[j]).admission_year
        }),
    decreases rs.len(),
{
    broadcast use vstd::seq_lib::group_to_multiset_ensures;
    broadcast use vstd::multiset::group_multiset_axioms;

    let r = rs.last();
    let prefix = rs.drop_last();
    assert(prefix.push(r) =~= rs);
    if rs.len() == 1 {
        let (st, em) = red_run(rs);
        assert(st == Some(r));
        assert(rs.to_multiset() =~= Multiset::empty().insert(r));
        assert(em =~= rs.to_multiset().remove(r));
    } else {
        lemma_reducer_min(prefix);
        let (st1, em1) = red_run(prefix);
        let m1 = st1.unwrap();
        let (st, em) = red_run(rs);
        assert(rs.to_multiset() =~= prefix.to_multiset().insert(r));
        if m1.admission_year > r.admission_year {
            // The incoming record is strictly earlier: store it, emit the
            // previously stored one.
            assert(st == Some(r));
            assert(em == em1.insert(m1));
            assert(em =~= rs.to_multiset().remove(r));
        } else {
            assert(st == Some(m1));
            assert(em == em1.insert(r));
            assert(em =~= rs.to_multiset().remove(m1));
        }
    }
}

/// The reducer's state: for each subject identifier seen so far, the
/// earliest record seen so far.
pub struct Reducer {
    pub entries: Vec<(Vec<u8>, Record)>,
}

/// Compare two byte strings.
pub fn bytes_eq(a: &Vec<u8>, b: &Vec<u8>) -> (r: bool)
    ensures
        r == (a@ == b@),
{
    if a.len() != b.len() {
        return false;
    }
    let mut i: usize = 0;
    while i < a.len()
        invariant
            i <= a.len(),
            a@.len() == b@.len(),
            forall|k: int| 0 <= k < i ==> a@[k] == b@[k],
        decreases a.len() - i,
    {
        if a[i] != b[i] {
            return false;
        }
        i = i + 1;
    }
    proof {
        assert(a@ =~= b@);
    }
    true
}

impl Reducer {
    /// Well-formed: one entry per subject identifier.
    pub open spec fn wf(self) -> bool {
        forall|k1: int, k2: int|
            0 <= k1 < k2 < self.entries@.len() ==> (#[trigger] self.entries@[k1]).0@ != (
            #[trigger] self.entries@[k2]).0@
    }

    /// Whether a record is stored for the subject `id`.
    pub open spec fn has_key(self, id: Seq<u8>) -> bool {
        exists|k: int| 0 <= k < self.entries@.len() && (#[trigger] self.entries@[k]).0@ == id
    }

    /// The index of the subject `id`'s entry.
    pub open spec fn key_index(self, id: Seq<u8>) -> int {
        choose|k: int| 0 <= k < self.entries@.len() && (#[trigger] self.entries@[k]).0@ == id
    }

    /// The record stored for the subject `id`, if any.
    pub open spec fn stored_for(self, id: Seq<u8>) -> Option<Record> {
        if self.has_key(id) {
            Some(self.entries@[self.key_index(id)].1)
        } else {
            None
        }
    }

    /// An empty reducer: nothing stored yet.
    pub fn new() -> (r: Reducer)
        ensures
            r.wf(),
            forall|id: Seq<u8>| !r.has_key(id),
            r.entries@.len() == 0,
    {
        Reducer { entries: Vec::new() }
    }

    /// Feed one record: exactly [`red_step`] on this subject's stored
    /// record, leaving every other subject untouched.
    pub fn step(&mut self, id: &Vec<u8>, record: Record) -> (out: Option<Record>)
        requires
            old(self).wf(),
        ensures
            final(self).wf(),
            ({
                let (st2, emitted) = red_step(old(self).stored_for(id@), record);
                &&& out == emitted
                &&& final(self).stored_for(id@) == st2
                &&& forall|other: Seq<u8>|
                    other != id@ ==> final(self).stored_for(other) == old(self).stored_for(
                        other,
                    )
            }),
    {
        let ghost pre = *self;
        let n = self.entries.len();
        let mut k: usize = 0;
        while k < n
            invariant
                k <= n,
                n == self.entries@.len(),
                *self == pre,
                pre == *old(self),
                pre.wf(),
                forall|kk: int| 0 <= kk < k ==> (#[trigger] self.entries@[kk]).0@ != id@,
            decreases n - k,
        {
            if bytes_eq(&self.entries[k].0, id) {
                let stored = self.entries[k].1;
                proof {
                    assert(pre.has_key(id@));
                    let ki = pre.key_index(id@);
                    assert(0 <= ki < n && pre.entries@[ki].0@ == id@);
                    assert(ki == k) by {
                        if ki < k {
                            assert(pre.entries@[ki].0@ != pre.entries@[k as int].0@);
                        } else if ki > k {
                            assert(pre.entries@[k as int].0@ != pre.entries@[ki].0@);
                        }
                    }
                }
                if stored.admission_year > record.admission_year {
                    let key = copy_bytes(&self.entries[k].0);
                    self.entries.set(k, (key, record));
                    proof {
                        lemma_same_keys_same_lookup(pre, *self, id@, k as int);
                    }
                    return Some(stored);
                } else {
                    return Some(record);
                }
            }
            k = k + 1;
        }
        self.entries.push((copy_bytes(id), record));
        proof {
            assert(!pre.has_key(id@));
            assert(self.entries@.len() == n + 1);
            assert forall|k1: int, k2: int|
                0 <= k1 < k2 < self.entries@.len() implies (#[trigger] self.entries@[k1]).0@ != (
            #[trigger] self.entries@[k2]).0@ by {
                if k2 < n {
                } else {
                    assert(self.entries@[k1].0@ == pre.entries@[k1].0@);
                    assert(self.entries@[k2].0@ == id@);
                }
            }
            assert(self.has_key(id@)) by {
                assert(self.entries@[n as int].0@ == id@);
            }
            let ki = self.key_index(id@);
            assert(0 <= ki < n + 1 && self.entries@[ki].0@ == id@);
            assert(ki == n) by {
                if ki < n {
                    assert(pre.entries@[ki].0@ == id@);
                }
            }
            assert forall|other: Seq<u8>| other != id@ implies self.stored_for(other)
                == pre.stored_for(other) by {
                lemma_push_other_lookup(pre, *self, id@, other);
            }
        }
        None
    }
}

/// After an update of entry `at` that keeps every key in place, the
/// updated subject's lookup gives the new value and every other subject's
/// lookup is unchanged.
proof fn lemma_same_keys_same_lookup(pre: Reducer, post: Reducer, id: Seq<u8>, at: int)
    requires
        pre.wf(),
        post.entries@.len() == pre.entries@.len(),
        forall|k: int|
            0 <= k < pre.entries@.len() ==> (#[trigger] post.entries@[k]).0@
                == pre.entries@[k].0@,
        0 <= at < pre.entries@.len(),
        pre.entries@[at].0@ == id,
        forall|j: int|
            0 <= j < pre.entries@.len() && j != at ==> (#[trigger] post.entries@[j])
                == pre.entries@[j],
    ensures
        post.wf(),
        post.stored_for(id) == Some(post.entries@[at].1),
        forall|other: Seq<u8>|
            other != id ==> #[trigger] post.stored_for(other) == pre.stored_for(other),
{
    assert forall|k1: int, k2: int|
        0 <= k1 < k2 < post.entries@.len() implies (#[trigger] post.entries@[k1]).0@ != (
    #[trigger] post.entries@[k2]).0@ by {
        assert(pre.entries@[k1].0@ != pre.entries@[k2].0@);
    }
    assert(post.has_key(id)) by {
        assert(post.entries@[at].0@ == id);
    }
    let ki = post.key_index(id);
    assert(0 <= ki < post.entries@.len() && post.entries@[ki].0@ == id);
    assert(ki == at) by {
        if ki != at {
            assert(pre.entries@[ki].0@ == id);
            assert(pre.entries@[at].0@ == id);
            if ki < at {
                assert(pre.entries@[ki].0@ != pre.entries@[at].0@);
            } else {
                assert(pre.entries@[at].0@ != pre.entries@[ki].0@);
            }
        }
    }
    assert forall|other: Seq<u8>| other != id implies #[trigger] post.stored_for(other)
        == pre.stored_for(other) by {
        if pre.has_key(other) {
            let kp = pre.key_index(other);
            assert(0 <= kp < pre.entries@.len() && pre.entries@[kp].0@ == other);
            assert(post.entries@[kp].0@ == other);
            assert(post.has_key(other));
            let kq = post.key_index(other);
            assert(0 <= kq < post.entries@.len() && post.entries@[kq].0@ == other);
            assert(kq == kp) by {
                if kq != kp {
                    assert(pre.entries@[kq].0@ == other);
                    if kq < kp {
                        assert(pre.entries@[kq].0@ != pre.entries@[kp].0@);
                    } else {
                        assert(pre.entries@[kp].0@ != pre.entries@[kq].0@);
                    }
                }
            }
            assert(kp != at);
            assert(post.entries@[kp] == pre.entries@[kp]);
        } else {
            if post.has_key(other) {
                let kq = post.key_index(other);
                assert(pre.entries@[kq].0@ == other);
            }
        }
    }
}

/// After a push of a new key, every other subject's lookup is unchanged.
proof fn lemma_push_other_lookup(pre: Reducer, post: Reducer, id: Seq<u8>, other: Seq<u8>)
    requires
        pre.wf(),
        other != id,
        post.entries@.len() == pre.entries@.len() + 1,
        forall|k: int|
            0 <= k < pre.entries@.len() ==> (#[trigger] post.entries@[k]) == pre.entries@[k],
        post.entries@[pre.entries@.len() as int].0@ == id,
    ensures
        post.stored_for(other) == pre.stored_for(other),
{
    let n = pre.entries@.len() as int;
    if pre.has_key(other) {
        let ki = pre.key_index(other);
        assert(0 <= ki < n && pre.entries@[ki].0@ == other);
        assert(post.entries@[ki].0@ == other);
        assert(post.has_key(other));
        let ki2 = post.key_index(other);
        assert(0 <= ki2 < n + 1 && post.entries@[ki2].0@ == other);
        assert(ki2 != n);
        assert(pre.entries@[ki2].0@ == other);
        assert(ki2 == ki) by {
            if ki2 != ki {
                assert(pre.wf());
            }
        }
    } else {
        if post.has_key(other) {
            let ki2 = post.key_index(other);
            assert(0 <= ki2 < n + 1 && post.entries@[ki2].0@ == other);
            assert(ki2 != n);
            assert(pre.entries@[ki2].0@ == other);
        }
    }
}

} // verus!
