//! The view counter: a mapping from resource key to view count,
//! mutated only through a read-modify-write increment whose contract
//! pins the whole mapping before and after.

use vstd::prelude::*;

use crate::text::str_eq;

verus! {

/// A mapping from resource key to view count. A key that was never
/// incremented counts as zero; the first increment yields one.
pub struct ViewCounter {
    keys: Vec<String>,
    counts: Vec<u64>,
}

impl ViewCounter {
    /// Keys and counts run in parallel, keys are unique, and every
    /// stored count is at least one.
    pub closed spec fn wf(self) -> bool {
        &&& self.keys@.len() == self.counts@.len()
        &&& forall|i: int, j: int|
            0 <= i < j < self.keys@.len() ==> self.keys@[i]@ != self.keys@[j]@
        &&& forall|i: int| 0 <= i < self.counts@.len() ==> self.counts@[i] >= 1
    }

    /// The key has been incremented at least once.
    pub closed spec fn has_key(self, k: Seq<char>) -> bool {
        exists|i: int| 0 <= i < self.keys@.len() && self.keys@[i]@ == k
    }

    /// The current count of a key; zero for a key never seen.
    pub closed spec fn count_of(self, k: Seq<char>) -> u64 {
        if self.has_key(k) {
            let i = choose|i: int| 0 <= i < self.keys@.len() && self.keys@[i]@ == k;
            self.counts@[i]
        } else {
            0
        }
    }

    /// With unique keys, the count of the key stored at `i` is the
    /// count stored at `i`.
    proof fn lemma_count_at(self, i: int)
        requires
            self.wf(),
            0 <= i < self.keys@.len(),
        ensures
            self.has_key(self.keys@[i]@),
            self.count_of(self.keys@[i]@) == self.counts@[i],
    {
        let k = self.keys@[i]@;
        assert(self.has_key(k));
        let j = choose|j: int| 0 <= j < self.keys@.len() && self.keys@[j]@ == k;
        if j < i {
            assert(false);
        } else if j > i {
            assert(false);
        }
    }

    /// An empty counter: every key counts zero.
    pub fn new() -> (r: ViewCounter)
        ensures
            r.wf(),
            forall|k: Seq<char>| !r.has_key(k),
            forall|k: Seq<char>| r.count_of(k) == 0,
    {
        ViewCounter { keys: Vec::new(), counts: Vec::new() }
    }

    /// The position of `key`, when it is present.
    fn index_of(&self, key: &str) -> (r: Option<usize>)
        ensures
            match r {
                Some(i) => i < self.keys@.len() && self.keys@[i as int]@ == key@,
                None => !self.has_key(key@),
            },
    {
        let n = self.keys.len();
        let mut i: usize = 0;
        while i < n
            invariant
                n == self.keys@.len(),
                i <= n,
                forall|j: int| 0 <= j < i ==> self.keys@[j]@ != key@,
            decreases n - i,
        {
            if str_eq(self.keys[i].as_str(), key) {
                return Some(i);
            }
            i += 1;
        }
        None
    }

    /// The current count of a key, without incrementing it.
    pub fn get(&self, key: &str) -> (r: u64)
        requires
            self.wf(),
        ensures
            r == self.count_of(key@),
    {
        match self.index_of(key) {
            Some(i) => {
                proof {
                    self.lemma_count_at(i as int);
                }
                self.counts[i]
            },
            None => 0,
        }
    }

    /// Inserts the key with count zero if absent, increments it, and
    /// returns the new count: the single read-modify-write operation
    /// of the counter. No two increments of the same key can observe
    /// the same prior count, and no other key's count changes.
    pub fn increment_and_get(&mut self, key: &str) -> (r: u64)
        requires
            old(self).wf(),
            old(self).count_of(key@) < u64::MAX,
        ensures
            final(self).wf(),
            r == old(self).count_of(key@) + 1,
            final(self).count_of(key@) == r,
            forall|k: Seq<char>| k != key@ ==> final(self).count_of(k) == old(self).count_of(k),
            forall|k: Seq<char>| final(self).has_key(k) <==> (old(self).has_key(k) || k == key@),
    {
        match self.index_of(key) {
            Some(i) => {
                let c = self.counts[i];
                proof {
                    self.lemma_count_at(i as int);
                }
                let new_count = c + 1;
                self.counts[i] = new_count;
                proof {
                    lemma_update_preserves(*old(self), *self, i as int, key@);
                }
                new_count
            },
            None => {
                let ks = String::from_str(key);
                self.keys.push(ks);
                self.counts.push(1);
                proof {
                    assert(self.keys@.subrange(0, old(self).keys@.len() as int) =~= old(
                        self,
                    ).keys@);
                    lemma_insert_preserves(*old(self), *self, key@);
                }
                1
            },
        }
    }
}

/// Incrementing the count stored at position `i` (the position of
/// `key`) leaves every other key's count alone.
proof fn lemma_update_preserves(pre: ViewCounter, post: ViewCounter, i: int, key: Seq<char>)
    requires
        pre.wf(),
        0 <= i < pre.keys@.len(),
        pre.keys@[i]@ == key,
        pre.counts@[i] < u64::MAX,
        post.keys == pre.keys,
        post.counts@ == pre.counts@.update(i, (pre.counts@[i] + 1) as u64),
    ensures
        post.wf(),
        post.count_of(key) == pre.count_of(key) + 1,
        forall|k: Seq<char>| k != key ==> post.count_of(k) == pre.count_of(k),
        forall|k: Seq<char>| post.has_key(k) <==> (pre.has_key(k) || k == key),
{
    pre.lemma_count_at(i);
    post.lemma_count_at(i);
    assert forall|k: Seq<char>| k != key implies post.count_of(k) == pre.count_of(k) by {
        if pre.has_key(k) {
            let j = choose|j: int| 0 <= j < pre.keys@.len() && pre.keys@[j]@ == k;
            pre.lemma_count_at(j);
            post.lemma_count_at(j);
            assert(j != i);
        }
    }
}

/// Appending a fresh key with count one leaves every other key's
/// count alone and gives the fresh key count one.
proof fn lemma_insert_preserves(pre: ViewCounter, post: ViewCounter, key: Seq<char>)
    requires
        pre.wf(),
        !pre.has_key(key),
        post.keys@.len() == pre.keys@.len() + 1,
        post.keys@.subrange(0, pre.keys@.len() as int) == pre.keys@,
        post.keys@[pre.keys@.len() as int]@ == key,
        post.counts@ == pre.counts@.push(1u64),
    ensures
        post.wf(),
        post.count_of(key) == 1,
        forall|k: Seq<char>| k != key ==> post.count_of(k) == pre.count_of(k),
        forall|k: Seq<char>| post.has_key(k) <==> (pre.has_key(k) || k == key),
{
    let n = pre.keys@.len() as int;
    assert(forall|j: int| 0 <= j < n ==> post.keys@[j] == pre.keys@[j]);
    assert(post.wf());
    post.lemma_count_at(n);
    assert forall|k: Seq<char>| k != key implies post.count_of(k) == pre.count_of(k) by {
        if pre.has_key(k) {
            let j = choose|j: int| 0 <= j < pre.keys@.len() && pre.keys@[j]@ == k;
            pre.lemma_count_at(j);
            post.lemma_count_at(j);
        } else {
            if post.has_key(k) {
                let j = choose|j: int| 0 <= j < post.keys@.len() && post.keys@[j]@ == k;
                assert(j == n);
                assert(false);
            }
        }
    }
    assert forall|k: Seq<char>| post.has_key(k) <==> (pre.has_key(k) || k == key) by {
        if post.has_key(k) {
            let j = choose|j: int| 0 <= j < post.keys@.len() && post.keys@[j]@ == k;
            if j < n {
                assert(pre.has_key(k));
            }
        }
        if pre.has_key(k) {
            let j = choose|j: int| 0 <= j < pre.keys@.len() && pre.keys@[j]@ == k;
            assert(post.keys@[j]@ == k);
        }
    }
}

} // verus!
