//! The storage layer behind the registry: an association table from
//! byte-string keys to values. Abstractly it is a finite map; concretely a
//! pair of vectors whose keys are pairwise distinct.

use vstd::prelude::*;
use crate::keys::bytes_eq;

verus! {

pub struct Table<V> {
    keys: Vec<Vec<u8>>,
    vals: Vec<V>,
}

impl<V> Table<V> {
    pub closed spec fn wf(&self) -> bool {
        &&& self.keys@.len() == self.vals@.len()
        &&& forall|i: int, j: int|
            0 <= i < j < self.keys@.len() ==> self.keys@[i]@ != self.keys@[j]@
    }

    spec fn has(&self, k: Seq<u8>) -> bool {
        exists|i: int| 0 <= i < self.keys@.len() && self.keys@[i]@ == k
    }

    spec fn idx(&self, k: Seq<u8>) -> int {
        choose|i: int| 0 <= i < self.keys@.len() && self.keys@[i]@ == k
    }

    /// With distinct keys, any matching index is the chosen one.
    proof fn lemma_at(&self, i: int)
        requires
            self.wf(),
            0 <= i < self.keys@.len(),
        ensures
            self.has(self.keys@[i]@),
            self.idx(self.keys@[i]@) == i,
            self@.contains_key(self.keys@[i]@),
            self@[self.keys@[i]@] == self.vals@[i],
    {
        let k = self.keys@[i]@;
        assert(self.has(k));
        let j = self.idx(k);
        assert(0 <= j < self.keys@.len() && self.keys@[j]@ == k);
        if i < j {
            assert(self.keys@[i]@ != self.keys@[j]@);
        } else if j < i {
            assert(self.keys@[j]@ != self.keys@[i]@);
        }
    }

    proof fn lemma_absent(&self, k: Seq<u8>)
        requires
            !self.has(k),
        ensures
            !self@.contains_key(k),
    {
    }

    pub fn new() -> (r: Table<V>)
        ensures
            r.wf(),
            r@ == Map::<Seq<u8>, V>::empty(),
    {
        let r = Table { keys: Vec::new(), vals: Vec::new() };
        proof {
            assert(r@ =~= Map::<Seq<u8>, V>::empty());
        }
        r
    }

    fn find(&self, k: &Vec<u8>) -> (r: Option<usize>)
        requires
            self.wf(),
        ensures
            match r {
                Some(i) => {
                    &&& i < self.keys@.len()
                    &&& self.keys@[i as int]@ == k@
                    &&& self.idx(k@) == i
                    &&& self@.contains_key(k@)
                    &&& self@[k@] == self.vals@[i as int]
                },
                None => !self@.contains_key(k@) && !self.has(k@),
            },
    {
        let mut i: usize = 0;
        while i < self.keys.len()
            invariant
                self.wf(),
                i <= self.keys@.len(),
                forall|j: int| 0 <= j < i ==> self.keys@[j]@ != k@,
            decreases self.keys@.len() - i,
        {
            if bytes_eq(&self.keys[i], k) {
                proof {
                    self.lemma_at(i as int);
                }
                return Some(i);
            }
            i += 1;
        }
        proof {
            assert(!self.has(k@));
            self.lemma_absent(k@);
        }
        None
    }

    pub fn contains(&self, k: &Vec<u8>) -> (r: bool)
        requires
            self.wf(),
        ensures
            r == self@.contains_key(k@),
    {
        match self.find(k) {
            Some(_) => true,
            None => false,
        }
    }

    pub fn read(&self, k: &Vec<u8>) -> (r: Option<&V>)
        requires
            self.wf(),
        ensures
            match r {
                Some(v) => self@.contains_key(k@) && *v == self@[k@],
                None => !self@.contains_key(k@),
            },
    {
        match self.find(k) {
            Some(i) => Some(&self.vals[i]),
            None => None,
        }
    }

    pub fn put(&mut self, k: Vec<u8>, v: V)
        requires
            old(self).wf(),
        ensures
            final(self).wf(),
            final(self)@ == old(self)@.insert(k@, v),
    {
        let ghost pre = *self;
        match self.find(&k) {
            Some(i) => {
                self.vals[i] = v;
                proof {
                    lemma_view_update(pre, *self, i as int, v);
                    assert(pre.keys@[i as int]@ == k@);
                }
            },
            None => {
                let ghost kview = k@;
                self.keys.push(k);
                self.vals.push(v);
                proof {
                    lemma_view_push(pre, *self, kview, v);
                }
            },
        }
    }

    pub fn delete(&mut self, k: &Vec<u8>)
        requires
            old(self).wf(),
        ensures
            final(self).wf(),
            final(self)@ == old(self)@.remove(k@),
    {
        let ghost pre = *self;
        match self.find(k) {
            Some(i) => {
                self.keys.remove(i);
                self.vals.remove(i);
                proof {
                    lemma_view_remove(pre, *self, i as int);
                    assert(pre.keys@[i as int]@ == k@);
                }
            },
            None => {
                proof {
                    assert(self@ =~= self@.remove(k@));
                }
            },
        }
    }
}

impl<V> View for Table<V> {
    type V = Map<Seq<u8>, V>;

    closed spec fn view(&self) -> Map<Seq<u8>, V> {
        Map::new(|k: Seq<u8>| self.has(k), |k: Seq<u8>| self.vals@[self.idx(k)])
    }
}

proof fn lemma_same_keys<V>(pre: Table<V>, post: Table<V>)
    requires
        pre.wf(),
        post.keys@ == pre.keys@,
    ensures
        forall|k: Seq<u8>| post.has(k) == pre.has(k),
        forall|k: Seq<u8>| #[trigger] pre.has(k) ==> post.idx(k) == pre.idx(k),
        post.keys@.len() == pre.keys@.len(),
{
    assert forall|k: Seq<u8>| post.has(k) == pre.has(k) by {
        if pre.has(k) {
            let i = pre.idx(k);
            assert(post.keys@[i]@ == k);
            assert(post.has(k));
        }
        if post.has(k) {
            let i = choose|i: int| 0 <= i < post.keys@.len() && post.keys@[i]@ == k;
            assert(pre.keys@[i]@ == k);
            assert(pre.has(k));
        }
    }
    assert forall|k: Seq<u8>| #[trigger] pre.has(k) implies post.idx(k) == pre.idx(k) by {
        assert(post.has(k));
        let i = post.idx(k);
        assert(0 <= i < post.keys@.len() && post.keys@[i]@ == k);
        assert(pre.keys@[i]@ == k);
        let j = pre.idx(k);
        assert(0 <= j < pre.keys@.len() && pre.keys@[j]@ == k);
        if i < j {
            assert(pre.keys@[i]@ != pre.keys@[j]@);
        } else if j < i {
            assert(pre.keys@[j]@ != pre.keys@[i]@);
        }
    }
}

proof fn lemma_view_update<V>(pre: Table<V>, post: Table<V>, i: int, v: V)
    requires
        pre.wf(),
        0 <= i < pre.keys@.len(),
        post.keys@ == pre.keys@,
        post.vals@ == pre.vals@.update(i, v),
    ensures
        post.wf(),
        post@ == pre@.insert(pre.keys@[i]@, v),
{
    let k = pre.keys@[i]@;
    pre.lemma_at(i);
    lemma_same_keys(pre, post);
    assert forall|k2: Seq<u8>| #[trigger] post@.contains_key(k2) == pre@.insert(k, v).contains_key(k2) by {
        assert(pre.has(k));
    }
    assert forall|k2: Seq<u8>| post.has(k2) implies post@[k2] == pre@.insert(k, v)[k2] by {
        let j = pre.idx(k2);
        assert(0 <= j < pre.keys@.len() && pre.keys@[j]@ == k2);
        assert(post.idx(k2) == j);
        if k2 == k {
            if j != i {
                pre.lemma_at(j);
                pre.lemma_at(i);
                assert(false);
            }
            assert(post@[k2] == v);
        } else {
            assert(j != i);
            assert(post@[k2] == pre.vals@[j]);
        }
    }
    assert(post@ =~= pre@.insert(k, v));
}

proof fn lemma_view_push<V>(pre: Table<V>, post: Table<V>, k: Seq<u8>, v: V)
    requires
        pre.wf(),
        !pre.has(k),
        post.keys@.len() == pre.keys@.len() + 1,
        post.vals@ == pre.vals@.push(v),
        forall|j: int| 0 <= j < pre.keys@.len() ==> post.keys@[j] == pre.keys@[j],
        post.keys@[pre.keys@.len() as int]@ == k,
    ensures
        post.wf(),
        post@ == pre@.insert(k, v),
{
    let n = pre.keys@.len() as int;
    assert forall|i: int, j: int| 0 <= i < j < post.keys@.len() implies post.keys@[i]@ != post.keys@[j]@ by {
        if j < n {
            assert(pre.keys@[i]@ != pre.keys@[j]@);
        } else {
            assert(j == n);
            assert(post.keys@[j]@ == k);
            if post.keys@[i]@ == k {
                assert(pre.keys@[i]@ == k);
                assert(pre.has(k));
            }
        }
    }
    assert(post.wf());
    assert forall|k2: Seq<u8>| post@.contains_key(k2) == pre@.insert(k, v).contains_key(k2) by {
        assert(post.keys@[n]@ == k);
        if k2 == k {
            assert(post.has(k));
        } else {
            if pre.has(k2) {
                let i = pre.idx(k2);
                assert(post.keys@[i]@ == k2);
                assert(post.has(k2));
            }
            if post.has(k2) {
                let i = choose|i: int| 0 <= i < post.keys@.len() && post.keys@[i]@ == k2;
                assert(i != n);
                assert(pre.keys@[i]@ == k2);
                assert(pre.has(k2));
            }
        }
    }
    assert forall|k2: Seq<u8>| post.has(k2) implies post@[k2] == pre@.insert(k, v)[k2] by {
        let i = post.idx(k2);
        assert(0 <= i < post.keys@.len() && post.keys@[i]@ == k2);
        if k2 == k {
            if i != n {
                assert(pre.keys@[i]@ == k);
                assert(pre.has(k));
                assert(false);
            }
            assert(post@[k2] == post.vals@[n]);
            assert(post.vals@[n] == v);
        } else {
            assert(i != n);
            assert(pre.keys@[i]@ == k2);
            assert(pre.has(k2));
            let j = pre.idx(k2);
            assert(0 <= j < pre.keys@.len() && pre.keys@[j]@ == k2);
            if i < j {
                assert(post.keys@[i]@ != post.keys@[j]@);
            } else if j < i {
                assert(post.keys@[j]@ != post.keys@[i]@);
            }
            assert(post@[k2] == pre.vals@[j]);
            pre.lemma_at(j);
        }
    }
    assert(post@ =~= pre@.insert(k, v));
}

proof fn lemma_view_remove<V>(pre: Table<V>, post: Table<V>, i: int)
    requires
        pre.wf(),
        0 <= i < pre.keys@.len(),
        post.keys@ == pre.keys@.remove(i),
        post.vals@ == pre.vals@.remove(i),
    ensures
        post.wf(),
        post@ == pre@.remove(pre.keys@[i]@),
{
    let k = pre.keys@[i]@;
    let n = pre.keys@.len() as int;
    pre.lemma_at(i);
    pre.keys@.remove_ensures(i);
    pre.vals@.remove_ensures(i);
    assert forall|a: int, b: int| 0 <= a < b < post.keys@.len() implies post.keys@[a]@ != post.keys@[b]@ by {
        let a0 = if a < i { a } else { a + 1 };
        let b0 = if b < i { b } else { b + 1 };
        assert(post.keys@[a] == pre.keys@[a0]);
        assert(post.keys@[b] == pre.keys@[b0]);
        assert(pre.keys@[a0]@ != pre.keys@[b0]@);
    }
    assert(post.wf());
    assert forall|k2: Seq<u8>| post@.contains_key(k2) == pre@.remove(k).contains_key(k2) by {
        if post.has(k2) {
            let a = choose|a: int| 0 <= a < post.keys@.len() && post.keys@[a]@ == k2;
            let a0 = if a < i { a } else { a + 1 };
            assert(post.keys@[a] == pre.keys@[a0]);
            assert(pre.keys@[a0]@ == k2);
            assert(pre.has(k2));
            if k2 == k {
                pre.lemma_at(a0);
                assert(a0 == i);
                assert(false);
            }
        }
        if pre.has(k2) && k2 != k {
            let a0 = pre.idx(k2);
            assert(0 <= a0 < n && pre.keys@[a0]@ == k2);
            assert(a0 != i);
            let a = if a0 < i { a0 } else { a0 - 1 };
            assert(post.keys@[a] == pre.keys@[a0]);
            assert(post.has(k2));
        }
    }
    assert forall|k2: Seq<u8>| post.has(k2) implies post@[k2] == pre@.remove(k)[k2] by {
        let a = post.idx(k2);
        assert(0 <= a < post.keys@.len() && post.keys@[a]@ == k2);
        let a0 = if a < i { a } else { a + 1 };
        assert(post.keys@[a] == pre.keys@[a0]);
        assert(post.vals@[a] == pre.vals@[a0]);
        pre.lemma_at(a0);
        assert(post@[k2] == pre.vals@[a0]);
        assert(pre@[k2] == pre.vals@[a0]);
    }
    assert(post@ =~= pre@.remove(k));
}

} // verus!
