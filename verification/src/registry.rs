use vstd::prelude::*;

verus! {

/// A model of the shared socket set of the multiplexer: the collection of
/// socket handles registered for combined readiness polling.  Handles are
/// plain identifiers, each registered at most once, and the registry has a
/// fixed capacity chosen when it is allocated.
pub struct SocketRegistry {
    ids: Vec<u64>,
    cap: usize,
}

impl SocketRegistry {
    /// Is `id` currently registered?
    pub closed spec fn has(&self, id: u64) -> bool {
        self.ids@.contains(id)
    }

    /// How many sockets are currently registered.
    pub closed spec fn size(&self) -> nat {
        self.ids@.len()
    }

    /// The fixed capacity chosen at allocation time.
    pub closed spec fn limit(&self) -> nat {
        self.cap as nat
    }

    /// Well-formedness: no socket is registered twice, and the registry
    /// never outgrows its capacity.
    pub closed spec fn wf(&self) -> bool {
        &&& forall|i: int, j: int|
            #![trigger self.ids@[i], self.ids@[j]]
            0 <= i < j < self.ids@.len() ==> self.ids@[i] != self.ids@[j]
        &&& self.ids@.len() <= self.cap
    }

    /// An empty registry with room for `capacity` sockets.
    pub fn new(capacity: usize) -> (r: Self)
        ensures
            r.wf(),
            r.size() == 0,
            r.limit() == capacity as nat,
            forall|x: u64| !r.has(x),
    {
        SocketRegistry { ids: Vec::new(), cap: capacity }
    }

    /// How many sockets are currently registered.
    pub fn len(&self) -> (n: usize)
        ensures
            n == self.size(),
    {
        self.ids.len()
    }

    /// The fixed capacity chosen at allocation time.
    pub fn capacity(&self) -> (n: usize)
        ensures
            n == self.limit(),
    {
        self.cap
    }

    /// Is `id` currently registered?
    pub fn contains(&self, id: u64) -> (r: bool)
        ensures
            r == self.has(id),
    {
        let mut i: usize = 0;
        while i < self.ids.len()
            invariant
                i <= self.ids@.len(),
                forall|j: int| 0 <= j < i ==> self.ids@[j] != id,
            decreases self.ids@.len() - i,
        {
            if self.ids[i] == id {
                proof {
                    assert(self.ids@.contains(id)) by {
                        assert(self.ids@[i as int] == id);
                    }
                }
                return true;
            }
            i += 1;
        }
        false
    }

    /// Registers `id`.  Succeeds when `id` is already registered (a no-op)
    /// or when there is room for one more socket; fails, changing nothing,
    /// when the registry is full.
    pub fn add(&mut self, id: u64) -> (added: bool)
        requires
            old(self).wf(),
        ensures
            final(self).wf(),
            final(self).limit() == old(self).limit(),
            added == (old(self).has(id) || old(self).size() < old(self).limit()),
            final(self).has(id) == (added || old(self).has(id)),
            !added ==> *final(self) == *old(self),
            old(self).has(id) ==> *final(self) == *old(self),
            forall|x: u64| x != id ==> final(self).has(x) == old(self).has(x),
            final(self).size() == if added && !old(self).has(id) {
                old(self).size() + 1
            } else {
                old(self).size()
            },
    {
        if self.contains(id) {
            return true;
        }
        if self.ids.len() < self.cap {
            self.ids.push(id);
            proof {
                let pre = old(self).ids@;
                let post = self.ids@;
                assert(post == pre.push(id));
                assert(post[post.len() - 1] == id);
                assert(post.contains(id));
                assert forall|x: u64| x != id implies self.has(x) == old(self).has(x) by {
                    if pre.contains(x) {
                        let w = choose|k: int| 0 <= k < pre.len() && pre[k] == x;
                        assert(post[w] == x);
                    }
                    if post.contains(x) {
                        let w = choose|k: int| 0 <= k < post.len() && post[k] == x;
                        assert(pre[w] == x);
                    }
                }
            }
            return true;
        }
        false
    }

    /// Deregisters `id`, if it is registered; afterwards `id` is certainly
    /// absent, and no other registration is disturbed.
    pub fn remove(&mut self, id: u64) -> (removed: bool)
        requires
            old(self).wf(),
        ensures
            final(self).wf(),
            final(self).limit() == old(self).limit(),
            removed == old(self).has(id),
            !removed ==> *final(self) == *old(self),
            !final(self).has(id),
            forall|x: u64| x != id ==> final(self).has(x) == old(self).has(x),
            final(self).size() == if old(self).has(id) {
                old(self).size() - 1
            } else {
                old(self).size() as int
            },
    {
        let mut i: usize = 0;
        while i < self.ids.len()
            invariant
                i <= self.ids@.len(),
                forall|j: int| 0 <= j < i ==> self.ids@[j] != id,
                *self == *old(self),
                old(self).wf(),
            decreases self.ids@.len() - i,
        {
            if self.ids[i] == id {
                let ghost pre = self.ids@;
                self.ids.remove(i);
                proof {
                    let post = self.ids@;
                    let n = pre.len() as int;
                    assert(post == pre.subrange(0, i as int) + pre.subrange(i + 1, n));
                    assert(pre.contains(id)) by {
                        assert(pre[i as int] == id);
                    }
                    assert(forall|p: int, q: int|
                        #![trigger pre[p], pre[q]]
                        0 <= p < q < pre.len() ==> pre[p] != pre[q]);
                    assert forall|k: int| 0 <= k < post.len() implies post[k] == (if k < i {
                        pre[k]
                    } else {
                        pre[k + 1]
                    }) by {
                        if k < i {
                            assert(post[k] == pre.subrange(0, i as int)[k]);
                        } else {
                            assert(post[k] == pre.subrange(i + 1, n)[k - i]);
                        }
                    }
                    assert forall|a: int, b: int|
                        0 <= a < b < post.len() implies post[a] != post[b] by {
                        let fa: int = if a < i { a } else { a + 1 };
                        let fb: int = if b < i { b } else { b + 1 };
                        assert(post[a] == pre[fa]);
                        assert(post[b] == pre[fb]);
                        assert(0 <= fa < fb < pre.len());
                    }
                    assert(!post.contains(id)) by {
                        if post.contains(id) {
                            let w = choose|k: int| 0 <= k < post.len() && post[k] == id;
                            let fw: int = if w < i { w } else { w + 1 };
                            assert(pre[fw] == id);
                            assert(pre[i as int] == id);
                            assert(fw != i);
                        }
                    }
                    assert forall|x: u64| x != id && pre.contains(x) implies post.contains(
                        x,
                    ) by {
                        let w = choose|k: int| 0 <= k < pre.len() && pre[k] == x;
                        assert(w != i);
                        if w < i {
                            assert(post[w] == x);
                            assert(post.contains(x));
                        } else {
                            assert(post[w - 1] == pre[w]);
                            assert(post.contains(x));
                        }
                    }
                    assert forall|x: u64| x != id && post.contains(x) implies pre.contains(
                        x,
                    ) by {
                        let w = choose|k: int| 0 <= k < post.len() && post[k] == x;
                        let fw: int = if w < i { w } else { w + 1 };
                        assert(pre[fw] == x);
                        assert(pre.contains(x));
                    }
                }
                return true;
            }
            i += 1;
        }
        proof {
            assert(!old(self).has(id));
        }
        false
    }
}

} // verus!
