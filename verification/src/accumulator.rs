use vstd::prelude::*;

verus! {

/// Error returned when an append would push the accumulator past its fixed
/// capacity.  The offending bytes are rejected whole: nothing is truncated
/// and nothing is overwritten.
#[derive(Clone, Copy, Debug, PartialEq, Eq, Structural)]
pub struct CapacityError;

/// A fixed-capacity byte accumulator.  Bytes are appended at the tail,
/// inspected non-destructively from the front, and consumed destructively
/// from the front by shifting the unconsumed remainder down to index 0.
/// The capacity is chosen at construction time and never changes.
pub struct FixedAccumulator {
    data: Vec<u8>,
    count: usize,
}

impl FixedAccumulator {
    /// The bytes currently buffered, oldest first.
    pub closed spec fn contents(&self) -> Seq<u8> {
        self.data@.take(self.count as int)
    }

    /// The fixed capacity chosen at construction time.
    pub closed spec fn cap(&self) -> nat {
        self.data@.len()
    }

    /// Well-formedness: the count of valid bytes never exceeds the capacity.
    pub closed spec fn wf(&self) -> bool {
        self.count <= self.data@.len()
    }

    /// An empty accumulator with the given capacity.
    pub fn new(capacity: usize) -> (a: Self)
        ensures
            a.wf(),
            a.contents() == Seq::<u8>::empty(),
            a.cap() == capacity as nat,
    {
        let data: Vec<u8> = vec![0u8; capacity];
        let a = FixedAccumulator { data, count: 0 };
        proof {
            assert(a.contents() =~= Seq::<u8>::empty());
        }
        a
    }

    /// How many valid bytes are currently buffered.
    pub fn remaining(&self) -> (r: usize)
        requires
            self.wf(),
        ensures
            r == self.contents().len(),
    {
        self.count
    }

    /// The capacity chosen at construction time.
    pub fn capacity(&self) -> (c: usize)
        ensures
            c == self.cap(),
    {
        self.data.len()
    }

    /// Copies `bytes` into the tail of the accumulator.  Succeeds exactly
    /// when the new bytes fit within the fixed capacity; otherwise the
    /// buffer is left unchanged and a `CapacityError` is returned.
    pub fn append(&mut self, bytes: &[u8]) -> (r: Result<(), CapacityError>)
        requires
            old(self).wf(),
        ensures
            final(self).wf(),
            final(self).cap() == old(self).cap(),
            old(self).contents().len() + bytes@.len() <= old(self).cap() ==> {
                &&& r is Ok
                &&& final(self).contents() == old(self).contents() + bytes@
            },
            old(self).contents().len() + bytes@.len() > old(self).cap() ==> {
                &&& r is Err
                &&& final(self).contents() == old(self).contents()
            },
    {
        let n = bytes.len();
        if n > self.data.len() - self.count {
            return Err(CapacityError);
        }
        let mut i: usize = 0;
        while i < n
            invariant
                i <= n,
                n == bytes@.len(),
                self.count == old(self).count,
                self.count + n <= self.data@.len(),
                self.count + n <= usize::MAX,
                self.data@.len() == old(self).data@.len(),
                forall|j: int| 0 <= j < self.count ==> self.data@[j] == old(self).data@[j],
                forall|j: int| 0 <= j < i ==> self.data@[self.count + j] == bytes@[j],
            decreases n - i,
        {
            let b = bytes[i];
            let idx = self.count + i;
            self.data[idx] = b;
            i += 1;
        }
        self.count = self.count + n;
        proof {
            assert(self.contents() =~= old(self).contents() + bytes@);
        }
        Ok(())
    }

    /// The first buffered byte, without mutating anything; `None` exactly
    /// when the accumulator is empty.
    pub fn peek_front(&self) -> (r: Option<u8>)
        requires
            self.wf(),
        ensures
            match r {
                Some(b) => self.contents().len() > 0 && b == self.contents()[0],
                None => self.contents().len() == 0,
            },
    {
        if self.count > 0 {
            Some(self.data[0])
        } else {
            None
        }
    }

    /// The buffered byte at offset `i` from the front, without mutating
    /// anything.
    pub fn byte_at(&self, i: usize) -> (b: u8)
        requires
            self.wf(),
            i < self.contents().len(),
        ensures
            b == self.contents()[i as int],
    {
        self.data[i]
    }

    /// Removes the first `n` bytes by shifting the remainder down to start
    /// at index 0.
    pub fn consume_front(&mut self, n: usize)
        requires
            old(self).wf(),
            n <= old(self).contents().len(),
        ensures
            final(self).wf(),
            final(self).cap() == old(self).cap(),
            final(self).contents() == old(self).contents().skip(n as int),
    {
        let mut i: usize = n;
        while i < self.count
            invariant
                n <= i,
                self.count <= self.data@.len(),
                self.count == old(self).count,
                n <= self.count,
                self.data@.len() == old(self).data@.len(),
                forall|j: int| 0 <= j < i - n ==> self.data@[j] == old(self).data@[n + j],
                forall|j: int| i <= j < self.data@.len() ==> self.data@[j] == old(self).data@[j],
            decreases self.count - i,
        {
            let b = self.data[i];
            let idx = i - n;
            self.data[idx] = b;
            i += 1;
        }
        self.count = self.count - n;
        proof {
            assert(self.contents() =~= old(self).contents().skip(n as int));
        }
    }
}

/// Capacity law, the order half: appends accumulate without loss or
/// reordering.  After appending `b1` and then `b2` to contents `c`, the
/// length is the cumulative size, every earlier byte keeps its place, and
/// the new bytes follow in arrival order.  (The rejection half — an append
/// past the capacity fails and changes nothing — is what `append` itself
/// ensures.)
pub proof fn lemma_append_preserves_order(c: Seq<u8>, b1: Seq<u8>, b2: Seq<u8>)
    ensures
        (c + b1 + b2).len() == c.len() + b1.len() + b2.len(),
        forall|i: int| 0 <= i < c.len() ==> (c + b1 + b2)[i] == c[i],
        forall|i: int| 0 <= i < b1.len() ==> (c + b1 + b2)[c.len() + i] == b1[i],
        forall|i: int| 0 <= i < b2.len() ==> (c + b1 + b2)[c.len() + b1.len() + i] == b2[i],
{
}

/// Consume law: after appending `b` to an empty accumulator and consuming
/// the first `n ≤ |b|` bytes, exactly `|b| - n` bytes remain, and if any
/// do, the byte now at the front is `b[n]`.
pub proof fn lemma_consume_after_append(b: Seq<u8>, n: int)
    requires
        0 <= n <= b.len(),
    ensures
        (Seq::<u8>::empty() + b).skip(n).len() == b.len() - n,
        n < b.len() ==> (Seq::<u8>::empty() + b).skip(n)[0] == b[n],
{
    assert(Seq::<u8>::empty() + b =~= b);
}

} // verus!
