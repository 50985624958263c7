use vstd::prelude::*;

use crate::accumulator::FixedAccumulator;

verus! {

/// A frame decoder pairs a readiness predicate with a handler: the
/// predicate decides, from the first buffered byte and the byte count
/// alone, whether a complete logical message has arrived; the handler then
/// consumes that message from the front of the accumulator.
///
/// `ready` and `frame_len` describe the decoder's framing discipline at the
/// specification level, and `handle` is obliged to consume at least one
/// byte whenever it runs and to leave its own framing discipline unchanged,
/// which is what makes the dispatch loop terminate.
pub trait FrameDecoder: Sized {
    /// Does buffered data whose first byte is `first` and whose length is
    /// `count` hold a complete frame?
    spec fn ready(&self, first: u8, count: nat) -> bool;

    /// How many bytes `handle` consumes when the buffered contents are `s`.
    spec fn frame_len(&self, s: Seq<u8>) -> nat;

    /// The executable readiness predicate.
    fn can_handle(&self, first: u8, count: usize) -> (r: bool)
        ensures
            r == self.ready(first, count as nat),
    ;

    /// Consumes exactly one frame from the front of the accumulator.
    fn handle(&mut self, acc: &mut FixedAccumulator)
        requires
            old(acc).wf(),
            old(acc).contents().len() > 0,
            old(self).ready(old(acc).contents()[0], old(acc).contents().len()),
        ensures
            final(acc).wf(),
            final(acc).cap() == old(acc).cap(),
            0 < old(self).frame_len(old(acc).contents()) <= old(acc).contents().len(),
            final(acc).contents() == old(acc).contents().skip(
                old(self).frame_len(old(acc).contents()) as int,
            ),
            forall|f: u8, c: nat| #[trigger] final(self).ready(f, c) == old(self).ready(f, c),
            forall|s: Seq<u8>| #[trigger] final(self).frame_len(s) == old(self).frame_len(s),
    ;
}

/// The bytes left in the buffer after the dispatch loop has run the decoder
/// `d` to quiescence over contents `s`: frames are peeled off the front as
/// long as the readiness predicate accepts.
pub open spec fn spec_remaining<D: FrameDecoder>(d: D, s: Seq<u8>) -> Seq<u8>
    decreases s.len(),
{
    if s.len() > 0 && d.ready(s[0], s.len()) {
        let n = d.frame_len(s);
        if 0 < n <= s.len() {
            spec_remaining(d, s.skip(n as int))
        } else {
            s
        }
    } else {
        s
    }
}

/// How many times the dispatch loop invokes the handler when the decoder
/// `d` runs to quiescence over contents `s`.
pub open spec fn spec_invocations<D: FrameDecoder>(d: D, s: Seq<u8>) -> nat
    decreases s.len(),
{
    if s.len() > 0 && d.ready(s[0], s.len()) {
        let n = d.frame_len(s);
        if 0 < n <= s.len() {
            1 + spec_invocations(d, s.skip(n as int))
        } else {
            0
        }
    } else {
        0
    }
}

/// The frame dispatch loop: repeatedly peek at the front of the
/// accumulator, ask the decoder's readiness predicate, and invoke its
/// handler, until the predicate rejects or the buffer is empty.  Returns
/// how many times the handler ran.
pub fn dispatch_frames<D: FrameDecoder>(acc: &mut FixedAccumulator, decoder: &mut D) -> (n: usize)
    requires
        old(acc).wf(),
    ensures
        final(acc).wf(),
        final(acc).cap() == old(acc).cap(),
        final(acc).contents() == spec_remaining(*old(decoder), old(acc).contents()),
        n == spec_invocations(*old(decoder), old(acc).contents()),
        forall|f: u8, c: nat|
            #[trigger] final(decoder).ready(f, c) == old(decoder).ready(f, c),
        forall|s: Seq<u8>|
            #[trigger] final(decoder).frame_len(s) == old(decoder).frame_len(s),
{
    let ghost d0 = *decoder;
    let ghost s0 = acc.contents();
    let ghost cap0 = acc.cap();
    let rem0 = acc.remaining();
    let mut n: usize = 0;
    loop
        invariant
            acc.wf(),
            acc.cap() == cap0,
            s0.len() == rem0,
            n + acc.contents().len() <= s0.len(),
            forall|f: u8, c: nat| #[trigger] decoder.ready(f, c) == d0.ready(f, c),
            forall|s: Seq<u8>| #[trigger] decoder.frame_len(s) == d0.frame_len(s),
            spec_remaining(d0, s0) == spec_remaining(d0, acc.contents()),
            spec_invocations(d0, s0) == n + spec_invocations(d0, acc.contents()),
        ensures
            acc.wf(),
            acc.cap() == cap0,
            acc.contents() == spec_remaining(d0, s0),
            n == spec_invocations(d0, s0),
            forall|f: u8, c: nat| #[trigger] decoder.ready(f, c) == d0.ready(f, c),
            forall|s: Seq<u8>| #[trigger] decoder.frame_len(s) == d0.frame_len(s),
        decreases acc.contents().len(),
    {
        let rem = acc.remaining();
        if rem == 0 {
            proof {
                assert(spec_remaining(d0, acc.contents()) == acc.contents());
                assert(spec_invocations(d0, acc.contents()) == 0);
            }
            break;
        }
        let first = acc.byte_at(0);
        if !decoder.can_handle(first, rem) {
            proof {
                assert(spec_remaining(d0, acc.contents()) == acc.contents());
                assert(spec_invocations(d0, acc.contents()) == 0);
            }
            break;
        }
        let ghost c = acc.contents();
        let ghost fl = decoder.frame_len(c);
        decoder.handle(acc);
        proof {
            assert(spec_remaining(d0, c) == spec_remaining(d0, c.skip(fl as int)));
            assert(spec_invocations(d0, c) == 1 + spec_invocations(d0, c.skip(fl as int)));
        }
        n = n + 1;
    }
    n
}

/// Framing-loop law for fixed-size frames: with a readiness predicate that
/// accepts exactly when at least `k` bytes are buffered and a handler that
/// consumes exactly `k` bytes per call, contents of length `m * k + r`
/// (with `r < k`) produce exactly `m` handler invocations and leave
/// exactly the final `r` bytes pending.
pub proof fn lemma_fixed_size_framing<D: FrameDecoder>(d: D, s: Seq<u8>, k: nat, m: nat, r: nat)
    requires
        0 < k,
        r < k,
        s.len() == m * k + r,
        forall|f: u8, c: nat| #[trigger] d.ready(f, c) == (c >= k),
        forall|t: Seq<u8>| #[trigger] d.frame_len(t) == k,
    ensures
        spec_invocations(d, s) == m,
        spec_remaining(d, s) == s.skip((m * k) as int),
        spec_remaining(d, s).len() == r,
    decreases m,
{
    if m == 0 {
        assert(m * k == 0) by (nonlinear_arith)
            requires
                m == 0,
        ;
        assert(s.skip((m * k) as int) =~= s);
    } else {
        assert(s.len() >= k) by (nonlinear_arith)
            requires
                s.len() == m * k + r,
                1 <= m,
                0 < k,
        ;
        assert(d.ready(s[0], s.len()));
        assert(d.frame_len(s) == k);
        let rest = s.skip(k as int);
        assert(rest.len() == (m - 1) * k + r) by (nonlinear_arith)
            requires
                rest.len() == s.len() - k,
                s.len() == m * k + r,
                1 <= m,
                0 < k,
        ;
        lemma_fixed_size_framing(d, rest, k, (m - 1) as nat, r);
        assert(spec_invocations(d, s) == 1 + spec_invocations(d, rest));
        assert(spec_remaining(d, s) == spec_remaining(d, rest));
        assert(k + (m - 1) * k == m * k) by (nonlinear_arith)
            requires
                1 <= m,
        ;
        assert(rest.skip(((m - 1) * k) as int) =~= s.skip((m * k) as int)) by {
            vstd::seq_lib::lemma_seq_skip_of_skip(s, k as int, ((m - 1) * k) as int);
        }
    }
}

/// Framing-loop law across chunks: bytes may arrive in separate network
/// chunks, with the dispatch loop run after each.  Feeding `s` and then
/// `t` — the second run starting from what the first left pending — makes
/// as many handler invocations in total, and leaves the same bytes
/// pending, as feeding `s + t` whole.
pub proof fn lemma_fixed_size_framing_chunked<D: FrameDecoder>(
    d: D,
    s: Seq<u8>,
    t: Seq<u8>,
    k: nat,
    m1: nat,
    r1: nat,
    m2: nat,
    r2: nat,
)
    requires
        0 < k,
        r1 < k,
        r2 < k,
        s.len() == m1 * k + r1,
        r1 + t.len() == m2 * k + r2,
        forall|f: u8, c: nat| #[trigger] d.ready(f, c) == (c >= k),
        forall|u: Seq<u8>| #[trigger] d.frame_len(u) == k,
    ensures
        spec_invocations(d, s) + spec_invocations(d, spec_remaining(d, s) + t) == m1 + m2,
        spec_invocations(d, s + t) == m1 + m2,
        spec_remaining(d, spec_remaining(d, s) + t) == spec_remaining(d, s + t),
{
    lemma_fixed_size_framing(d, s, k, m1, r1);
    let pend = spec_remaining(d, s);
    let u = pend + t;
    lemma_fixed_size_framing(d, u, k, m2, r2);
    assert((s + t).len() == (m1 + m2) * k + r2) by (nonlinear_arith)
        requires
            (s + t).len() == s.len() + t.len(),
            s.len() == m1 * k + r1,
            r1 + t.len() == m2 * k + r2,
    ;
    lemma_fixed_size_framing(d, s + t, k, (m1 + m2) as nat, r2);
    assert((m1 + m2) * k == m1 * k + m2 * k) by (nonlinear_arith);
    assert(u.skip((m2 * k) as int) =~= (s + t).skip(((m1 + m2) * k) as int)) by {
        assert(m1 * k <= s.len());
        assert forall|i: int| 0 <= i < u.skip((m2 * k) as int).len() implies #[trigger] u.skip(
            (m2 * k) as int,
        )[i] == (s + t).skip(((m1 + m2) * k) as int)[i] by {
            let j = m2 * k + i;
            assert(u.skip((m2 * k) as int)[i] == u[j]);
            if j < r1 {
                assert(u[j] == pend[j]);
                assert(pend[j] == s[m1 * k + j]);
            } else {
                assert(u[j] == t[j - r1]);
            }
        }
    }
}

} // verus!
