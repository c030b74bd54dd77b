//! Length-prefixed framing shared by the relay and the peers: every frame is
//! a four-byte little-endian payload length followed by the payload.

use vstd::prelude::*;

verus! {

/// The four little-endian bytes of `n`.
pub open spec fn le_bytes(n: nat) -> Seq<u8> {
    seq![
        (n % 256) as u8,
        ((n / 256) % 256) as u8,
        ((n / 65536) % 256) as u8,
        ((n / 16777216) % 256) as u8,
    ]
}

/// The number that the first four bytes of `b` hold, little-endian.
pub open spec fn prefix_len(b: Seq<u8>) -> nat {
    (b[0] as nat) + 256 * (b[1] as nat) + 65536 * (b[2] as nat) + 16777216 * (b[3] as nat)
}

/// The frame that carries `p`.
pub open spec fn frame_of(p: Seq<u8>) -> Seq<u8> {
    le_bytes(p.len()) + p
}

/// A whole frame stands at the front of `b`.
pub open spec fn frame_ready(b: Seq<u8>) -> bool {
    b.len() >= 4 && b.len() >= 4 + prefix_len(b)
}

/// The payload of the frame at the front of `b` and what follows it, if a
/// whole frame is there.
pub open spec fn split_frame(b: Seq<u8>) -> Option<(Seq<u8>, Seq<u8>)> {
    if frame_ready(b) {
        Some((b.subrange(4, 4 + prefix_len(b) as int), b.subrange(4 + prefix_len(b) as int, b.len() as int)))
    } else {
        None
    }
}

/// The payloads held by `fs`.
pub open spec fn views(fs: Seq<Vec<u8>>) -> Seq<Seq<u8>> {
    fs.map_values(|v: Vec<u8>| v@)
}

/// Every payload fits a four-byte length prefix.
pub open spec fn frameable(ps: Seq<Seq<u8>>) -> bool {
    forall|i: int| 0 <= i < ps.len() ==> (#[trigger] ps[i]).len() <= u32::MAX
}

/// The frames of the payloads `ps`, one after the other.
pub open spec fn concat_frames(ps: Seq<Seq<u8>>) -> Seq<u8>
    decreases ps.len(),
{
    if ps.len() == 0 {
        Seq::empty()
    } else {
        concat_frames(ps.drop_last()) + frame_of(ps.last())
    }
}

proof fn lemma_le_bytes_prefix(n: nat)
    requires
        n <= u32::MAX,
    ensures
        prefix_len(le_bytes(n)) == n,
{
    let b = le_bytes(n);
    assert(prefix_len(b) == n % 256 + 256 * ((n / 256) % 256) + 65536 * ((n / 65536) % 256)
        + 16777216 * ((n / 16777216) % 256));
    assert(n % 256 + 256 * ((n / 256) % 256) + 65536 * ((n / 65536) % 256) + 16777216 * ((n
        / 16777216) % 256) == n) by (nonlinear_arith)
        requires
            n <= 0xffff_ffff,
    ;
}

/// Unframing a framed payload gives the payload back and leaves whatever
/// followed the frame in the buffer untouched.
pub proof fn lemma_frame_round_trip(p: Seq<u8>, rest: Seq<u8>)
    requires
        p.len() <= u32::MAX,
    ensures
        split_frame(frame_of(p) + rest) == Some((p, rest)),
{
    lemma_le_bytes_prefix(p.len());
    let b = frame_of(p) + rest;
    assert(b.subrange(0, 4) =~= le_bytes(p.len()));
    assert(prefix_len(b) == prefix_len(le_bytes(p.len())));
    assert(b.subrange(4, 4 + p.len() as int) =~= p);
    assert(b.subrange(4 + p.len() as int, b.len() as int) =~= rest);
}

/// A buffer whose length prefix announces more bytes than it holds yields no
/// frame: nothing is taken until the rest arrives.
pub proof fn lemma_incomplete_frame_waits(b: Seq<u8>)
    requires
        b.len() < 4 || b.len() < 4 + prefix_len(b),
    ensures
        split_frame(b).is_none(),
{
}

/// The frame that carries `payload`: its length as four little-endian bytes,
/// then the payload.
pub fn encode_frame(payload: &Vec<u8>) -> (r: Vec<u8>)
    requires
        payload.len() <= u32::MAX,
    ensures
        r@ == frame_of(payload@),
{
    let n: u32 = payload.len() as u32;
    let mut r: Vec<u8> = Vec::new();
    r.push((n % 256) as u8);
    r.push(((n / 256) % 256) as u8);
    r.push(((n / 65536) % 256) as u8);
    r.push(((n / 16777216) % 256) as u8);
    assert(r@ =~= le_bytes(payload@.len()));
    let mut i: usize = 0;
    while i < payload.len()
        invariant
            i <= payload.len(),
            r@ =~= le_bytes(payload@.len()) + payload@.subrange(0, i as int),
        decreases payload.len() - i,
    {
        r.push(payload[i]);
        i = i + 1;
    }
    assert(payload@.subrange(0, payload.len() as int) =~= payload@);
    r
}

/// Bytes received on a connection that are not yet a whole frame.
pub struct FrameBuffer {
    bytes: Vec<u8>,
}

impl View for FrameBuffer {
    type V = Seq<u8>;

    closed spec fn view(&self) -> Seq<u8> {
        self.bytes@
    }
}

impl FrameBuffer {
    pub fn new() -> (r: FrameBuffer)
        ensures
            r@ == Seq::<u8>::empty(),
    {
        FrameBuffer { bytes: Vec::new() }
    }

    /// Number of buffered bytes.
    pub fn len(&self) -> (r: usize)
        ensures
            r == self@.len(),
    {
        self.bytes.len()
    }

    /// Appends received bytes.
    pub fn push(&mut self, data: &[u8])
        ensures
            final(self)@ == old(self)@ + data@,
    {
        let ghost start = self.bytes@;
        let mut i: usize = 0;
        while i < data.len()
            invariant
                i <= data@.len(),
                self.bytes@ =~= start + data@.subrange(0, i as int),
            decreases data.len() - i,
        {
            self.bytes.push(data[i]);
            i = i + 1;
        }
        assert(data@.subrange(0, data@.len() as int) =~= data@);
    }

    /// Takes the payload of the first frame if the whole frame has arrived;
    /// otherwise takes nothing.
    pub fn next_frame(&mut self) -> (r: Option<Vec<u8>>)
        ensures
            match split_frame(old(self)@) {
                Some((p, rest)) => r.is_some() && r.unwrap()@ == p && final(self)@ == rest,
                None => r.is_none() && final(self)@ == old(self)@,
            },
    {
        if self.bytes.len() < 4 {
            return None;
        }
        let n: u64 = self.bytes[0] as u64 + 256 * self.bytes[1] as u64 + 65536
            * self.bytes[2] as u64 + 16777216 * self.bytes[3] as u64;
        assert(n == prefix_len(self@));
        if (self.bytes.len() as u64) < 4 + n {
            return None;
        }
        let end: usize = (4 + n) as usize;
        let rest = self.bytes.split_off(end);
        let payload = self.bytes.split_off(4);
        self.bytes = rest;
        Some(payload)
    }

    /// Takes every whole frame that has arrived, in order, and leaves the
    /// incomplete remainder.
    pub fn drain_frames(&mut self) -> (r: Vec<Vec<u8>>)
        ensures
            old(self)@ == concat_frames(views(r@)) + final(self)@,
            frameable(views(r@)),
            !frame_ready(final(self)@),
    {
        let mut out: Vec<Vec<u8>> = Vec::new();
        loop
            invariant
                old(self)@ == concat_frames(views(out@)) + self@,
                frameable(views(out@)),
            decreases self@.len(),
        {
            let ghost before = self@;
            let ghost out_before = out@;
            match self.next_frame() {
                Some(p) => {
                    proof {
                        lemma_take_frame(views(out_before), p@, before, self@, old(self)@);
                    }
                    out.push(p);
                    proof {
                        assert(views(out@) =~= views(out_before).push(p@));
                    }
                },
                None => {
                    return out;
                },
            }
        }
    }
}

proof fn lemma_take_frame(done: Seq<Seq<u8>>, p: Seq<u8>, before: Seq<u8>, after: Seq<u8>, whole: Seq<u8>)
    requires
        whole == concat_frames(done) + before,
        frameable(done),
        split_frame(before) == Some((p, after)),
    ensures
        whole == concat_frames(done.push(p)) + after,
        frameable(done.push(p)),
{
    assert(prefix_len(before) <= u32::MAX);
    lemma_le_bytes_prefix(p.len());
    assert(before.subrange(0, 4) =~= le_bytes(p.len()));
    assert(frame_of(p) + after =~= before);
    assert(done.push(p).drop_last() =~= done);
    assert(whole =~= concat_frames(done.push(p)) + after);
    assert forall|i: int| 0 <= i < done.push(p).len() implies (#[trigger] done.push(p)[i]).len()
        <= u32::MAX by {
        if i < done.len() {
            assert(done.push(p)[i] == done[i]);
        }
    }
}

/// The frames of `ps + qs` are those of `ps` followed by those of `qs`.
pub proof fn lemma_concat_frames_add(ps: Seq<Seq<u8>>, qs: Seq<Seq<u8>>)
    ensures
        concat_frames(ps + qs) == concat_frames(ps) + concat_frames(qs),
    decreases qs.len(),
{
    if qs.len() == 0 {
        assert(ps + qs =~= ps);
        assert(concat_frames(ps) + Seq::<u8>::empty() =~= concat_frames(ps));
    } else {
        lemma_concat_frames_add(ps, qs.drop_last());
        assert((ps + qs).drop_last() =~= ps + qs.drop_last());
        assert((ps + qs).last() == qs.last());
        assert(concat_frames(ps + qs) =~= concat_frames(ps) + concat_frames(qs));
    }
}

/// The frames of a non-empty list start with the frame of its first payload.
proof fn lemma_concat_frames_front(ps: Seq<Seq<u8>>)
    requires
        ps.len() > 0,
    ensures
        concat_frames(ps) == frame_of(ps[0]) + concat_frames(ps.drop_first()),
{
    lemma_concat_frames_add(seq![ps[0]], ps.drop_first());
    assert(seq![ps[0]] + ps.drop_first() =~= ps);
    let one = seq![ps[0]];
    assert(one.drop_last() =~= Seq::<Seq<u8>>::empty());
    assert(one.last() == ps[0]);
    assert(concat_frames(one.drop_last()) == Seq::<u8>::empty());
    assert(Seq::<u8>::empty() + frame_of(ps[0]) =~= frame_of(ps[0]));
    assert(concat_frames(one) == frame_of(ps[0]));
}

/// Framing parses one way only: bytes that are the frames of `ps` followed
/// by an incomplete remainder, and also the frames of `qs` followed by an
/// incomplete remainder, have `ps == qs` and the same remainder. So draining
/// the frames of several messages gives exactly those messages back, in
/// order, and keeps the incomplete tail.
pub proof fn lemma_drain_gives_back(ps: Seq<Seq<u8>>, rest: Seq<u8>, qs: Seq<Seq<u8>>, left: Seq<u8>)
    requires
        frameable(ps),
        frameable(qs),
        !frame_ready(rest),
        !frame_ready(left),
        concat_frames(ps) + rest == concat_frames(qs) + left,
    ensures
        qs == ps,
        left == rest,
    decreases ps.len() + qs.len(),
{
    if ps.len() == 0 {
        assert(concat_frames(ps) + rest =~= rest);
        if qs.len() > 0 {
            lemma_frames_then_rest(qs, left);
        }
        assert(concat_frames(qs) + left =~= left);
        assert(ps =~= qs);
    } else if qs.len() == 0 {
        lemma_frames_then_rest(ps, rest);
        assert(concat_frames(qs) + left =~= left);
    } else {
        lemma_frames_then_rest(ps, rest);
        lemma_frames_then_rest(qs, left);
        lemma_drain_gives_back(ps.drop_first(), rest, qs.drop_first(), left);
        assert(ps =~= seq![ps[0]] + ps.drop_first());
        assert(qs =~= seq![qs[0]] + qs.drop_first());
    }
}

/// Frames followed by anything start with a whole frame: the first payload.
proof fn lemma_frames_then_rest(ps: Seq<Seq<u8>>, rest: Seq<u8>)
    requires
        frameable(ps),
        ps.len() > 0,
    ensures
        split_frame(concat_frames(ps) + rest) == Some((ps[0], concat_frames(ps.drop_first()) + rest)),
        frame_ready(concat_frames(ps) + rest),
        frameable(ps.drop_first()),
{
    lemma_concat_frames_front(ps);
    let tail = concat_frames(ps.drop_first()) + rest;
    assert(ps[0].len() <= u32::MAX);
    lemma_frame_round_trip(ps[0], tail);
    assert(concat_frames(ps) + rest =~= frame_of(ps[0]) + tail);
    assert forall|i: int| 0 <= i < ps.drop_first().len() implies (#[trigger] ps.drop_first()[i]).len()
        <= u32::MAX by {
        assert(ps.drop_first()[i] == ps[i + 1]);
    }
}

/// One read on a connection: if everything received so far is the frames
/// already taken, `taken`, followed by the buffered bytes `buffered`, and the
/// buffer with the new bytes `read` appended drains into the frames `fresh`
/// leaving `left`, then everything received including `read` is the frames
/// of `taken + fresh` followed by `left`. With the round trip above, however
/// the bytes of framed messages are split across reads, the frames taken
/// are exactly those messages, in order.
pub proof fn lemma_drain_step(
    received: Seq<u8>,
    taken: Seq<Seq<u8>>,
    buffered: Seq<u8>,
    read: Seq<u8>,
    fresh: Seq<Seq<u8>>,
    left: Seq<u8>,
)
    requires
        received == concat_frames(taken) + buffered,
        buffered + read == concat_frames(fresh) + left,
    ensures
        received + read == concat_frames(taken + fresh) + left,
{
    lemma_concat_frames_add(taken, fresh);
    assert(received + read =~= concat_frames(taken) + (buffered + read));
    assert(concat_frames(taken + fresh) + left =~= concat_frames(taken) + (concat_frames(fresh) + left));
}

} // verus!
