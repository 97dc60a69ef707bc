//! The binary segment format: a header (format version, then the producing
//! program's name as a frame) followed by length-prefixed frames.
use vstd::prelude::*;

use crate::error::StoreError;

verus! {

/// The format-version marker at the start of every binary segment.
pub const BINARY_VERSION: u32 = 1;

/// Largest payload length that the 32-bit length field can hold.
pub open spec fn max_frame_len() -> nat {
    u32::MAX as nat
}

/// `n` as four little-endian bytes.
pub open spec fn le32(n: nat) -> Seq<u8> {
    seq![(n % 256) as u8, (n / 256 % 256) as u8, (n / 65536 % 256) as u8, (n / 16777216 % 256) as u8]
}

/// The number that four little-endian bytes hold.
pub open spec fn le32_value(b: Seq<u8>) -> nat {
    (b[0] + 256 * b[1] + 65536 * b[2] + 16777216 * b[3]) as nat
}

/// One frame: the payload's length, then the payload.
pub open spec fn frame(p: Seq<u8>) -> Seq<u8> {
    le32(p.len()) + p
}

/// Frames one after another.
pub open spec fn frames(ps: Seq<Seq<u8>>) -> Seq<u8>
    decreases ps.len(),
{
    if ps.len() == 0 {
        Seq::empty()
    } else {
        frame(ps[0]) + frames(ps.drop_first())
    }
}

/// The header of a binary segment written by program `name`.
pub open spec fn header(name: Seq<u8>) -> Seq<u8> {
    le32(BINARY_VERSION as nat) + frame(name)
}

/// A whole binary segment: header, then the payload frames.
pub open spec fn segment(name: Seq<u8>, ps: Seq<Seq<u8>>) -> Seq<u8> {
    header(name) + frames(ps)
}

/// Every payload fits the length field.
pub open spec fn all_framable(ps: Seq<Seq<u8>>) -> bool {
    forall|i: int| 0 <= i < ps.len() ==> #[trigger] ps[i].len() <= max_frame_len()
}

/// Reads frames up to the end of `b`; `None` where a length field is cut
/// short or announces more bytes than remain.
pub open spec fn decode_frames(b: Seq<u8>) -> Option<Seq<Seq<u8>>>
    decreases b.len(),
{
    if b.len() == 0 {
        Some(Seq::empty())
    } else if b.len() < 4 {
        None
    } else {
        let n = le32_value(b.take(4)) as int;
        if 4 + n > b.len() {
            None
        } else {
            match decode_frames(b.skip(4 + n)) {
                Some(rest) => Some(seq![b.subrange(4, 4 + n)] + rest),
                None => None,
            }
        }
    }
}

/// Reads a binary segment: the program name and the payloads, or `None`
/// where the version marker or the framing is wrong.
pub open spec fn decode_segment(b: Seq<u8>) -> Option<(Seq<u8>, Seq<Seq<u8>>)> {
    if b.len() < 4 || le32_value(b.take(4)) != BINARY_VERSION {
        None
    } else {
        match decode_frames(b.skip(4)) {
            Some(fs) => if fs.len() >= 1 {
                Some((fs[0], fs.drop_first()))
            } else {
                None
            },
            None => None,
        }
    }
}

pub proof fn lemma_le32_round_trip(n: nat)
    requires
        n <= u32::MAX,
    ensures
        le32(n).len() == 4,
        le32_value(le32(n)) == n,
{
    let b = le32(n);
    let a0 = n % 256;
    let q0 = n / 256;
    let a1 = q0 % 256;
    let q1 = q0 / 256;
    let a2 = q1 % 256;
    let q2 = q1 / 256;
    let a3 = q2 % 256;
    assert(n == a0 + 256 * q0);
    assert(q0 == a1 + 256 * q1);
    assert(q1 == a2 + 256 * q2);
    assert(q2 < 256);
    assert(a3 == q2);
    assert(n / 65536 == q1) by {
        vstd::arithmetic::div_mod::lemma_div_denominator(n as int, 256, 256);
    }
    assert(n / 16777216 == q2) by {
        vstd::arithmetic::div_mod::lemma_div_denominator(n as int, 65536, 256);
        vstd::arithmetic::div_mod::lemma_div_denominator(n as int, 256, 256);
    }
    assert(b[0] == a0 && b[1] == a1 && b[2] == a2 && b[3] == a3);
}

/// Framed payloads read back as the same payloads, in the same order.
pub proof fn lemma_frames_round_trip(ps: Seq<Seq<u8>>)
    requires
        all_framable(ps),
    ensures
        decode_frames(frames(ps)) == Some(ps),
    decreases ps.len(),
{
    if ps.len() == 0 {
        assert(frames(ps) =~= Seq::<u8>::empty());
    } else {
        let p = ps[0];
        let rest = ps.drop_first();
        assert(all_framable(rest)) by {
            assert forall|i: int| 0 <= i < rest.len() implies #[trigger] rest[i].len()
                <= max_frame_len() by {
                assert(rest[i] == ps[i + 1]);
            }
        }
        lemma_frames_round_trip(rest);
        lemma_le32_round_trip(p.len());
        let b = frames(ps);
        assert(b =~= le32(p.len()) + p + frames(rest));
        assert(b.take(4) =~= le32(p.len()));
        assert(b.subrange(4, 4 + p.len() as int) =~= p);
        assert(b.skip(4 + p.len() as int) =~= frames(rest));
        assert(seq![p] + rest =~= ps);
    }
}

/// Round trip of a binary segment: decoding what was written gives back the
/// program name and every payload, byte for byte, in write order.
pub proof fn lemma_segment_round_trip(name: Seq<u8>, ps: Seq<Seq<u8>>)
    requires
        name.len() <= max_frame_len(),
        all_framable(ps),
    ensures
        decode_segment(segment(name, ps)) == Some((name, ps)),
{
    let all = seq![name] + ps;
    assert(all_framable(all)) by {
        assert forall|i: int| 0 <= i < all.len() implies #[trigger] all[i].len()
            <= max_frame_len() by {
            if i > 0 {
                assert(all[i] == ps[i - 1]);
            }
        }
    }
    lemma_frames_round_trip(all);
    lemma_le32_round_trip(BINARY_VERSION as nat);
    assert(all.drop_first() =~= ps);
    let b = segment(name, ps);
    assert(frames(all) =~= frame(name) + frames(ps));
    assert(b.take(4) =~= le32(BINARY_VERSION as nat));
    assert(b.skip(4) =~= frames(all));
}

fn push_le32(out: &mut Vec<u8>, n: u32)
    ensures
        final(out)@ == old(out)@ + le32(n as nat),
{
    out.push((n % 256) as u8);
    out.push((n / 256 % 256) as u8);
    out.push((n / 65536 % 256) as u8);
    out.push((n / 16777216 % 256) as u8);
    assert(final(out)@ =~= old(out)@ + le32(n as nat));
}

fn push_bytes(out: &mut Vec<u8>, b: &[u8])
    ensures
        final(out)@ == old(out)@ + b@,
{
    let mut i: usize = 0;
    while i < b.len()
        invariant
            0 <= i <= b@.len(),
            out@ == old(out)@ + b@.subrange(0, i as int),
        decreases b@.len() - i,
    {
        out.push(b[i]);
        i = i + 1;
        assert(out@ =~= old(out)@ + b@.subrange(0, i as int));
    }
    assert(b@.subrange(0, b@.len() as int) =~= b@);
}

/// Frames one payload; `InvalidInput` when its length does not fit the
/// 32-bit length field.
pub fn encode_frame(payload: &[u8]) -> (r: Result<Vec<u8>, StoreError>)
    ensures
        payload@.len() <= max_frame_len() ==> r == Ok::<Vec<u8>, StoreError>(
            r->Ok_0,
        ) && r->Ok_0@ == frame(payload@),
        payload@.len() > max_frame_len() ==> r == Err::<Vec<u8>, StoreError>(
            StoreError::InvalidInput,
        ),
{
    if payload.len() > u32::MAX as usize {
        return Err(StoreError::InvalidInput);
    }
    let mut out: Vec<u8> = Vec::new();
    push_le32(&mut out, payload.len() as u32);
    push_bytes(&mut out, payload);
    assert(out@ =~= frame(payload@));
    Ok(out)
}

/// The header of a binary segment written by program `name`;
/// `InvalidInput` when the name is too long to frame.
pub fn encode_header(name: &[u8]) -> (r: Result<Vec<u8>, StoreError>)
    ensures
        name@.len() <= max_frame_len() ==> r is Ok && r->Ok_0@ == header(name@),
        name@.len() > max_frame_len() ==> r == Err::<Vec<u8>, StoreError>(
            StoreError::InvalidInput,
        ),
{
    if name.len() > u32::MAX as usize {
        return Err(StoreError::InvalidInput);
    }
    let mut out: Vec<u8> = Vec::new();
    push_le32(&mut out, BINARY_VERSION);
    push_le32(&mut out, name.len() as u32);
    push_bytes(&mut out, name);
    assert(out@ =~= header(name@));
    Ok(out)
}

fn read_le32(b: &[u8], pos: usize) -> (r: u32)
    requires
        pos + 4 <= b@.len(),
    ensures
        r == le32_value(b@.subrange(pos as int, pos + 4)),
{
    let v: u64 = b[pos] as u64 + 256 * (b[pos + 1] as u64) + 65536 * (b[pos + 2] as u64)
        + 16777216 * (b[pos + 3] as u64);
    v as u32
}

/// `acc` followed by what `rest` decodes to.
pub open spec fn after(acc: Seq<Seq<u8>>, rest: Option<Seq<Seq<u8>>>) -> Option<Seq<Seq<u8>>> {
    match rest {
        Some(r) => Some(acc + r),
        None => None,
    }
}

/// Reads all frames of `b`; `None` on broken framing.
pub fn read_frames(b: &[u8]) -> (r: Option<Vec<Vec<u8>>>)
    ensures
        r is Some <==> decode_frames(b@) is Some,
        r matches Some(v) ==> v.len() == decode_frames(b@)->Some_0.len() && forall|i: int|
            0 <= i < v.len() ==> #[trigger] v[i]@ == decode_frames(b@)->Some_0[i],
{
    let mut out: Vec<Vec<u8>> = Vec::new();
    let ghost mut acc: Seq<Seq<u8>> = Seq::empty();
    let mut pos: usize = 0;
    proof {
        assert(b@.skip(0) =~= b@);
        if let Some(r) = decode_frames(b@) {
            assert(acc + r =~= r);
        }
    }
    while pos < b.len()
        invariant
            0 <= pos <= b@.len(),
            out.len() == acc.len(),
            forall|i: int| 0 <= i < out.len() ==> #[trigger] out[i]@ == acc[i],
            decode_frames(b@) == after(acc, decode_frames(b@.skip(pos as int))),
        decreases b@.len() - pos,
    {
        let ghost rest = b@.skip(pos as int);
        if b.len() - pos < 4 {
            return None;
        }
        let n = read_le32(b, pos);
        assert(rest.take(4) =~= b@.subrange(pos as int, pos + 4));
        if n as usize > b.len() - pos - 4 {
            return None;
        }
        let end = pos + 4 + n as usize;
        let piece = vstd::slice::slice_to_vec(vstd::slice::slice_subrange(b, pos + 4, end));
        assert(rest.subrange(4, 4 + n as int) =~= piece@);
        assert(rest.skip(4 + n as int) =~= b@.skip(end as int));
        proof {
            assert(acc.push(piece@) =~= acc + seq![piece@]);
            match decode_frames(b@.skip(end as int)) {
                Some(r) => {
                    assert(acc + (seq![piece@] + r) =~= acc.push(piece@) + r);
                },
                None => {},
            }
            acc = acc.push(piece@);
        }
        out.push(piece);
        pos = end;
    }
    assert(b@.skip(pos as int) =~= Seq::<u8>::empty());
    assert(acc + Seq::<Seq<u8>>::empty() =~= acc);
    Some(out)
}

/// Reads a binary segment: the program name from the header, then every
/// payload; `None` where the version marker or the framing is wrong.
pub fn read_segment(b: &[u8]) -> (r: Option<(Vec<u8>, Vec<Vec<u8>>)>)
    ensures
        r is Some <==> decode_segment(b@) is Some,
        r matches Some((name, ps)) ==> {
            let (n, qs) = decode_segment(b@)->Some_0;
            &&& name@ == n
            &&& ps.len() == qs.len()
            &&& forall|i: int| 0 <= i < ps.len() ==> #[trigger] ps[i]@ == qs[i]
        },
{
    if b.len() < 4 {
        return None;
    }
    let v = read_le32(b, 0);
    assert(b@.take(4) =~= b@.subrange(0, 4));
    if v != BINARY_VERSION {
        return None;
    }
    let rest = vstd::slice::slice_subrange(b, 4, b.len());
    assert(rest@ =~= b@.skip(4));
    match read_frames(rest) {
        Some(mut fs) => {
            if fs.len() == 0 {
                return None;
            }
            let ghost before = fs@;
            let name = fs.remove(0);
            proof {
                let qs = decode_frames(b@.skip(4))->Some_0;
                assert forall|i: int| 0 <= i < fs.len() implies #[trigger] fs[i]@
                    == qs.drop_first()[i] by {
                    assert(fs[i] == before[i + 1]);
                }
            }
            Some((name, fs))
        },
        None => None,
    }
}

} // verus!
