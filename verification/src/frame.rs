//! Length-prefixed frames between the daemons: a 4-byte little-endian body
//! length followed by the body, and the reassembly of frames from a stream.
use vstd::prelude::*;

verus! {

/// The largest body a frame may carry.
pub const MAX_FRAME_LEN: usize = 4 * 1024 * 1024;

/// The value of four little-endian bytes.
pub open spec fn le_value(b: Seq<u8>) -> int {
    b[0] as int + b[1] as int * 256 + b[2] as int * 65536 + b[3] as int * 16777216
}

/// The four little-endian bytes of a value below 2^32.
pub open spec fn le_bytes(v: int) -> Seq<u8> {
    seq![
        (v % 256) as u8,
        ((v / 256) % 256) as u8,
        ((v / 65536) % 256) as u8,
        ((v / 16777216) % 256) as u8,
    ]
}

/// Reading back four little-endian bytes gives the value that was written.
pub proof fn lemma_le_roundtrip(v: int)
    requires
        0 <= v < 0x1_0000_0000,
    ensures
        le_value(le_bytes(v)) == v,
        le_bytes(v).len() == 4,
{
    let b = le_bytes(v);
    assert(b[0] as int == v % 256);
    assert(b[1] as int == (v / 256) % 256);
    assert(b[2] as int == (v / 65536) % 256);
    assert(b[3] as int == (v / 16777216) % 256);
    assert(v % 256 + ((v / 256) % 256) * 256 + ((v / 65536) % 256) * 65536 + ((v / 16777216)
        % 256) * 16777216 == v) by (nonlinear_arith)
        requires
            0 <= v < 0x1_0000_0000,
    ;
}

/// `u32::to_le_bytes`.
pub fn u32_le_bytes(v: u32) -> (r: Vec<u8>)
    ensures
        r@ == le_bytes(v as int),
{
    let mut r: Vec<u8> = Vec::new();
    r.push((v % 256) as u8);
    r.push(((v / 256) % 256) as u8);
    r.push(((v / 65536) % 256) as u8);
    r.push(((v / 16777216) % 256) as u8);
    assert(r@ =~= le_bytes(v as int));
    r
}

/// `u32::from_le_bytes` on the first four bytes.
pub fn u32_from_le(b: &[u8]) -> (r: u32)
    requires
        b@.len() >= 4,
    ensures
        r as int == le_value(b@),
{
    b[0] as u32 + b[1] as u32 * 256 + b[2] as u32 * 65536 + b[3] as u32 * 16777216
}

/// The length prefix `write_frame` puts before a body of `len` bytes: the
/// four little-endian bytes of `len` truncated to 32 bits.
pub fn length_prefix(len: usize) -> (r: Vec<u8>)
    ensures
        r@ == le_bytes(len as int % 0x1_0000_0000),
{
    let v: u64 = len as u64 % 0x1_0000_0000;
    u32_le_bytes(v as u32)
}

/// The frame that carries `body`.
pub open spec fn frame_of(body: Seq<u8>) -> Seq<u8> {
    le_bytes(body.len() as int) + body
}

/// Why a body cannot be framed: it is longer than the limit (its length).
#[derive(Debug, Clone, Copy, PartialEq, Eq, Structural)]
pub enum FrameEncodeError {
    TooLong(usize),
}

/// Encodes a body as a frame; a body longer than the limit is an error.
pub fn frame_encode(body: &[u8]) -> (r: Result<Vec<u8>, FrameEncodeError>)
    ensures
        body@.len() <= MAX_FRAME_LEN ==> (r matches Ok(f) && f@ == frame_of(body@)),
        body@.len() > MAX_FRAME_LEN ==> r == Err::<Vec<u8>, FrameEncodeError>(
            FrameEncodeError::TooLong(body@.len() as usize),
        ),
{
    if body.len() > MAX_FRAME_LEN {
        return Err(FrameEncodeError::TooLong(body.len()));
    }
    let mut out = u32_le_bytes(body.len() as u32);
    let mut i: usize = 0;
    while i < body.len()
        invariant
            i <= body@.len(),
            body@.len() <= MAX_FRAME_LEN,
            out@ == le_bytes(body@.len() as int) + body@.take(i as int),
        decreases body@.len() - i,
    {
        out.push(body[i]);
        assert(body@.take(i + 1) =~= body@.take(i as int).push(body@[i as int]));
        i = i + 1;
    }
    assert(body@.take(body@.len() as int) =~= body@);
    Ok(out)
}

/// The declared MessagePack error type of `rmp_serde`, carried by a frame
/// whose body failed to deserialize.
#[verifier::external_type_specification]
#[verifier::external_body]
pub struct ExRmpDecodeError(rmp_serde::decode::Error);

/// Why a buffer is not a well-formed frame.
#[derive(Debug)]
pub enum FrameDecodeError {
    TooShort,
    TooLong(usize),
    LengthMismatch { declared: usize, actual: usize },
    Deserialize(rmp_serde::decode::Error),
}

/// Checks that `buf` is exactly one frame and gives back its body: a buffer
/// shorter than the header is too short; a declared length that differs from
/// the body's is a mismatch; a matching length above the limit is too long.
pub fn frame_decode(buf: &[u8]) -> (r: Result<Vec<u8>, FrameDecodeError>)
    ensures
        buf@.len() < 4 ==> r matches Err(FrameDecodeError::TooShort),
        buf@.len() >= 4 && le_value(buf@) != buf@.len() - 4 ==> (r matches Err(
            FrameDecodeError::LengthMismatch { declared, actual }) && declared == le_value(buf@)
            && actual == buf@.len() - 4),
        buf@.len() >= 4 && le_value(buf@) == buf@.len() - 4 && le_value(buf@) > MAX_FRAME_LEN
            ==> (r matches Err(FrameDecodeError::TooLong(n)) && n == le_value(buf@)),
        buf@.len() >= 4 && le_value(buf@) == buf@.len() - 4 && le_value(buf@) <= MAX_FRAME_LEN
            ==> (r matches Ok(body) && body@ == buf@.skip(4)),
{
    if buf.len() < 4 {
        return Err(FrameDecodeError::TooShort);
    }
    let declared = u32_from_le(buf) as usize;
    let actual = buf.len() - 4;
    if actual != declared {
        return Err(FrameDecodeError::LengthMismatch { declared, actual });
    }
    if declared > MAX_FRAME_LEN {
        return Err(FrameDecodeError::TooLong(declared));
    }
    let mut body: Vec<u8> = Vec::new();
    let mut i: usize = 4;
    while i < buf.len()
        invariant
            4 <= i <= buf@.len(),
            body@ == buf@.subrange(4, i as int),
        decreases buf@.len() - i,
    {
        body.push(buf[i]);
        assert(buf@.subrange(4, i + 1) =~= buf@.subrange(4, i as int).push(buf@[i as int]));
        i = i + 1;
    }
    assert(buf@.subrange(4, buf@.len() as int) =~= buf@.skip(4));
    Ok(body)
}

/// A frame's body comes back out of it unchanged.
pub proof fn lemma_frame_roundtrip(body: Seq<u8>)
    requires
        body.len() <= MAX_FRAME_LEN,
    ensures
        frame_of(body).len() >= 4,
        le_value(frame_of(body)) == frame_of(body).len() - 4,
        le_value(frame_of(body)) <= MAX_FRAME_LEN,
        frame_of(body).skip(4) == body,
{
    lemma_le_roundtrip(body.len() as int);
    let f = frame_of(body);
    assert(f.take(4) =~= le_bytes(body.len() as int));
    assert(f[0] == le_bytes(body.len() as int)[0]);
    assert(f[1] == le_bytes(body.len() as int)[1]);
    assert(f[2] == le_bytes(body.len() as int)[2]);
    assert(f[3] == le_bytes(body.len() as int)[3]);
    assert(f.skip(4) =~= body);
}

/// Reassembly of a byte stream into frames: complete frames are cut off the
/// front in order; an incomplete frame stays buffered; a header that declares
/// more than the limit discards everything buffered.
/// The result is (frames cut, bytes left buffered, limit exceeded).
pub open spec fn split_spec(buf: Seq<u8>) -> (Seq<Seq<u8>>, Seq<u8>, bool)
    decreases buf.len(),
{
    if buf.len() < 4 {
        (seq![], buf, false)
    } else if le_value(buf) > MAX_FRAME_LEN {
        (seq![], seq![], true)
    } else if buf.len() < 4 + le_value(buf) {
        (seq![], buf, false)
    } else {
        let end = 4 + le_value(buf);
        let rest = split_spec(buf.skip(end));
        (seq![buf.take(end)] + rest.0, rest.1, rest.2)
    }
}

/// Cuts every complete frame off the front of `buf`, leaving an incomplete
/// frame buffered; reports `true` (and empties the buffer) when a header
/// declares a body above the limit.
pub fn split_frames(buf: &mut Vec<u8>) -> (r: (Vec<Vec<u8>>, bool))
    ensures
        r.0@.map_values(|f: Vec<u8>| f@) == split_spec(old(buf)@).0,
        final(buf)@ == split_spec(old(buf)@).1,
        r.1 == split_spec(old(buf)@).2,
{
    let ghost orig = buf@;
    let mut frames: Vec<Vec<u8>> = Vec::new();
    let mut pos: usize = 0;
    assert(orig.skip(0) =~= orig);
    loop
        invariant
            buf@ == orig,
            orig == old(buf)@,
            pos <= orig.len(),
            ({
                let rest = split_spec(orig.skip(pos as int));
                &&& frames@.map_values(|f: Vec<u8>| f@) + rest.0 == split_spec(orig).0
                &&& rest.1 == split_spec(orig).1
                &&& rest.2 == split_spec(orig).2
            }),
        ensures
            buf@ == orig,
            orig == old(buf)@,
            pos <= orig.len(),
            frames@.map_values(|f: Vec<u8>| f@) == split_spec(orig).0,
            orig.skip(pos as int) == split_spec(orig).1,
            !split_spec(orig).2,
        decreases orig.len() - pos,
    {
        let ghost cur = orig.skip(pos as int);
        let avail = buf.len() - pos;
        if avail < 4 {
            assert(frames@.map_values(|f: Vec<u8>| f@) =~= split_spec(orig).0);
            break;
        }
        let declared = buf[pos] as usize + buf[pos + 1] as usize * 256 + buf[pos + 2] as usize
            * 65536 + buf[pos + 3] as usize * 16777216;
        assert(declared == le_value(cur));
        if declared > MAX_FRAME_LEN {
            buf.clear();
            assert(frames@.map_values(|f: Vec<u8>| f@) =~= split_spec(orig).0);
            assert(buf@ =~= split_spec(orig).1);
            return (frames, true);
        }
        if avail < 4 + declared {
            assert(frames@.map_values(|f: Vec<u8>| f@) =~= split_spec(orig).0);
            break;
        }
        let end = pos + 4 + declared;
        let mut f: Vec<u8> = Vec::new();
        let mut k: usize = pos;
        while k < end
            invariant
                pos <= k <= end <= orig.len(),
                buf@ == orig,
                f@ == orig.subrange(pos as int, k as int),
            decreases end - k,
        {
            f.push(buf[k]);
            assert(orig.subrange(pos as int, k + 1) =~= orig.subrange(pos as int, k as int).push(
                orig[k as int],
            ));
            k = k + 1;
        }
        let ghost before = frames@.map_values(|f: Vec<u8>| f@);
        assert(f@ =~= cur.take(4 + declared));
        assert(cur.skip(4 + declared) =~= orig.skip(end as int));
        frames.push(f);
        assert(frames@.map_values(|f: Vec<u8>| f@) =~= before.push(cur.take(4 + declared)));
        assert(frames@.map_values(|f: Vec<u8>| f@) + split_spec(orig.skip(end as int)).0
            =~= before + split_spec(cur).0);
        pos = end;
    }
    let rest = buf.split_off(pos);
    *buf = rest;
    assert(buf@ =~= orig.skip(pos as int));
    (frames, false)
}

/// The bytes of frames carrying `bodies`, one after the other.
pub open spec fn concat_frames(bodies: Seq<Seq<u8>>) -> Seq<u8>
    decreases bodies.len(),
{
    if bodies.len() == 0 {
        seq![]
    } else {
        frame_of(bodies[0]) + concat_frames(bodies.drop_first())
    }
}

/// A buffered tail that does not (yet) hold a whole frame and is within the limit.
pub open spec fn incomplete_tail(tail: Seq<u8>) -> bool {
    tail.len() < 4 || (le_value(tail) <= MAX_FRAME_LEN && tail.len() < 4 + le_value(tail))
}

/// A stream of frames followed by the start of another comes apart into
/// exactly those frames, in order, with the partial frame left buffered.
pub proof fn lemma_split_concat(bodies: Seq<Seq<u8>>, tail: Seq<u8>)
    requires
        forall|i: int| 0 <= i < bodies.len() ==> (#[trigger] bodies[i]).len() <= MAX_FRAME_LEN,
        incomplete_tail(tail),
    ensures
        split_spec(concat_frames(bodies) + tail) == (
            bodies.map_values(|b: Seq<u8>| frame_of(b)),
            tail,
            false,
        ),
    decreases bodies.len(),
{
    if bodies.len() == 0 {
        assert(concat_frames(bodies) + tail =~= tail);
        assert(bodies.map_values(|b: Seq<u8>| frame_of(b)) =~= Seq::<Seq<u8>>::empty());
    } else {
        let b0 = bodies[0];
        let rest = bodies.drop_first();
        assert forall|i: int| 0 <= i < rest.len() implies (#[trigger] rest[i]).len()
            <= MAX_FRAME_LEN by {
            assert(rest[i] == bodies[i + 1]);
        }
        lemma_split_concat(rest, tail);
        lemma_frame_roundtrip(b0);
        let f0 = frame_of(b0);
        let s = concat_frames(bodies) + tail;
        assert(s =~= f0 + (concat_frames(rest) + tail));
        assert(s[0] == f0[0] && s[1] == f0[1] && s[2] == f0[2] && s[3] == f0[3]);
        assert(le_value(s) == b0.len());
        assert(s.take(4 + b0.len() as int) =~= f0);
        assert(s.skip(4 + b0.len() as int) =~= concat_frames(rest) + tail);
        assert(bodies.map_values(|b: Seq<u8>| frame_of(b)) =~= seq![f0] + rest.map_values(
            |b: Seq<u8>| frame_of(b),
        ));
    }
}

/// Reassembly does not depend on how the stream was cut into reads: splitting
/// what is buffered after one read, then again after the next read is
/// appended, cuts the same frames, in the same order, as splitting all the
/// bytes at once, and leaves the same bytes buffered.
pub proof fn lemma_split_incremental(a: Seq<u8>, b: Seq<u8>)
    requires
        !split_spec(a).2,
    ensures
        split_spec(a + b) == (
            split_spec(a).0 + split_spec(split_spec(a).1 + b).0,
            split_spec(split_spec(a).1 + b).1,
            split_spec(split_spec(a).1 + b).2,
        ),
    decreases a.len(),
{
    let ab = a + b;
    if a.len() < 4 {
        assert(split_spec(a).0 =~= Seq::<Seq<u8>>::empty());
        assert(split_spec(a).0 + split_spec(ab).0 =~= split_spec(ab).0);
    } else {
        assert(ab[0] == a[0] && ab[1] == a[1] && ab[2] == a[2] && ab[3] == a[3]);
        if a.len() < 4 + le_value(a) {
            assert(split_spec(a).0 + split_spec(ab).0 =~= split_spec(ab).0);
        } else {
            let end = 4 + le_value(a);
            lemma_split_incremental(a.skip(end), b);
            assert(ab.take(end) =~= a.take(end));
            assert(ab.skip(end) =~= a.skip(end) + b);
            assert(split_spec(a).0 + split_spec(split_spec(a).1 + b).0 =~= seq![a.take(end)] + (
            split_spec(a.skip(end)).0 + split_spec(split_spec(a.skip(end)).1 + b).0));
        }
    }
}

/// Every frame cut from a stream is one well-formed frame: it decodes.
pub proof fn lemma_split_frames_decode(buf: Seq<u8>, i: int)
    requires
        0 <= i < split_spec(buf).0.len(),
    ensures
        split_spec(buf).0[i].len() >= 4,
        le_value(split_spec(buf).0[i]) == split_spec(buf).0[i].len() - 4,
        le_value(split_spec(buf).0[i]) <= MAX_FRAME_LEN,
    decreases buf.len(),
{
    let end = 4 + le_value(buf);
    let f = buf.take(end);
    if i == 0 {
        assert(split_spec(buf).0[0] == f);
        assert(f[0] == buf[0] && f[1] == buf[1] && f[2] == buf[2] && f[3] == buf[3]);
    } else {
        lemma_split_frames_decode(buf.skip(end), i - 1);
        assert(split_spec(buf).0[i] == split_spec(buf.skip(end)).0[i - 1]);
    }
}

} // verus!
