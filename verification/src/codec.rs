//! The binary wire protocol for inbound pose events.
//!
//! A buffer holds consecutive events, big-endian throughout. A pose upsert is
//! tag byte `0`, a 4-byte external identifier, then 17 keypoints of 2-byte
//! signed `x` and `y`. A pose delete is tag byte `1` and a 4-byte external
//! identifier. Decoding consumes the buffer exactly; a foreign tag or a
//! buffer that ends mid-event is an unrecoverable protocol error.

use vstd::arithmetic::div_mod::{lemma_div_denominator, lemma_fundamental_div_mod};
use vstd::prelude::*;

verus! {

/// Bytes of a pose-upsert event: tag, identifier, 17 keypoint pairs.
pub const UPSERT_LEN: usize = 73;

/// Bytes of a pose-delete event: tag and identifier.
pub const DELETE_LEN: usize = 5;

/// The protocol's failure modes. The stream is a contract with a trusted
/// peer, so every one of them is fatal to the caller: desynchronization
/// cannot be locally repaired.
#[derive(Clone, Copy, PartialEq, Eq, Structural, Debug)]
pub enum ProtocolError {
    /// An event tag byte that names no known event kind.
    UnknownTag(u8),
    /// The buffer ended in the middle of an event.
    Truncated,
    /// A pose delete for an external identifier with no current mapping.
    UnknownId(u32),
    /// A mapping that points at an entity no longer in the store.
    StaleMapping(u32),
}

/// A decoded event, executable form.
#[derive(Clone, PartialEq, Eq, Debug)]
pub enum Event {
    /// Create or overwrite the pose mapped to `ext`; `keypoints` holds the
    /// 34 interleaved `x, y` wire values.
    PoseUpsert { ext: u32, keypoints: Vec<i16> },
    /// Unmap `ext` and tag its entity for deletion.
    PoseDelete { ext: u32 },
}

/// A decoded event, mathematical form.
pub enum EventModel {
    PoseUpsert { ext: u32, keypoints: Seq<i16> },
    PoseDelete { ext: u32 },
}

impl View for Event {
    type V = EventModel;

    open spec fn view(&self) -> EventModel {
        match self {
            Event::PoseUpsert { ext, keypoints } => EventModel::PoseUpsert {
                ext: *ext,
                keypoints: keypoints@,
            },
            Event::PoseDelete { ext } => EventModel::PoseDelete { ext: *ext },
        }
    }
}

/// A well-formed event: an upsert carries exactly 17 keypoint pairs.
pub open spec fn wf_model(m: EventModel) -> bool {
    match m {
        EventModel::PoseUpsert { keypoints, .. } => keypoints.len() == 34,
        EventModel::PoseDelete { .. } => true,
    }
}

/// The big-endian value of four bytes.
pub open spec fn be_u32(b0: u8, b1: u8, b2: u8, b3: u8) -> u32 {
    (b0 * 0x1000000 + b1 * 0x10000 + b2 * 0x100 + b3) as u32
}

/// The big-endian two's-complement value of two bytes.
pub open spec fn be_i16(hi: u8, lo: u8) -> i16 {
    if hi * 0x100 + lo < 0x8000 {
        (hi * 0x100 + lo) as i16
    } else {
        (hi * 0x100 + lo - 0x10000) as i16
    }
}

/// The 34 keypoint values of the upsert event starting at `b[0]`.
pub open spec fn upsert_keypoints(b: Seq<u8>) -> Seq<i16> {
    Seq::new(34, |j: int| be_i16(b[5 + 2 * j], b[6 + 2 * j]))
}

/// What a buffer decodes to: the event list, or the protocol error, exactly
/// as the decoder's loop finds them front to back.
pub open spec fn spec_decode(b: Seq<u8>) -> Result<Seq<EventModel>, ProtocolError>
    decreases b.len(),
{
    if b.len() == 0 {
        Ok(Seq::empty())
    } else if b[0] == 0 {
        if b.len() < UPSERT_LEN {
            Err(ProtocolError::Truncated)
        } else {
            match spec_decode(b.skip(UPSERT_LEN as int)) {
                Ok(rest) => Ok(
                    seq![
                        EventModel::PoseUpsert {
                            ext: be_u32(b[1], b[2], b[3], b[4]),
                            keypoints: upsert_keypoints(b),
                        },
                    ] + rest,
                ),
                Err(e) => Err(e),
            }
        }
    } else if b[0] == 1 {
        if b.len() < DELETE_LEN {
            Err(ProtocolError::Truncated)
        } else {
            match spec_decode(b.skip(DELETE_LEN as int)) {
                Ok(rest) => Ok(
                    seq![EventModel::PoseDelete { ext: be_u32(b[1], b[2], b[3], b[4]) }] + rest,
                ),
                Err(e) => Err(e),
            }
        }
    } else {
        Err(ProtocolError::UnknownTag(b[0]))
    }
}

/// The models of a list of executable events.
pub open spec fn models_of(s: Seq<Event>) -> Seq<EventModel> {
    s.map_values(|e: Event| e@)
}

fn read_be_u32(buf: &[u8], i: usize) -> (r: u32)
    requires
        i + 4 <= buf@.len(),
    ensures
        r == be_u32(buf@[i as int], buf@[i + 1], buf@[i + 2], buf@[i + 3]),
{
    (buf[i] as u32) * 0x1000000 + (buf[i + 1] as u32) * 0x10000 + (buf[i + 2] as u32) * 0x100
        + (buf[i + 3] as u32)
}

fn read_be_i16(buf: &[u8], i: usize) -> (r: i16)
    requires
        i + 2 <= buf@.len(),
    ensures
        r == be_i16(buf@[i as int], buf@[i + 1]),
{
    let v: u32 = (buf[i] as u32) * 0x100 + (buf[i + 1] as u32);
    if v < 0x8000 {
        v as i16
    } else {
        (v as i32 - 0x10000) as i16
    }
}

/// Decodes one whole buffer into its event list.
///
/// Succeeds exactly when the buffer is a gapless chain of well-formed events;
/// fails with the first error the front-to-back scan meets, as
/// [`spec_decode`] states.
pub fn decode_events(buf: &[u8]) -> (r: Result<Vec<Event>, ProtocolError>)
    ensures
        match r {
            Ok(events) => spec_decode(buf@) == Ok::<Seq<EventModel>, ProtocolError>(
                models_of(events@),
            ),
            Err(e) => spec_decode(buf@) == Err::<Seq<EventModel>, ProtocolError>(e),
        },
{
    let n = buf.len();
    let mut out: Vec<Event> = Vec::new();
    let mut pos: usize = 0;
    proof {
        assert(buf@.skip(0) =~= buf@);
        match spec_decode(buf@) {
            Ok(rest) => {
                assert(models_of(out@) + rest =~= rest);
            },
            Err(_) => {},
        }
    }
    while pos < n
        invariant
            pos <= n,
            n == buf@.len(),
            spec_decode(buf@) == (match spec_decode(buf@.skip(pos as int)) {
                Ok(rest) => Ok::<Seq<EventModel>, ProtocolError>(models_of(out@) + rest),
                Err(e) => Err::<Seq<EventModel>, ProtocolError>(e),
            }),
        decreases n - pos,
    {
        let ghost tail = buf@.skip(pos as int);
        proof {
            assert(tail.len() == n - pos);
            assert(tail[0] == buf@[pos as int]);
        }
        let tag = buf[pos];
        if tag == 0 {
            if n - pos < UPSERT_LEN {
                return Err(ProtocolError::Truncated);
            }
            let ext = read_be_u32(buf, pos + 1);
            let mut kps: Vec<i16> = Vec::new();
            let mut k: usize = 0;
            while k < 17
                invariant
                    k <= 17,
                    kps@.len() == 2 * k,
                    n == buf@.len(),
                    pos + UPSERT_LEN <= n,
                    forall|j: int|
                        0 <= j < 2 * k ==> kps@[j] == be_i16(
                            buf@[pos + 5 + 2 * j],
                            buf@[pos + 6 + 2 * j],
                        ),
                decreases 17 - k,
            {
                let x = read_be_i16(buf, pos + 5 + 4 * k);
                let y = read_be_i16(buf, pos + 7 + 4 * k);
                kps.push(x);
                kps.push(y);
                k += 1;
            }
            proof {
                assert(kps@ =~= upsert_keypoints(tail)) by {
                    assert forall|j: int| 0 <= j < 34 implies kps@[j] == upsert_keypoints(tail)[j] by {
                        assert(tail[5 + 2 * j] == buf@[pos + 5 + 2 * j]);
                        assert(tail[6 + 2 * j] == buf@[pos + 6 + 2 * j]);
                    }
                }
                assert(tail[1] == buf@[pos + 1]);
                assert(tail[2] == buf@[pos + 2]);
                assert(tail[3] == buf@[pos + 3]);
                assert(tail[4] == buf@[pos + 4]);
                assert(tail.skip(UPSERT_LEN as int) =~= buf@.skip(pos + UPSERT_LEN));
            }
            let ghost prev_out = out@;
            out.push(Event::PoseUpsert { ext, keypoints: kps });
            proof {
                assert(models_of(out@) =~= models_of(prev_out).push(
                    EventModel::PoseUpsert { ext, keypoints: kps@ },
                ));
                lemma_models_append_one(
                    prev_out,
                    EventModel::PoseUpsert { ext, keypoints: kps@ },
                    spec_decode(buf@.skip(pos + UPSERT_LEN)),
                );
            }
            pos = pos + UPSERT_LEN;
        } else if tag == 1 {
            if n - pos < DELETE_LEN {
                return Err(ProtocolError::Truncated);
            }
            let ext = read_be_u32(buf, pos + 1);
            proof {
                assert(tail[1] == buf@[pos + 1]);
                assert(tail[2] == buf@[pos + 2]);
                assert(tail[3] == buf@[pos + 3]);
                assert(tail[4] == buf@[pos + 4]);
                assert(tail.skip(DELETE_LEN as int) =~= buf@.skip(pos + DELETE_LEN));
            }
            let ghost prev_out = out@;
            out.push(Event::PoseDelete { ext });
            proof {
                assert(models_of(out@) =~= models_of(prev_out).push(
                    EventModel::PoseDelete { ext },
                ));
                lemma_models_append_one(
                    prev_out,
                    EventModel::PoseDelete { ext },
                    spec_decode(buf@.skip(pos + DELETE_LEN)),
                );
            }
            pos = pos + DELETE_LEN;
        } else {
            return Err(ProtocolError::UnknownTag(tag));
        }
    }
    proof {
        assert(buf@.skip(pos as int) =~= Seq::<u8>::empty());
        assert(models_of(out@) + Seq::<EventModel>::empty() =~= models_of(out@));
    }
    Ok(out)
}

/// Pushing one more decoded event onto the accumulator commutes with
/// prepending its model to whatever the rest of the buffer decodes to.
proof fn lemma_models_append_one(
    prev: Seq<Event>,
    m: EventModel,
    rest: Result<Seq<EventModel>, ProtocolError>,
)
    ensures
        (match rest {
            Ok(r) => Ok::<Seq<EventModel>, ProtocolError>(models_of(prev) + (seq![m] + r)),
            Err(e) => Err::<Seq<EventModel>, ProtocolError>(e),
        }) == (match rest {
            Ok(r) => Ok::<Seq<EventModel>, ProtocolError>((models_of(prev).push(m)) + r),
            Err(e) => Err::<Seq<EventModel>, ProtocolError>(e),
        }),
{
    match rest {
        Ok(r) => {
            assert(models_of(prev) + (seq![m] + r) =~= (models_of(prev).push(m)) + r);
        },
        Err(_) => {},
    }
}

/// The bytes of one event on the wire.
pub open spec fn spec_encode(m: EventModel) -> Seq<u8> {
    match m {
        EventModel::PoseUpsert { ext, keypoints } => seq![0u8] + be_u32_bytes(ext) + keypoint_bytes(
            keypoints,
        ),
        EventModel::PoseDelete { ext } => seq![1u8] + be_u32_bytes(ext),
    }
}

/// The four big-endian bytes of `x`.
pub open spec fn be_u32_bytes(x: u32) -> Seq<u8> {
    seq![
        (x / 0x1000000) as u8,
        ((x / 0x10000) % 0x100) as u8,
        ((x / 0x100) % 0x100) as u8,
        (x % 0x100) as u8,
    ]
}

/// The unsigned 16-bit wire value of `v`.
pub open spec fn u16_of_i16(v: i16) -> int {
    if v >= 0 {
        v as int
    } else {
        v + 0x10000
    }
}

/// The interleaved big-endian bytes of the keypoint values.
pub open spec fn keypoint_bytes(kps: Seq<i16>) -> Seq<u8> {
    Seq::new(2 * kps.len(), |j: int|
        if j % 2 == 0 {
            (u16_of_i16(kps[j / 2]) / 0x100) as u8
        } else {
            (u16_of_i16(kps[j / 2]) % 0x100) as u8
        },
    )
}

/// Encodes one event as its wire bytes.
pub fn encode_event(e: &Event) -> (r: Vec<u8>)
    requires
        wf_model(e@),
    ensures
        r@ == spec_encode(e@),
{
    let mut out: Vec<u8> = Vec::new();
    match e {
        Event::PoseUpsert { ext, keypoints } => {
            out.push(0);
            push_be_u32(&mut out, *ext);
            let mut j: usize = 0;
            while j < keypoints.len()
                invariant
                    j <= keypoints.len(),
                    keypoints.len() == 34,
                    out@.len() == 5 + 2 * j,
                    out@.subrange(0, 5) == seq![0u8] + be_u32_bytes(*ext),
                    forall|i: int|
                        0 <= i < 2 * j ==> out@[5 + i] == keypoint_bytes(keypoints@)[i],
                decreases keypoints.len() - j,
            {
                let ghost before = out@;
                push_be_u16(&mut out, keypoints[j]);
                proof {
                    assert(out@.subrange(0, 5) =~= before.subrange(0, 5));
                    assert(keypoint_bytes(keypoints@)[2 * j] == (u16_of_i16(keypoints@[j as int])
                        / 0x100) as u8);
                    assert(keypoint_bytes(keypoints@)[2 * j + 1] == (u16_of_i16(
                        keypoints@[j as int],
                    ) % 0x100) as u8);
                }
                j += 1;
            }
            proof {
                assert(out@ =~= spec_encode(e@));
            }
        },
        Event::PoseDelete { ext } => {
            out.push(1);
            push_be_u32(&mut out, *ext);
            proof {
                assert(out@ =~= spec_encode(e@));
            }
        },
    }
    out
}

fn push_be_u32(out: &mut Vec<u8>, x: u32)
    ensures
        final(out)@ == old(out)@ + be_u32_bytes(x),
{
    out.push((x / 0x1000000) as u8);
    out.push(((x / 0x10000) % 0x100) as u8);
    out.push(((x / 0x100) % 0x100) as u8);
    out.push((x % 0x100) as u8);
    proof {
        assert(out@ =~= old(out)@ + be_u32_bytes(x));
    }
}

fn push_be_u16(out: &mut Vec<u8>, v: i16)
    ensures
        final(out)@ == old(out)@ + seq![
            (u16_of_i16(v) / 0x100) as u8,
            (u16_of_i16(v) % 0x100) as u8,
        ],
{
    let u: u32 = if v >= 0 {
        v as u32
    } else {
        (v as i32 + 0x10000) as u32
    };
    assert(u == u16_of_i16(v));
    out.push((u / 0x100) as u8);
    out.push((u % 0x100) as u8);
    proof {
        assert(out@ =~= old(out)@ + seq![
            (u16_of_i16(v) / 0x100) as u8,
            (u16_of_i16(v) % 0x100) as u8,
        ]);
    }
}

/// The digits written by [`be_u32_bytes`] read back as their value.
proof fn lemma_be_u32_roundtrip(x: u32)
    ensures
        be_u32(
            be_u32_bytes(x)[0],
            be_u32_bytes(x)[1],
            be_u32_bytes(x)[2],
            be_u32_bytes(x)[3],
        ) == x,
{
    let b0 = x / 0x1000000;
    let b1 = (x / 0x10000) % 0x100;
    let b2 = (x / 0x100) % 0x100;
    let b3 = x % 0x100;
    lemma_fundamental_div_mod(x as int, 0x100);
    lemma_fundamental_div_mod(x as int / 0x100, 0x100);
    lemma_fundamental_div_mod(x as int / 0x10000, 0x100);
    lemma_div_denominator(x as int, 0x100, 0x100);
    lemma_div_denominator(x as int, 0x10000, 0x100);
    lemma_div_denominator(x as int / 0x100, 0x100, 0x100);
    assert(b0 * 0x1000000 + b1 * 0x10000 + b2 * 0x100 + b3 == x) by (nonlinear_arith)
        requires
            b0 == x as int / 0x1000000,
            b1 == (x as int / 0x10000) % 0x100,
            b2 == (x as int / 0x100) % 0x100,
            b3 == x as int % 0x100,
            x as int == 0x100 * (x as int / 0x100) + x as int % 0x100,
            x as int / 0x100 == 0x100 * (x as int / 0x10000) + (x as int / 0x100) % 0x100,
            x as int / 0x10000 == 0x100 * (x as int / 0x1000000) + (x as int / 0x10000) % 0x100,
            0 <= x as int / 0x1000000 < 0x100,
            0 <= b1 < 0x100,
            0 <= b2 < 0x100,
            0 <= b3 < 0x100,
    {}
}

/// The two bytes written for a keypoint value read back as that value.
proof fn lemma_be_i16_roundtrip(v: i16)
    ensures
        be_i16(
            (u16_of_i16(v) / 0x100) as u8,
            (u16_of_i16(v) % 0x100) as u8,
        ) == v,
{
    let u = u16_of_i16(v);
    lemma_fundamental_div_mod(u, 0x100);
}

/// Round trip: the wire bytes of a well-formed event, followed by any rest,
/// decode to that event followed by whatever the rest decodes to.
pub proof fn lemma_decode_encode(m: EventModel, rest: Seq<u8>)
    requires
        wf_model(m),
    ensures
        spec_decode(spec_encode(m) + rest) == (match spec_decode(rest) {
            Ok(r) => Ok::<Seq<EventModel>, ProtocolError>(seq![m] + r),
            Err(e) => Err::<Seq<EventModel>, ProtocolError>(e),
        }),
{
    let b = spec_encode(m) + rest;
    match m {
        EventModel::PoseUpsert { ext, keypoints } => {
            assert(spec_encode(m).len() == 73);
            assert(b[0] == 0);
            assert(b.skip(73) =~= rest);
            lemma_be_u32_roundtrip(ext);
            assert(b[1] == be_u32_bytes(ext)[0]);
            assert(b[2] == be_u32_bytes(ext)[1]);
            assert(b[3] == be_u32_bytes(ext)[2]);
            assert(b[4] == be_u32_bytes(ext)[3]);
            assert(upsert_keypoints(b) =~= keypoints) by {
                assert forall|j: int| 0 <= j < 34 implies upsert_keypoints(b)[j] == keypoints[j] by {
                    assert(b[5 + 2 * j] == keypoint_bytes(keypoints)[2 * j]);
                    assert(b[6 + 2 * j] == keypoint_bytes(keypoints)[2 * j + 1]);
                    assert((2 * j) % 2 == 0 && (2 * j + 1) % 2 == 1 && (2 * j) / 2 == j && (2 * j
                        + 1) / 2 == j);
                    lemma_be_i16_roundtrip(keypoints[j]);
                }
            }
            match spec_decode(rest) {
                Ok(r) => {
                    assert(spec_decode(b) == Ok::<Seq<EventModel>, ProtocolError>(
                        seq![m] + r,
                    ));
                },
                Err(_) => {},
            }
        },
        EventModel::PoseDelete { ext } => {
            assert(spec_encode(m).len() == 5);
            assert(b[0] == 1);
            assert(b.skip(5) =~= rest);
            lemma_be_u32_roundtrip(ext);
            assert(b[1] == be_u32_bytes(ext)[0]);
            assert(b[2] == be_u32_bytes(ext)[1]);
            assert(b[3] == be_u32_bytes(ext)[2]);
            assert(b[4] == be_u32_bytes(ext)[3]);
        },
    }
}

} // verus!
