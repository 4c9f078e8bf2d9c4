//! Timestamped events and their fixed-size wire records.
//!
//! An accepted hardware event is reduced to the instant it was observed, held
//! as a count of nanoseconds on the monotonic clock.  Crossing the process
//! boundary, each event becomes a record of exactly `RECORD_SIZE` bytes with
//! no framing, so both sides of a channel must agree on the layout; the codec
//! here is that agreement, and decoding is proved to invert encoding.

use vstd::prelude::*;

verus! {

/// Width in bytes of one wire record.
pub const RECORD_SIZE: usize = 8;

/// A monotonic point in time, in nanoseconds, captured when an accepted
/// hardware event was observed.  Immutable once created.
#[derive(Debug, Clone, Copy, PartialEq, Eq, Structural)]
pub struct InstantWrap(pub u64);

impl InstantWrap {
    /// Wraps a monotonic-clock reading given as nanoseconds.
    pub fn from_nanos(nanos: u64) -> (r: Self)
        ensures
            r.0 == nanos,
    {
        InstantWrap(nanos)
    }

    /// The wrapped reading, as nanoseconds.
    pub fn as_nanos(&self) -> (r: u64)
        ensures
            r == self.0,
    {
        self.0
    }
}

/// How many bytes a pipe must buffer to hold `capacity` whole records: the
/// size hint both sides derive from the same build-time record layout.
pub fn record_buffer_size(capacity: usize) -> (r: usize)
    requires
        capacity * RECORD_SIZE <= usize::MAX,
    ensures
        r == capacity * RECORD_SIZE,
{
    capacity * RECORD_SIZE
}

/// The little-endian bytes of one record carrying `n`.
pub open spec fn record_bytes(n: u64) -> Seq<u8> {
    seq![
        (n & 0xff) as u8,
        ((n >> 8) & 0xff) as u8,
        ((n >> 16) & 0xff) as u8,
        ((n >> 24) & 0xff) as u8,
        ((n >> 32) & 0xff) as u8,
        ((n >> 40) & 0xff) as u8,
        ((n >> 48) & 0xff) as u8,
        ((n >> 56) & 0xff) as u8,
    ]
}

/// The value carried by one record's bytes (little-endian).
pub open spec fn record_value(b: Seq<u8>) -> u64
    recommends
        b.len() == RECORD_SIZE,
{
    (b[0] as u64) | ((b[1] as u64) << 8) | ((b[2] as u64) << 16) | ((b[3] as u64) << 24)
        | ((b[4] as u64) << 32) | ((b[5] as u64) << 40) | ((b[6] as u64) << 48)
        | ((b[7] as u64) << 56)
}

/// Decoding a record inverts encoding it: the wire carries timestamps
/// bit for bit.
pub proof fn lemma_record_round_trip(n: u64)
    ensures
        record_value(record_bytes(n)) == n,
{
    assert(((((n & 0xff) as u8) as u64) | ((((n >> 8) & 0xff) as u8) as u64) << 8 | ((((n >> 16)
        & 0xff) as u8) as u64) << 16 | ((((n >> 24) & 0xff) as u8) as u64) << 24 | ((((n >> 32)
        & 0xff) as u8) as u64) << 32 | ((((n >> 40) & 0xff) as u8) as u64) << 40 | ((((n >> 48)
        & 0xff) as u8) as u64) << 48 | ((((n >> 56) & 0xff) as u8) as u64) << 56) == n)
        by (bit_vector);
}

/// Encodes one event as its fixed-size wire record.
pub fn encode_record(e: InstantWrap) -> (r: [u8; 8])
    ensures
        r@ == record_bytes(e.0),
        r@.len() == RECORD_SIZE,
{
    let n = e.0;
    let r = [
        (n & 0xff) as u8,
        ((n >> 8) & 0xff) as u8,
        ((n >> 16) & 0xff) as u8,
        ((n >> 24) & 0xff) as u8,
        ((n >> 32) & 0xff) as u8,
        ((n >> 40) & 0xff) as u8,
        ((n >> 48) & 0xff) as u8,
        ((n >> 56) & 0xff) as u8,
    ];
    assert(r@ =~= record_bytes(n));
    r
}

/// Decodes one fixed-size wire record back into the event it carries.
pub fn decode_record(b: &[u8; 8]) -> (r: InstantWrap)
    ensures
        r.0 == record_value(b@),
{
    let n = (b[0] as u64) | ((b[1] as u64) << 8) | ((b[2] as u64) << 16) | ((b[3] as u64) << 24)
        | ((b[4] as u64) << 32) | ((b[5] as u64) << 40) | ((b[6] as u64) << 48)
        | ((b[7] as u64) << 56);
    InstantWrap(n)
}

/// The byte stream a sequence of events becomes on the wire: their records,
/// back to back, with no framing between them.
pub open spec fn stream_bytes(events: Seq<InstantWrap>) -> Seq<u8>
    decreases events.len(),
{
    if events.len() == 0 {
        Seq::empty()
    } else {
        record_bytes(events[0].0) + stream_bytes(events.skip(1))
    }
}

/// The events a byte stream carries, read record by record from the front.
pub open spec fn stream_values(b: Seq<u8>) -> Seq<InstantWrap>
    decreases b.len(),
{
    if b.len() < RECORD_SIZE {
        Seq::empty()
    } else {
        seq![InstantWrap(record_value(b.take(RECORD_SIZE as int)))] + stream_values(
            b.skip(RECORD_SIZE as int),
        )
    }
}

/// Appending one event to a stream appends its record to the bytes.
pub proof fn lemma_stream_bytes_snoc(events: Seq<InstantWrap>, e: InstantWrap)
    ensures
        stream_bytes(events.push(e)) == stream_bytes(events) + record_bytes(e.0),
    decreases events.len(),
{
    if events.len() == 0 {
        assert(events.push(e).skip(1) =~= Seq::<InstantWrap>::empty());
        assert(events.push(e)[0] == e);
        assert(stream_bytes(Seq::<InstantWrap>::empty()) =~= Seq::<u8>::empty());
        assert(stream_bytes(events.push(e)) =~= stream_bytes(events) + record_bytes(e.0));
    } else {
        lemma_stream_bytes_snoc(events.skip(1), e);
        assert(events.push(e).skip(1) =~= events.skip(1).push(e));
        assert(events.push(e)[0] == events[0]);
        assert(stream_bytes(events.push(e)) =~= stream_bytes(events) + record_bytes(e.0));
    }
}

/// Reading a record stream back gives the events that were written, in the
/// order they were written: the channel neither reorders nor loses.
pub proof fn lemma_stream_round_trip(events: Seq<InstantWrap>)
    ensures
        stream_values(stream_bytes(events)) == events,
    decreases events.len(),
{
    if events.len() == 0 {
    } else {
        let b = stream_bytes(events);
        let head = record_bytes(events[0].0);
        assert(b.take(RECORD_SIZE as int) =~= head);
        assert(b.skip(RECORD_SIZE as int) =~= stream_bytes(events.skip(1)));
        lemma_record_round_trip(events[0].0);
        lemma_stream_round_trip(events.skip(1));
        assert(stream_values(b) =~= events);
    }
}

/// Encodes a batch of events as one contiguous run of records, the order
/// kept.
pub fn encode_stream(events: &Vec<InstantWrap>) -> (out: Vec<u8>)
    ensures
        out@ == stream_bytes(events@),
{
    let mut out: Vec<u8> = Vec::new();
    let mut i: usize = 0;
    proof {
        assert(events@.take(0) =~= Seq::<InstantWrap>::empty());
    }
    while i < events.len()
        invariant
            i <= events@.len(),
            out@ == stream_bytes(events@.take(i as int)),
        decreases events@.len() - i,
    {
        let rec = encode_record(events[i]);
        let mut j: usize = 0;
        while j < 8
            invariant
                j <= 8,
                rec@ == record_bytes(events@[i as int].0),
                i < events@.len(),
                out@ == stream_bytes(events@.take(i as int)) + rec@.take(j as int),
            decreases 8 - j,
        {
            out.push(rec[j]);
            proof {
                assert(out@ =~= stream_bytes(events@.take(i as int)) + rec@.take(j as int + 1));
            }
            j = j + 1;
        }
        proof {
            lemma_stream_bytes_snoc(events@.take(i as int), events@[i as int]);
            assert(events@.take(i as int).push(events@[i as int]) =~= events@.take(i as int + 1));
            assert(rec@.take(8) =~= rec@);
        }
        i = i + 1;
    }
    proof {
        assert(events@.take(events@.len() as int) =~= events@);
    }
    out
}

/// Why a byte stream was refused.
#[derive(Debug, Clone, Copy, PartialEq, Eq, Structural)]
pub enum CodecError {
    /// The stream is not a whole number of records: the two sides disagree
    /// on the record size, which corrupts every read on the channel.
    SizeMismatch,
}

/// Decodes a contiguous run of records back into events, the order kept.
/// A stream that is not a whole number of records is refused: there is no
/// length prefix and no resynchronisation point on this channel.
pub fn decode_stream(bytes: &Vec<u8>) -> (r: Result<Vec<InstantWrap>, CodecError>)
    ensures
        r is Ok <==> bytes@.len() % (RECORD_SIZE as nat) == 0,
        r matches Ok(v) ==> v@ == stream_values(bytes@),
{
    if bytes.len() % 8 != 0 {
        return Err(CodecError::SizeMismatch);
    }
    let count = bytes.len() / 8;
    proof {
        vstd::arithmetic::div_mod::lemma_fundamental_div_mod(bytes@.len() as int, 8);
    }
    let mut out: Vec<InstantWrap> = Vec::new();
    let mut i: usize = 0;
    proof {
        assert(bytes@.skip(0) =~= bytes@);
        assert(stream_values(bytes@) =~= Seq::<InstantWrap>::empty() + stream_values(bytes@));
    }
    while i < count
        invariant
            bytes@.len() == 8 * count,
            8 * count <= usize::MAX,
            i <= count,
            stream_values(bytes@) == out@ + stream_values(bytes@.skip(8 * i as int)),
        decreases count - i,
    {
        let off = 8 * i;
        let b = [
            bytes[off],
            bytes[off + 1],
            bytes[off + 2],
            bytes[off + 3],
            bytes[off + 4],
            bytes[off + 5],
            bytes[off + 6],
            bytes[off + 7],
        ];
        proof {
            assert(b@ =~= bytes@.skip(8 * i as int).take(8));
            assert(bytes@.skip(8 * i as int).skip(8) =~= bytes@.skip(8 * (i as int + 1)));
        }
        let e = decode_record(&b);
        out.push(e);
        proof {
            assert(stream_values(bytes@) =~= out@ + stream_values(
                bytes@.skip(8 * (i as int + 1)),
            ));
        }
        i = i + 1;
    }
    proof {
        assert(bytes@.skip(8 * count as int) =~= Seq::<u8>::empty());
        assert(out@ =~= stream_values(bytes@));
    }
    Ok(out)
}

} // verus!
