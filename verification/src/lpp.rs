//! Decoder for the compact binary telemetry format the sensor node emits.
//!
//! A payload is a sequence of records `[channel_id][type_id][payload...]`.
//! Decoding proceeds strictly left to right and stops, without a hard
//! failure, at the first unknown type tag or truncated record. The format
//! has no length prefix, so an unknown tag makes the remainder of the
//! buffer unparseable: the decoder stops rather than guess a payload width
//! and desynchronize.

use vstd::prelude::*;

verus! {

/// The logical sensor a measurement came from.
///
/// The mapping from channel-id byte to variant is total: unrecognized ids
/// map to `Other`, they are not rejected.
#[derive(Debug, PartialEq, Eq, Structural, Copy, Clone)]
pub enum Channel {
    DistanceSensor,
    Adc,
    Other(u8),
}

/// The variant a channel-id byte decodes to.
pub open spec fn channel_of(id: u8) -> Channel {
    if id == 1 {
        Channel::DistanceSensor
    } else if id == 4 {
        Channel::Adc
    } else {
        Channel::Other(id)
    }
}

impl From<u8> for Channel {
    fn from(val: u8) -> (r: Self) {
        match val {
            1 => Channel::DistanceSensor,
            4 => Channel::Adc,
            c => Channel::Other(c),
        }
    }
}

impl vstd::std_specs::convert::FromSpecImpl<u8> for Channel {
    open spec fn obeys_from_spec() -> bool {
        true
    }

    open spec fn from_spec(val: u8) -> Channel {
        channel_of(val)
    }
}

/// A decoded physical quantity.
///
/// Payload integers are kept in the sensor's own fixed-point scale:
/// `AnalogInput` holds hundredths of a volt, `Temperature` holds tenths of
/// a degree Celsius, `Distance` holds whole millimeters.
#[derive(Debug, PartialEq, Eq, Structural, Copy, Clone)]
pub enum DataType {
    AnalogInput(i16),
    Temperature(i16),
    Distance(u16),
}

/// One channel/value pair, in payload order.
#[derive(Debug, PartialEq, Eq, Structural, Copy, Clone)]
pub struct Measurement {
    pub channel: Channel,
    pub value: DataType,
}

impl Measurement {
    pub fn new(channel: Channel, value: DataType) -> (r: Self)
        ensures
            r == (Measurement { channel, value }),
    {
        Measurement { channel, value }
    }
}

/// The type tags the format assigns a payload width and decoding rule.
pub open spec fn known_tag(t: u8) -> bool {
    t == 0x02 || t == 0x67 || t == 0x82
}

/// The unsigned big-endian value of a two-byte payload.
pub open spec fn be_u16(hi: u8, lo: u8) -> u16 {
    (hi * 256 + lo) as u16
}

/// The signed big-endian (two's complement) value of a two-byte payload.
pub open spec fn be_i16(hi: u8, lo: u8) -> int {
    if hi < 128 {
        hi * 256 + lo
    } else {
        hi * 256 + lo - 0x10000
    }
}

/// The value a known type tag decodes a two-byte payload to.
pub open spec fn value_of(t: u8, hi: u8, lo: u8) -> DataType
    recommends
        known_tag(t),
{
    if t == 0x02 {
        DataType::AnalogInput(be_i16(hi, lo) as i16)
    } else if t == 0x67 {
        DataType::Temperature(be_i16(hi, lo) as i16)
    } else {
        DataType::Distance(be_u16(hi, lo))
    }
}

/// The measurement one complete record decodes to.
pub open spec fn record_of(c: u8, t: u8, hi: u8, lo: u8) -> Measurement {
    Measurement { channel: channel_of(c), value: value_of(t, hi, lo) }
}

/// The measurement sequence a byte buffer decodes to: records are taken
/// left to right, and the sequence ends at buffer end, at the first
/// unknown type tag, or at a record with fewer payload bytes than its tag
/// requires.
pub open spec fn decode(bytes: Seq<u8>) -> Seq<Measurement>
    decreases bytes.len(),
{
    if bytes.len() < 2 {
        Seq::empty()
    } else if !known_tag(bytes[1]) {
        Seq::empty()
    } else if bytes.len() < 4 {
        Seq::empty()
    } else {
        seq![record_of(bytes[0], bytes[1], bytes[2], bytes[3])] + decode(bytes.skip(4))
    }
}

/// Holds when a buffer consists purely of complete records with known
/// type tags, so that decoding consumes it whole.
pub open spec fn complete_records(bytes: Seq<u8>) -> bool
    decreases bytes.len(),
{
    if bytes.len() == 0 {
        true
    } else {
        bytes.len() >= 4 && known_tag(bytes[1]) && complete_records(bytes.skip(4))
    }
}

/// Decoding is deterministic: the same byte sequence always yields the
/// same measurement sequence.
pub proof fn lemma_decode_deterministic(b1: Seq<u8>, b2: Seq<u8>)
    requires
        b1 == b2,
    ensures
        decode(b1) == decode(b2),
{
}

/// A buffer holding a single distance record decodes to exactly one
/// measurement: the distance sensor's reading `hi * 256 + lo`.
pub proof fn lemma_single_distance_record(hi: u8, lo: u8)
    ensures
        decode(seq![1u8, 0x82u8, hi, lo]) == seq![
            Measurement { channel: Channel::DistanceSensor, value: DataType::Distance(be_u16(hi, lo)) },
        ],
{
    let s = seq![1u8, 0x82u8, hi, lo];
    assert(s.len() == 4 && s[0] == 1u8 && s[1] == 0x82u8 && s[2] == hi && s[3] == lo);
    assert(s.skip(4) =~= Seq::<u8>::empty());
    assert(decode(Seq::<u8>::empty()) =~= Seq::<Measurement>::empty());
    assert(decode(s) == seq![record_of(1u8, 0x82u8, hi, lo)] + decode(s.skip(4)));
    assert(decode(s) =~= seq![record_of(1u8, 0x82u8, hi, lo)]);
}

/// Decoding a buffer that opens with complete records yields those
/// records followed by whatever the rest of the buffer decodes to.
pub proof fn lemma_decode_extend(head: Seq<u8>, tail: Seq<u8>)
    requires
        complete_records(head),
    ensures
        decode(head + tail) == decode(head) + decode(tail),
    decreases head.len(),
{
    if head.len() == 0 {
        assert(head + tail =~= tail);
        assert(decode(head) + decode(tail) =~= decode(tail));
    } else {
        let all = head + tail;
        assert(all[1] == head[1]);
        lemma_decode_extend(head.skip(4), tail);
        assert(all.skip(4) =~= head.skip(4) + tail);
        assert(decode(all) == seq![record_of(all[0], all[1], all[2], all[3])] + (decode(
            head.skip(4),
        ) + decode(tail)));
        assert(record_of(all[0], all[1], all[2], all[3]) == record_of(
            head[0],
            head[1],
            head[2],
            head[3],
        ));
        assert(decode(all) =~= decode(head) + decode(tail));
    }
}

/// A buffer that ends mid-record — fewer bytes after its complete records
/// than one record needs — decodes to the complete records alone; the
/// trailing fragment yields nothing and no hard failure.
pub proof fn lemma_truncated_tail(head: Seq<u8>, tail: Seq<u8>)
    requires
        complete_records(head),
        tail.len() < 4,
    ensures
        decode(head + tail) == decode(head),
{
    lemma_decode_extend(head, tail);
    assert(decode(head) + decode(tail) =~= decode(head));
}

/// An unknown type tag truncates the sequence at that point: the complete
/// records before it are still returned, nothing after it is.
pub proof fn lemma_unknown_tag_truncates(head: Seq<u8>, tail: Seq<u8>)
    requires
        complete_records(head),
        tail.len() >= 2,
        !known_tag(tail[1]),
    ensures
        decode(head + tail) == decode(head),
{
    lemma_decode_extend(head, tail);
    assert(decode(head) + decode(tail) =~= decode(head));
}

/// Reads a big-endian signed 16-bit integer from two bytes.
fn read_i16_be(hi: u8, lo: u8) -> (r: i16)
    ensures
        r as int == be_i16(hi, lo),
{
    let u: u16 = (hi as u16) * 256 + (lo as u16);
    if u < 0x8000 {
        u as i16
    } else {
        ((u as i32) - 0x10000) as i16
    }
}

/// Cursor-based decoder over a fixed byte buffer, yielding one
/// measurement per `next` call.
#[derive(Debug)]
pub struct LppDecoder<'a> {
    bytes: &'a [u8],
    pos: usize,
}

impl<'a> LppDecoder<'a> {
    /// The cursor never points past the end of the buffer.
    pub closed spec fn wf(self) -> bool {
        self.pos <= self.bytes@.len()
    }

    /// The measurements this decoder will still produce, in order.
    pub closed spec fn remaining(self) -> Seq<Measurement> {
        decode(self.bytes@.skip(self.pos as int))
    }

    pub fn new(bytes: &'a [u8]) -> (r: Self)
        ensures
            r.wf(),
            r.remaining() == decode(bytes@),
    {
        let r = LppDecoder { bytes, pos: 0 };
        proof {
            assert(bytes@.skip(0) =~= bytes@);
        }
        r
    }

    /// Returns the next measurement from this packet, or `None` once the
    /// buffer is exhausted or undecodable from the cursor on. After a
    /// `None`, every later call returns `None` as well.
    pub fn next(&mut self) -> (r: Option<Measurement>)
        requires
            old(self).wf(),
        ensures
            final(self).wf(),
            match r {
                Some(m) => old(self).remaining().len() > 0 && m == old(self).remaining()[0]
                    && final(self).remaining() == old(self).remaining().skip(1),
                None => old(self).remaining().len() == 0 && final(self).remaining().len() == 0,
            },
    {
        let len = self.bytes.len();
        let ghost rest = self.bytes@.skip(self.pos as int);
        if len - self.pos < 2 {
            self.pos = len;
            proof {
                assert(self.bytes@.skip(len as int) =~= Seq::<u8>::empty());
            }
            return None;
        }
        let t = self.bytes[self.pos + 1];
        if !(t == 0x02 || t == 0x67 || t == 0x82) {
            self.pos = len;
            proof {
                assert(self.bytes@.skip(len as int) =~= Seq::<u8>::empty());
            }
            return None;
        }
        if len - self.pos < 4 {
            self.pos = len;
            proof {
                assert(self.bytes@.skip(len as int) =~= Seq::<u8>::empty());
            }
            return None;
        }
        let c = self.bytes[self.pos];
        let hi = self.bytes[self.pos + 2];
        let lo = self.bytes[self.pos + 3];
        let value = if t == 0x02 {
            DataType::AnalogInput(read_i16_be(hi, lo))
        } else if t == 0x67 {
            DataType::Temperature(read_i16_be(hi, lo))
        } else {
            DataType::Distance((hi as u16) * 256 + (lo as u16))
        };
        let m = Measurement { channel: Channel::from(c), value };
        self.pos = self.pos + 4;
        proof {
            assert(rest.len() >= 4);
            assert(rest[0] == self.bytes@[old(self).pos as int]);
            assert(m == record_of(rest[0], rest[1], rest[2], rest[3]));
            assert(rest.skip(4) =~= self.bytes@.skip(self.pos as int));
            assert(decode(rest) == seq![m] + decode(rest.skip(4)));
            assert((seq![m] + decode(rest.skip(4))).skip(1) =~= decode(rest.skip(4)));
        }
        Some(m)
    }

    /// Decodes every remaining measurement into a vector.
    pub fn collect_measurements(&mut self) -> (r: Vec<Measurement>)
        requires
            old(self).wf(),
        ensures
            final(self).wf(),
            r@ == old(self).remaining(),
            final(self).remaining().len() == 0,
    {
        let mut out: Vec<Measurement> = Vec::new();
        loop
            invariant
                self.wf(),
                out@ + self.remaining() == old(self).remaining(),
            decreases self.remaining().len(),
        {
            match self.next() {
                Some(m) => {
                    out.push(m);
                }
                None => {
                    proof {
                        assert(out@ + self.remaining() =~= out@);
                    }
                    return out;
                }
            }
        }
    }
}

} // verus!
