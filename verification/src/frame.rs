//! Length-prefixed frames on a byte stream.
//!
//! A frame is a 32-bit big-endian length followed by exactly that many
//! bytes of payload. A stream is modelled by the bytes it yields before it
//! ends; `ByteStream` is such a stream held in memory.

use crate::endian::{be_bytes_4, be_value_4, lemma_be_4_bytes_of_value, lemma_be_4_value_of_bytes};
use crate::error::WireError;
use vstd::prelude::*;
use vstd::slice::{slice_subrange, slice_to_vec};

verus! {

/// The number of bytes in a length prefix.
pub const PREFIX_LEN: usize = 4;

/// The frame that carries `payload`.
pub open spec fn framed(payload: Seq<u8>) -> Seq<u8> {
    be_bytes_4(payload.len() as int) + payload
}

/// What reading one frame gives on a stream that yields the bytes `s` and
/// then ends: the payload together with the bytes that stay unread, or the
/// reason why no frame could be read.
pub open spec fn first_frame(s: Seq<u8>) -> Result<(Seq<u8>, Seq<u8>), WireError> {
    if s.len() < 4 {
        Err(WireError::ConnectionClosed)
    } else if s.len() - 4 < be_value_4(s) {
        Err(WireError::TruncatedPayload)
    } else {
        Ok((s.subrange(4, 4 + be_value_4(s)), s.skip(4 + be_value_4(s))))
    }
}

/// Reading a frame back gives the payload it was built from and leaves what
/// followed the frame, for every payload that a prefix can announce, the
/// empty one included.
pub proof fn lemma_frame_read_back(payload: Seq<u8>, rest: Seq<u8>)
    requires
        payload.len() <= u32::MAX,
    ensures
        first_frame(framed(payload) + rest) == Ok::<_, WireError>((payload, rest)),
{
    let s = framed(payload) + rest;
    lemma_be_4_value_of_bytes(payload.len() as int);
    assert(be_value_4(s) == be_value_4(be_bytes_4(payload.len() as int)));
    assert(s.subrange(4, 4 + payload.len() as int) =~= payload);
    assert(s.skip(4 + payload.len() as int) =~= rest);
}

/// A stream that ends after a complete prefix and before the announced
/// payload is complete gives a truncation error, never a payload.
pub proof fn lemma_truncation_detected(s: Seq<u8>)
    requires
        s.len() >= 4,
        be_value_4(s) > s.len() - 4,
    ensures
        first_frame(s) == Err::<(Seq<u8>, Seq<u8>), _>(WireError::TruncatedPayload),
{
}

/// A frame that was read is one that `framed` builds: the bytes consumed are
/// the frame of the payload returned.
pub proof fn lemma_frame_read_exact(s: Seq<u8>)
    requires
        first_frame(s) is Ok,
    ensures
        first_frame(s)->Ok_0.0.len() <= u32::MAX,
        s == framed(first_frame(s)->Ok_0.0) + first_frame(s)->Ok_0.1,
{
    let payload = first_frame(s)->Ok_0.0;
    let rest = first_frame(s)->Ok_0.1;
    lemma_be_4_bytes_of_value(s.subrange(0, 4));
    assert(be_value_4(s.subrange(0, 4)) == be_value_4(s));
    assert(s =~= framed(payload) + rest);
}

/// The prefix that announces a payload of `length` bytes. Fails exactly when
/// `length` does not fit in 32 bits.
pub fn length_prefix(length: usize) -> (r: Result<[u8; 4], WireError>)
    ensures
        match r {
            Ok(prefix) => length <= u32::MAX && prefix@ == be_bytes_4(length as int),
            Err(e) => e == WireError::PayloadTooLarge && length > u32::MAX,
        },
{
    if length > 0xffff_ffff {
        return Err(WireError::PayloadTooLarge);
    }
    let prefix: [u8; 4] = [
        (length / 0x100_0000 % 0x100) as u8,
        (length / 0x1_0000 % 0x100) as u8,
        (length / 0x100 % 0x100) as u8,
        (length % 0x100) as u8,
    ];
    assert(prefix@ =~= be_bytes_4(length as int));
    Ok(prefix)
}

/// Builds the frame that carries `payload`. Fails exactly when the payload is
/// longer than a prefix can announce.
pub fn frame(payload: &[u8]) -> (r: Result<Vec<u8>, WireError>)
    ensures
        match r {
            Ok(bytes) => payload@.len() <= u32::MAX && bytes@ == framed(payload@),
            Err(e) => e == WireError::PayloadTooLarge && payload@.len() > u32::MAX,
        },
{
    let prefix = match length_prefix(payload.len()) {
        Ok(prefix) => prefix,
        Err(e) => {
            return Err(e);
        },
    };
    let mut bytes: Vec<u8> = Vec::new();
    bytes.push(prefix[0]);
    bytes.push(prefix[1]);
    bytes.push(prefix[2]);
    bytes.push(prefix[3]);
    assert(bytes@ =~= prefix@);
    let mut body = slice_to_vec(payload);
    bytes.append(&mut body);
    Ok(bytes)
}

/// The payload length that a prefix announces.
pub fn payload_length(prefix: &[u8; 4]) -> (length: u32)
    ensures
        length == be_value_4(prefix@),
{
    let b0 = prefix[0] as u32;
    let b1 = prefix[1] as u32;
    let b2 = prefix[2] as u32;
    let b3 = prefix[3] as u32;
    0x100_0000 * b0 + 0x1_0000 * b1 + 0x100 * b2 + b3
}

/// A byte stream held in memory: it yields its bytes in order and then ends.
pub struct ByteStream {
    data: Vec<u8>,
    position: usize,
}

impl View for ByteStream {
    type V = Seq<u8>;

    /// The bytes that the stream has yet to yield.
    closed spec fn view(&self) -> Seq<u8> {
        self.data@.skip(self.position as int)
    }
}

impl ByteStream {
    #[verifier::type_invariant]
    spec fn cursor_in_range(&self) -> bool {
        self.position <= self.data@.len()
    }

    /// A stream that yields `data` and then ends.
    pub fn new(data: Vec<u8>) -> (stream: ByteStream)
        ensures
            stream@ == data@,
    {
        let stream = ByteStream { data, position: 0 };
        assert(stream@ =~= data@);
        stream
    }

    /// The number of bytes that the stream has yet to yield.
    pub fn remaining(&self) -> (count: usize)
        ensures
            count == self@.len(),
    {
        proof {
            use_type_invariant(self);
        }
        self.data.len() - self.position
    }

    /// Reads exactly `count` bytes. Where fewer remain, the stream ends:
    /// nothing is returned and nothing is left to read.
    pub fn read_exact(&mut self, count: usize) -> (r: Option<Vec<u8>>)
        ensures
            match r {
                Some(bytes) => count <= old(self)@.len() && bytes@ == old(self)@.take(count as int)
                    && final(self)@ == old(self)@.skip(count as int),
                None => count > old(self)@.len() && final(self)@.len() == 0,
            },
    {
        proof {
            use_type_invariant(&*self);
        }
        let available = self.data.len() - self.position;
        if count > available {
            self.position = self.data.len();
            return None;
        }
        let end = self.position + count;
        let bytes = slice_to_vec(slice_subrange(self.data.as_slice(), self.position, end));
        proof {
            assert(bytes@ =~= old(self)@.take(count as int));
            assert(self.data@.skip(end as int) =~= old(self)@.skip(count as int));
        }
        self.position = end;
        Some(bytes)
    }
}

/// Reads one frame: four bytes of prefix, then as many bytes of payload as
/// the prefix announces. Fails with `ConnectionClosed` where the stream ends
/// within the prefix and with `TruncatedPayload` where it ends within the
/// payload; after a failure the stream has nothing left to read.
pub fn read_frame(stream: &mut ByteStream) -> (r: Result<Vec<u8>, WireError>)
    ensures
        match r {
            Ok(payload) => first_frame(old(stream)@) == Ok::<_, WireError>(
                (payload@, final(stream)@),
            ),
            Err(e) => first_frame(old(stream)@) == Err::<(Seq<u8>, Seq<u8>), _>(e)
                && final(stream)@.len() == 0,
        },
{
    let head = match stream.read_exact(PREFIX_LEN) {
        Some(head) => head,
        None => {
            return Err(WireError::ConnectionClosed);
        },
    };
    let prefix: [u8; 4] = [head[0], head[1], head[2], head[3]];
    let length = payload_length(&prefix);
    assert(be_value_4(prefix@) == be_value_4(old(stream)@));
    match stream.read_exact(length as usize) {
        Some(payload) => {
            proof {
                let s = old(stream)@;
                assert(payload@ =~= s.subrange(4, 4 + length as int));
                assert(stream@ =~= s.skip(4 + length as int));
            }
            Ok(payload)
        },
        None => Err(WireError::TruncatedPayload),
    }
}

} // verus!
