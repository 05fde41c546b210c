//! Payload writer and reader, and the traits every payload codec implements.

use vstd::prelude::*;
use vstd::string::StringSliceAdditionalSpecFns;
use vstd::utf8::{encode_utf8, valid_utf8};

use crate::bytes::{from_le16, from_le32, get_le16, get_le32, le16, le32, push_all, push_le16, push_le32};
use crate::error::ProtocolError;

verus! {

/// The UTF-8 bytes of a string.
pub open spec fn str_bytes(s: String) -> Seq<u8> {
    encode_utf8(s@)
}

/// Reads one byte at `o`.
pub open spec fn rd_u8(s: Seq<u8>, o: int) -> Result<(u8, int), ProtocolError> {
    if 0 <= o && o + 1 <= s.len() {
        Ok((s[o], o + 1))
    } else {
        Err(ProtocolError::Truncated)
    }
}

/// Reads a little-endian u16 at `o`.
pub open spec fn rd_u16(s: Seq<u8>, o: int) -> Result<(u16, int), ProtocolError> {
    if 0 <= o && o + 2 <= s.len() {
        Ok((from_le16(s[o], s[o + 1]), o + 2))
    } else {
        Err(ProtocolError::Truncated)
    }
}

/// Reads a little-endian u32 at `o`.
pub open spec fn rd_u32(s: Seq<u8>, o: int) -> Result<(u32, int), ProtocolError> {
    if 0 <= o && o + 4 <= s.len() {
        Ok((from_le32(s[o], s[o + 1], s[o + 2], s[o + 3]), o + 4))
    } else {
        Err(ProtocolError::Truncated)
    }
}

/// Reads `n` raw bytes at `o`.
pub open spec fn rd_bytes(s: Seq<u8>, o: int, n: int) -> Result<(Seq<u8>, int), ProtocolError> {
    if 0 <= o && 0 <= n && o + n <= s.len() {
        Ok((s.subrange(o, o + n), o + n))
    } else {
        Err(ProtocolError::Truncated)
    }
}

/// Reads a string led by its one-byte length: a length over `limit` is
/// `StringTooLong`, bytes that are not UTF-8 are `InvalidUtf8`.
pub open spec fn rd_utf8(s: Seq<u8>, o: int, limit: int) -> Result<(Seq<u8>, int), ProtocolError> {
    match rd_u8(s, o) {
        Err(e) => Err(e),
        Ok((len, o1)) => if len > limit {
            Err(ProtocolError::StringTooLong)
        } else {
            match rd_bytes(s, o1, len as int) {
                Err(e) => Err(e),
                Ok((b, o2)) => if valid_utf8(b) {
                    Ok((b, o2))
                } else {
                    Err(ProtocolError::InvalidUtf8)
                },
            }
        },
    }
}

/// Succeeds when the cursor `o` has consumed all of `s`.
pub open spec fn rd_finish(s: Seq<u8>, o: int) -> Result<(), ProtocolError> {
    if o == s.len() {
        Ok(())
    } else {
        Err(ProtocolError::InvalidLength)
    }
}

/// A string on the wire: its byte length in one byte, then its bytes.
pub open spec fn wr_utf8(b: Seq<u8>) -> Seq<u8> {
    seq![b.len() as u8] + b
}

/// A string written at `o` is read back from there.
pub proof fn lemma_rd_utf8_at(b: Seq<u8>, o: int, s: Seq<u8>, limit: int)
    requires
        0 <= o,
        o + 1 + s.len() <= b.len(),
        b.subrange(o, o + 1 + s.len()) == wr_utf8(s),
        s.len() <= limit,
        s.len() <= 255,
        valid_utf8(s),
    ensures
        rd_utf8(b, o, limit) == Ok::<(Seq<u8>, int), ProtocolError>((s, o + 1 + s.len())),
{
    crate::bytes::lemma_split_at(b, o, seq![s.len() as u8], s);
    assert(b[o] == b.subrange(o, o + 1)[0]);
}

/// A payload that can be encoded.
pub trait WireEncode: View + Sized {
    /// The bytes a value encodes to, or why it cannot be encoded.
    spec fn spec_wire_encode(v: Self::V) -> Result<Seq<u8>, ProtocolError>;

    /// Encodes the payload.
    fn encode(&self) -> (r: Result<Vec<u8>, ProtocolError>)
        ensures
            match r {
                Ok(b) => Self::spec_wire_encode(self@) == Ok::<Seq<u8>, ProtocolError>(b@),
                Err(e) => Self::spec_wire_encode(self@) == Err::<Seq<u8>, ProtocolError>(e),
            },
    ;
}

/// A payload that can be decoded.
pub trait WireDecode: View + Sized {
    /// The value a byte sequence decodes to, or why it does not decode.
    spec fn spec_wire_decode(b: Seq<u8>) -> Result<Self::V, ProtocolError>;

    /// Decodes the payload.
    fn decode(bytes: &[u8]) -> (r: Result<Self, ProtocolError>)
        ensures
            match r {
                Ok(v) => Self::spec_wire_decode(bytes@) == Ok::<Self::V, ProtocolError>(v@),
                Err(e) => Self::spec_wire_decode(bytes@) == Err::<Self::V, ProtocolError>(e),
            },
    ;
}

/// Accumulates an encoded payload.
pub struct WireWriter {
    bytes: Vec<u8>,
}

impl View for WireWriter {
    type V = Seq<u8>;

    open spec fn view(&self) -> Seq<u8> {
        self.written()
    }
}

impl WireWriter {
    /// The bytes written so far.
    pub closed spec fn written(&self) -> Seq<u8> {
        self.bytes@
    }

    /// An empty writer.
    pub fn new() -> (w: WireWriter)
        ensures
            w@ == Seq::<u8>::empty(),
    {
        WireWriter { bytes: Vec::new() }
    }

    /// Appends one byte.
    pub fn put_u8(&mut self, value: u8)
        ensures
            final(self)@ == old(self)@.push(value),
    {
        self.bytes.push(value);
    }

    /// Appends a little-endian u16.
    pub fn put_u16(&mut self, value: u16)
        ensures
            final(self)@ == old(self)@ + le16(value),
    {
        push_le16(&mut self.bytes, value);
    }

    /// Appends a little-endian u32.
    pub fn put_u32(&mut self, value: u32)
        ensures
            final(self)@ == old(self)@ + le32(value),
    {
        push_le32(&mut self.bytes, value);
    }

    /// Appends raw bytes.
    pub fn put_bytes(&mut self, value: &[u8])
        ensures
            final(self)@ == old(self)@ + value@,
    {
        push_all(&mut self.bytes, value);
    }

    /// Appends a string led by its one-byte length. A string longer than
    /// `field_limit` or 255 bytes is `StringTooLong` and writes nothing.
    pub fn put_utf8_u8_len(&mut self, value: &str, field_limit: usize) -> (r: Result<(), ProtocolError>)
        ensures
            value.spec_bytes().len() > field_limit || value.spec_bytes().len() > 255 ==> r == Err::<
                (),
                ProtocolError,
            >(ProtocolError::StringTooLong) && final(self)@ == old(self)@,
            !(value.spec_bytes().len() > field_limit || value.spec_bytes().len() > 255) ==> r
                == Ok::<(), ProtocolError>(()) && final(self)@ == old(self)@ + wr_utf8(
                value.spec_bytes(),
            ),
    {
        let b = value.as_bytes();
        let len = b.len();
        if len > field_limit || len > 255 {
            return Err(ProtocolError::StringTooLong);
        }
        self.put_u8(len as u8);
        self.put_bytes(b);
        proof {
            assert(self@ =~= old(self)@ + wr_utf8(value.spec_bytes()));
        }
        Ok(())
    }

    /// The bytes written.
    pub fn into_inner(self) -> (b: Vec<u8>)
        ensures
            b@ == self@,
    {
        self.bytes
    }
}

/// Reads a payload front to back.
pub struct WireReader<'a> {
    bytes: &'a [u8],
    offset: usize,
}

impl<'a> WireReader<'a> {
    #[verifier::type_invariant]
    spec fn offset_in_bounds(&self) -> bool {
        self.offset <= self.bytes@.len()
    }

    /// The bytes being read.
    pub closed spec fn data(&self) -> Seq<u8> {
        self.bytes@
    }

    /// How many bytes have been consumed.
    pub closed spec fn pos(&self) -> int {
        self.offset as int
    }

    /// A reader at the start of `bytes`.
    pub fn new(bytes: &'a [u8]) -> (r: WireReader<'a>)
        ensures
            r.data() == bytes@,
            r.pos() == 0,
    {
        WireReader { bytes, offset: 0 }
    }

    fn take(&mut self, len: usize) -> (r: Result<&'a [u8], ProtocolError>)
        ensures
            final(self).data() == old(self).data(),
            match r {
                Ok(b) => rd_bytes(old(self).data(), old(self).pos(), len as int) == Ok::<
                    (Seq<u8>, int),
                    ProtocolError,
                >((b@, final(self).pos())),
                Err(e) => rd_bytes(old(self).data(), old(self).pos(), len as int) == Err::<
                    (Seq<u8>, int),
                    ProtocolError,
                >(e) && final(self).pos() == old(self).pos(),
            },
    {
        proof {
            use_type_invariant(&*self);
        }
        if len > self.bytes.len() - self.offset {
            return Err(ProtocolError::Truncated);
        }
        let end = self.offset + len;
        let value = vstd::slice::slice_subrange(self.bytes, self.offset, end);
        self.offset = end;
        Ok(value)
    }

    /// Reads one byte; at the end of the data it is `Truncated` and the
    /// reader does not move.
    pub fn read_u8(&mut self) -> (r: Result<u8, ProtocolError>)
        ensures
            final(self).data() == old(self).data(),
            match r {
                Ok(v) => rd_u8(old(self).data(), old(self).pos()) == Ok::<(u8, int), ProtocolError>(
                    (v, final(self).pos()),
                ),
                Err(e) => rd_u8(old(self).data(), old(self).pos()) == Err::<(u8, int), ProtocolError>(
                    e,
                ) && final(self).pos() == old(self).pos(),
            },
    {
        let b = self.take(1)?;
        Ok(b[0])
    }

    /// Reads a little-endian u16; short data is `Truncated` and the reader
    /// does not move.
    pub fn read_u16(&mut self) -> (r: Result<u16, ProtocolError>)
        ensures
            final(self).data() == old(self).data(),
            match r {
                Ok(v) => rd_u16(old(self).data(), old(self).pos()) == Ok::<
                    (u16, int),
                    ProtocolError,
                >((v, final(self).pos())),
                Err(e) => rd_u16(old(self).data(), old(self).pos()) == Err::<
                    (u16, int),
                    ProtocolError,
                >(e) && final(self).pos() == old(self).pos(),
            },
    {
        let b = self.take(2)?;
        Ok(get_le16(b[0], b[1]))
    }

    /// Reads a little-endian u32; short data is `Truncated` and the reader
    /// does not move.
    pub fn read_u32(&mut self) -> (r: Result<u32, ProtocolError>)
        ensures
            final(self).data() == old(self).data(),
            match r {
                Ok(v) => rd_u32(old(self).data(), old(self).pos()) == Ok::<
                    (u32, int),
                    ProtocolError,
                >((v, final(self).pos())),
                Err(e) => rd_u32(old(self).data(), old(self).pos()) == Err::<
                    (u32, int),
                    ProtocolError,
                >(e) && final(self).pos() == old(self).pos(),
            },
    {
        let b = self.take(4)?;
        Ok(get_le32(b[0], b[1], b[2], b[3]))
    }

    /// Reads `len` raw bytes; short data is `Truncated` and the reader does
    /// not move.
    pub fn read_exact(&mut self, len: usize) -> (r: Result<&'a [u8], ProtocolError>)
        ensures
            final(self).data() == old(self).data(),
            match r {
                Ok(b) => rd_bytes(old(self).data(), old(self).pos(), len as int) == Ok::<
                    (Seq<u8>, int),
                    ProtocolError,
                >((b@, final(self).pos())),
                Err(e) => rd_bytes(old(self).data(), old(self).pos(), len as int) == Err::<
                    (Seq<u8>, int),
                    ProtocolError,
                >(e) && final(self).pos() == old(self).pos(),
            },
    {
        self.take(len)
    }

    /// Reads a string led by its one-byte length; see `rd_utf8` for the
    /// errors. On error the reader has consumed what it read before failing.
    pub fn read_utf8_u8_len(&mut self, field_limit: usize) -> (r: Result<String, ProtocolError>)
        ensures
            final(self).data() == old(self).data(),
            match r {
                Ok(v) => rd_utf8(old(self).data(), old(self).pos(), field_limit as int) == Ok::<
                    (Seq<u8>, int),
                    ProtocolError,
                >((str_bytes(v), final(self).pos())),
                Err(e) => rd_utf8(old(self).data(), old(self).pos(), field_limit as int) == Err::<
                    (Seq<u8>, int),
                    ProtocolError,
                >(e),
            },
    {
        let len = self.read_u8()? as usize;
        if len > field_limit {
            return Err(ProtocolError::StringTooLong);
        }
        let bytes = self.read_exact(len)?;
        match crate::text::utf8_to_string(bytes) {
            Some(s) => Ok(s),
            None => Err(ProtocolError::InvalidUtf8),
        }
    }

    /// Succeeds when every byte has been read; otherwise `InvalidLength`.
    pub fn finish(self) -> (r: Result<(), ProtocolError>)
        ensures
            r == rd_finish(self.data(), self.pos()),
    {
        if self.offset == self.bytes.len() {
            Ok(())
        } else {
            Err(ProtocolError::InvalidLength)
        }
    }
}

} // verus!
