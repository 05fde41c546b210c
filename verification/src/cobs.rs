//! Consistent Overhead Byte Stuffing: removes every zero byte from a raw
//! frame so that a single zero can delimit frames on the wire.

use vstd::prelude::*;

use crate::bytes::push_range;
use crate::error::ProtocolError;
use crate::frame::{HEADER_LEN, MAX_PAYLOAD_LEN};

verus! {

/// Largest raw frame a decoder accepts: header, full payload, CRC.
pub const MAX_DECODED_PACKET_LEN: usize = 1039;

/// COBS encoding of `s`, given the non-zero bytes `run` already gathered
/// into the current block (fewer than 254 of them).
pub open spec fn cobs_encode_from(s: Seq<u8>, run: Seq<u8>) -> Seq<u8>
    decreases s.len(),
{
    if s.len() == 0 {
        seq![(run.len() + 1) as u8] + run
    } else if s[0] == 0 {
        seq![(run.len() + 1) as u8] + run + cobs_encode_from(s.drop_first(), Seq::empty())
    } else if run.len() + 1 == 254 {
        seq![0xFFu8] + run.push(s[0]) + cobs_encode_from(s.drop_first(), Seq::empty())
    } else {
        cobs_encode_from(s.drop_first(), run.push(s[0]))
    }
}

/// COBS encoding of `s`: blocks of at most 254 data bytes, each led by a code
/// byte one above its length; code 0xFF marks a full block that is not
/// followed by an implied zero.
pub open spec fn spec_cobs_encode(s: Seq<u8>) -> Seq<u8> {
    cobs_encode_from(s, Seq::empty())
}

/// Decoding of the blocks in `s` when `produced` bytes have already been
/// decoded before them.
pub open spec fn cobs_decode_from(s: Seq<u8>, produced: nat) -> Result<Seq<u8>, ProtocolError>
    decreases s.len(),
{
    if s.len() == 0 {
        Ok(Seq::empty())
    } else {
        let code = s[0];
        let data_len = code - 1;
        if code == 0 || 1 + data_len > s.len() {
            Err(ProtocolError::CobsMalformed)
        } else if produced + data_len > MAX_DECODED_PACKET_LEN {
            Err(ProtocolError::PacketTooLong)
        } else {
            let data = s.subrange(1, 1 + data_len);
            let rest = s.subrange(1 + data_len, s.len() as int);
            if code != 0xFF && rest.len() > 0 {
                if produced + data_len == MAX_DECODED_PACKET_LEN {
                    Err(ProtocolError::PacketTooLong)
                } else {
                    match cobs_decode_from(rest, (produced + data_len + 1) as nat) {
                        Ok(tail) => Ok(data.push(0) + tail),
                        Err(e) => Err(e),
                    }
                }
            } else {
                match cobs_decode_from(rest, (produced + data_len) as nat) {
                    Ok(tail) => Ok(data + tail),
                    Err(e) => Err(e),
                }
            }
        }
    }
}

/// COBS decoding of an undelimited packet: an empty packet, a zero code or a
/// block running past the end is `CobsMalformed`; output beyond
/// `MAX_DECODED_PACKET_LEN` bytes is `PacketTooLong`.
pub open spec fn spec_cobs_decode(s: Seq<u8>) -> Result<Seq<u8>, ProtocolError> {
    if s.len() == 0 {
        Err(ProtocolError::CobsMalformed)
    } else {
        cobs_decode_from(s, 0)
    }
}

/// No byte of `s` is zero.
pub open spec fn zero_free(s: Seq<u8>) -> bool {
    forall|i: int| 0 <= i < s.len() ==> s[i] != 0
}

/// `prefix` followed by the outcome of a later decoding step.
pub open spec fn prepend(prefix: Seq<u8>, r: Result<Seq<u8>, ProtocolError>) -> Result<
    Seq<u8>,
    ProtocolError,
> {
    match r {
        Ok(tail) => Ok(prefix + tail),
        Err(e) => Err(e),
    }
}

proof fn lemma_encode_from_shape(s: Seq<u8>, run: Seq<u8>)
    requires
        zero_free(run),
        run.len() < 254,
    ensures
        cobs_encode_from(s, run).len() > 0,
        zero_free(cobs_encode_from(s, run)),
    decreases s.len(),
{
    let e = cobs_encode_from(s, run);
    if s.len() == 0 {
        assert(zero_free(e));
    } else if s[0] == 0 {
        lemma_encode_from_shape(s.drop_first(), Seq::empty());
        let head = seq![(run.len() + 1) as u8] + run;
        assert(zero_free(head));
        assert(e == head + cobs_encode_from(s.drop_first(), Seq::empty()));
        assert forall|i: int| 0 <= i < e.len() implies e[i] != 0 by {
            if i >= head.len() {
                assert(e[i] == cobs_encode_from(s.drop_first(), Seq::empty())[i - head.len()]);
            }
        }
    } else if run.len() + 1 == 254 {
        lemma_encode_from_shape(s.drop_first(), Seq::empty());
        let head = seq![0xFFu8] + run.push(s[0]);
        assert(zero_free(head));
        assert forall|i: int| 0 <= i < e.len() implies e[i] != 0 by {
            if i >= head.len() {
                assert(e[i] == cobs_encode_from(s.drop_first(), Seq::empty())[i - head.len()]);
            }
        }
    } else {
        lemma_encode_from_shape(s.drop_first(), run.push(s[0]));
    }
}

proof fn lemma_encode_from_len(s: Seq<u8>, run: Seq<u8>)
    requires
        run.len() < 254,
    ensures
        cobs_encode_from(s, run).len() <= 1 + run.len() + s.len() + (run.len() + s.len()) / 254,
    decreases s.len(),
{
    let n = s.len() as int;
    let r = run.len() as int;
    if s.len() == 0 {
    } else if s[0] == 0 {
        lemma_encode_from_len(s.drop_first(), Seq::empty());
        assert((n - 1) / 254 <= (r + n) / 254) by (nonlinear_arith)
            requires
                n >= 1,
                r >= 0,
        ;
    } else if run.len() + 1 == 254 {
        lemma_encode_from_len(s.drop_first(), Seq::empty());
        assert(1 + (n - 1) / 254 == (253 + n) / 254) by (nonlinear_arith)
            requires
                n >= 1,
        ;
    } else {
        lemma_encode_from_len(s.drop_first(), run.push(s[0]));
    }
}

/// COBS adds at most one byte, plus one per 254 bytes of input.
pub proof fn lemma_cobs_encode_len(s: Seq<u8>)
    ensures
        spec_cobs_encode(s).len() <= 1 + s.len() + s.len() / 254,
{
    lemma_encode_from_len(s, Seq::empty());
}

/// The COBS encoding of any input is non-empty and holds no zero byte, so a
/// zero can delimit it.
pub proof fn lemma_cobs_encode_zero_free(s: Seq<u8>)
    ensures
        spec_cobs_encode(s).len() > 0,
        zero_free(spec_cobs_encode(s)),
{
    lemma_encode_from_shape(s, Seq::empty());
}

proof fn lemma_decode_encode_from(s: Seq<u8>, run: Seq<u8>, produced: nat)
    requires
        zero_free(run),
        run.len() < 254,
        produced + run.len() + s.len() <= MAX_DECODED_PACKET_LEN,
    ensures
        cobs_decode_from(cobs_encode_from(s, run), produced) == Ok::<Seq<u8>, ProtocolError>(
            run + s,
        ),
    decreases s.len(),
{
    let e = cobs_encode_from(s, run);
    if s.len() == 0 {
        let code = (run.len() + 1) as u8;
        assert(e[0] == code);
        assert(e.subrange(1, 1 + code - 1) =~= run);
        assert(e.subrange(1 + code - 1, e.len() as int) =~= Seq::<u8>::empty());
        assert(run + s =~= run);
        assert(run + Seq::<u8>::empty() =~= run);
        assert(cobs_decode_from(Seq::<u8>::empty(), produced + run.len()) == Ok::<
            Seq<u8>,
            ProtocolError,
        >(Seq::empty()));
    } else if s[0] == 0 {
        let code = (run.len() + 1) as u8;
        let rest = cobs_encode_from(s.drop_first(), Seq::empty());
        lemma_encode_from_shape(s.drop_first(), Seq::empty());
        lemma_decode_encode_from(s.drop_first(), Seq::empty(), produced + run.len() + 1);
        assert(e == seq![code] + run + rest);
        assert(e[0] == code);
        assert(e.subrange(1, 1 + code - 1) =~= run);
        assert(e.subrange(1 + code - 1, e.len() as int) =~= rest);
        assert(Seq::<u8>::empty() + s.drop_first() =~= s.drop_first());
        assert(run.push(0) + s.drop_first() =~= run + s);
        assert(s == seq![0u8] + s.drop_first());
        assert(rest.len() > 0);
        assert(cobs_decode_from(rest, (produced + run.len() + 1) as nat) == Ok::<
            Seq<u8>,
            ProtocolError,
        >(s.drop_first()));
    } else if run.len() + 1 == 254 {
        let rest = cobs_encode_from(s.drop_first(), Seq::empty());
        lemma_encode_from_shape(s.drop_first(), Seq::empty());
        lemma_decode_encode_from(s.drop_first(), Seq::empty(), produced + 254);
        assert(e == seq![0xFFu8] + run.push(s[0]) + rest);
        assert(e.subrange(1, 255) =~= run.push(s[0]));
        assert(e.subrange(255, e.len() as int) =~= rest);
        assert(Seq::<u8>::empty() + s.drop_first() =~= s.drop_first());
        assert(run.push(s[0]) + s.drop_first() =~= run + s);
    } else {
        lemma_decode_encode_from(s.drop_first(), run.push(s[0]), produced);
        assert(run.push(s[0]) + s.drop_first() =~= run + s);
    }
}

/// Decoding the COBS encoding of a frame-sized input gives the input back.
pub proof fn lemma_cobs_round_trip(s: Seq<u8>)
    requires
        s.len() <= MAX_DECODED_PACKET_LEN,
    ensures
        spec_cobs_decode(spec_cobs_encode(s)) == Ok::<Seq<u8>, ProtocolError>(s),
{
    lemma_encode_from_shape(s, Seq::empty());
    lemma_decode_encode_from(s, Seq::empty(), 0);
    assert(Seq::<u8>::empty() + s =~= s);
}

/// The COBS encoding of `input` (without the trailing zero delimiter).
pub fn cobs_encode(input: &[u8]) -> (encoded: Vec<u8>)
    ensures
        encoded@ == spec_cobs_encode(input@),
{
    let mut encoded: Vec<u8> = Vec::new();
    let mut code_index: usize = 0;
    let mut code: u8 = 1;
    encoded.push(0);
    let ghost mut done: Seq<u8> = Seq::empty();
    let ghost mut run: Seq<u8> = Seq::empty();
    let mut i: usize = 0;
    proof {
        assert(input@.skip(0) =~= input@);
        assert(encoded@ =~= done + seq![0u8] + run);
        assert(done + cobs_encode_from(input@, run) =~= cobs_encode_from(input@, run));
    }
    while i < input.len()
        invariant
            i <= input@.len(),
            code_index < encoded@.len(),
            code_index == done.len(),
            zero_free(run),
            run.len() < 254,
            code as int == run.len() + 1,
            encoded@ == done + seq![0u8] + run,
            spec_cobs_encode(input@) == done + cobs_encode_from(input@.skip(i as int), run),
        decreases input@.len() - i,
    {
        let byte = input[i];
        let ghost rest = input@.skip(i as int);
        proof {
            assert(rest[0] == byte);
            assert(rest.drop_first() =~= input@.skip(i + 1));
        }
        if byte == 0 {
            encoded.set(code_index, code);
            proof {
                done = done + seq![code] + run;
                run = Seq::empty();
                assert(encoded@ =~= done);
            }
            code_index = encoded.len();
            encoded.push(0);
            code = 1;
        } else {
            encoded.push(byte);
            code = code + 1;
            if code == 0xFF {
                encoded.set(code_index, code);
                proof {
                    done = done + seq![0xFFu8] + run.push(byte);
                    run = Seq::empty();
                    assert(encoded@ =~= done);
                }
                code_index = encoded.len();
                encoded.push(0);
                code = 1;
            } else {
                proof {
                    run = run.push(byte);
                    assert(encoded@ =~= done + seq![0u8] + run);
                }
            }
        }
        i = i + 1;
    }
    encoded.set(code_index, code);
    proof {
        assert(input@.skip(i as int).len() == 0);
        assert(encoded@ =~= done + (seq![code] + run));
    }
    encoded
}

/// COBS decoding of one undelimited packet; see `spec_cobs_decode` for the
/// errors.
pub fn cobs_decode(input: &[u8]) -> (r: Result<Vec<u8>, ProtocolError>)
    ensures
        match r {
            Ok(v) => spec_cobs_decode(input@) == Ok::<Seq<u8>, ProtocolError>(v@),
            Err(e) => spec_cobs_decode(input@) == Err::<Seq<u8>, ProtocolError>(e),
        },
{
    if input.len() == 0 {
        return Err(ProtocolError::CobsMalformed);
    }
    let mut decoded: Vec<u8> = Vec::new();
    let mut index: usize = 0;
    proof {
        assert(input@.subrange(0, input@.len() as int) =~= input@);
        assert(Seq::<u8>::empty() + input@ =~= input@);
    }
    while index < input.len()
        invariant
            index <= input@.len(),
            decoded@.len() <= MAX_DECODED_PACKET_LEN,
            input@.len() > 0,
            spec_cobs_decode(input@) == prepend(
                decoded@,
                cobs_decode_from(input@.subrange(index as int, input@.len() as int), decoded@.len()),
            ),
        decreases input@.len() - index,
    {
        let ghost s = input@.subrange(index as int, input@.len() as int);
        let code = input[index];
        if code == 0 {
            return Err(ProtocolError::CobsMalformed);
        }
        index = index + 1;
        let data_len = (code - 1) as usize;
        if data_len > input.len() - index {
            return Err(ProtocolError::CobsMalformed);
        }
        let end = index + data_len;
        if data_len > MAX_DECODED_PACKET_LEN - decoded.len() {
            return Err(ProtocolError::PacketTooLong);
        }
        let ghost before = decoded@;
        push_range(&mut decoded, input, index, end);
        proof {
            assert(s.subrange(1, 1 + data_len) =~= input@.subrange(index as int, end as int));
            assert(s.subrange(1 + data_len, s.len() as int) =~= input@.subrange(
                end as int,
                input@.len() as int,
            ));
        }
        index = end;
        if code != 0xFF && index < input.len() {
            if decoded.len() == MAX_DECODED_PACKET_LEN {
                return Err(ProtocolError::PacketTooLong);
            }
            decoded.push(0);
            proof {
                let data = input@.subrange((end - data_len) as int, end as int);
                assert(decoded@ =~= before + data.push(0));
                let t = cobs_decode_from(input@.subrange(index as int, input@.len() as int), decoded@.len());
                match t {
                    Ok(tail) => {
                        assert(before + (data.push(0) + tail) =~= decoded@ + tail);
                    },
                    Err(_) => {},
                }
            }
        } else {
            proof {
                let data = input@.subrange((end - data_len) as int, end as int);
                let t = cobs_decode_from(input@.subrange(index as int, input@.len() as int), decoded@.len());
                match t {
                    Ok(tail) => {
                        assert(before + (data + tail) =~= decoded@ + tail);
                    },
                    Err(_) => {},
                }
            }
        }
    }
    proof {
        assert(input@.subrange(index as int, input@.len() as int).len() == 0);
        assert(decoded@ + Seq::<u8>::empty() =~= decoded@);
    }
    Ok(decoded)
}

} // verus!
