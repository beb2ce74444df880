//! The compact `u16` length encoding ("short u16") used for the signature
//! count of legacy and v0 transactions.
//!
//! A value is written in one to three bytes, seven bits per byte, low bits
//! first; every byte but the last has its top bit set, and the third byte may
//! only hold the two remaining high bits. Only the shortest (canonical)
//! encoding of a value is accepted when reading.
use vstd::prelude::*;

verus! {

/// Errors reported when decoding a short `u16`.
#[derive(Debug, Clone, Copy, PartialEq, Eq)]
pub enum ShortU16Error {
    /// The input ended before the encoding was complete.
    EndOfInput,
    /// A continuation byte was zero: the value has a shorter encoding.
    NonCanonical,
    /// The third byte holds bits above the sixteenth.
    Overflow,
}

/// The canonical encoding of `n`.
pub open spec fn short_u16_encoding(n: u16) -> Seq<u8> {
    if n < 0x80 {
        seq![n as u8]
    } else if n < 0x4000 {
        seq![(n % 128 + 128) as u8, (n / 128) as u8]
    } else {
        seq![(n % 128 + 128) as u8, ((n / 128) % 128 + 128) as u8, (n / 16384) as u8]
    }
}

/// Why bytes that do not start with a canonical encoding fail to decode: a
/// continuation byte followed by a zero byte (the value has a shorter
/// encoding), a third byte holding bits above the sixteenth, or else the
/// bytes end before the encoding does.
pub open spec fn short_u16_failure(bytes: Seq<u8>) -> ShortU16Error {
    if bytes.len() >= 2 && bytes[0] >= 0x80 && bytes[1] == 0 {
        ShortU16Error::NonCanonical
    } else if bytes.len() >= 3 && bytes[0] >= 0x80 && bytes[1] >= 0x80 && bytes[2] == 0 {
        ShortU16Error::NonCanonical
    } else if bytes.len() >= 3 && bytes[0] >= 0x80 && bytes[1] >= 0x80 && bytes[2] > 3 {
        ShortU16Error::Overflow
    } else {
        ShortU16Error::EndOfInput
    }
}

/// What decoding the front of `bytes` gives: the value whose canonical
/// encoding the bytes start with, and the length of that encoding; or, when
/// they start with none, the reason.
#[verifier::opaque]
pub open spec fn short_u16_decoding(bytes: Seq<u8>) -> Result<(u16, nat), ShortU16Error> {
    if exists|n: u16| #[trigger] short_u16_encoding(n).is_prefix_of(bytes) {
        let n = choose|n: u16| #[trigger] short_u16_encoding(n).is_prefix_of(bytes);
        Ok((n, short_u16_encoding(n).len()))
    } else {
        Err(short_u16_failure(bytes))
    }
}

/// The decoder's steps: one byte at a time, low bits first.
spec fn decoding_steps(bytes: Seq<u8>) -> Result<(u16, nat), ShortU16Error> {
    if bytes.len() < 1 {
        Err(ShortU16Error::EndOfInput)
    } else if bytes[0] < 0x80 {
        Ok((bytes[0] as u16, 1))
    } else if bytes.len() < 2 {
        Err(ShortU16Error::EndOfInput)
    } else if bytes[1] == 0 {
        Err(ShortU16Error::NonCanonical)
    } else if bytes[1] < 0x80 {
        Ok((((bytes[0] - 128) + bytes[1] * 128) as u16, 2))
    } else if bytes.len() < 3 {
        Err(ShortU16Error::EndOfInput)
    } else if bytes[2] == 0 {
        Err(ShortU16Error::NonCanonical)
    } else if bytes[2] > 3 {
        Err(ShortU16Error::Overflow)
    } else {
        Ok((((bytes[0] - 128) + (bytes[1] - 128) * 128 + bytes[2] * 16384) as u16, 3))
    }
}

/// The steps decode the canonical encoding of `n`, whatever follows it.
proof fn lemma_steps_decode_encoding(n: u16, rest: Seq<u8>)
    ensures
        decoding_steps(short_u16_encoding(n) + rest)
            == Ok::<(u16, nat), ShortU16Error>((n, short_u16_encoding(n).len())),
{
    let e = short_u16_encoding(n);
    let b = e + rest;
    assert(b[0] == e[0]);
    if e.len() >= 2 {
        assert(b[1] == e[1]);
    }
    if e.len() >= 3 {
        assert(b[2] == e[2]);
    }
}

/// The decoder's steps decode exactly as stated.
proof fn lemma_decoding_steps(bytes: Seq<u8>)
    ensures
        short_u16_decoding(bytes) == decoding_steps(bytes),
{
    reveal(short_u16_decoding);
    assert forall|n: u16| #[trigger] short_u16_encoding(n).is_prefix_of(bytes) implies decoding_steps(
        bytes,
    ) == Ok::<(u16, nat), ShortU16Error>((n, short_u16_encoding(n).len())) by {
        let e = short_u16_encoding(n);
        assert(bytes =~= e + bytes.skip(e.len() as int));
        lemma_steps_decode_encoding(n, bytes.skip(e.len() as int));
    }
    if decoding_steps(bytes) is Ok {
        let (n, k) = decoding_steps(bytes).unwrap();
        assert(bytes.take(k as int) =~= short_u16_encoding(n));
        assert(short_u16_encoding(n).is_prefix_of(bytes));
        let m = choose|m: u16| #[trigger] short_u16_encoding(m).is_prefix_of(bytes);
        assert(short_u16_encoding(m).is_prefix_of(bytes));
    }
}

/// Number of bytes in the encoding of `n`.
pub fn short_u16_size(n: u16) -> (r: usize)
    ensures
        r == short_u16_encoding(n).len(),
        1 <= r <= 3,
{
    if n < 0x80 {
        1
    } else if n < 0x4000 {
        2
    } else {
        3
    }
}

/// Appends the canonical encoding of `n` to `out`.
pub fn encode_short_u16(n: u16, out: &mut Vec<u8>)
    ensures
        final(out)@ == old(out)@ + short_u16_encoding(n),
{
    if n < 0x80 {
        out.push(n as u8);
    } else if n < 0x4000 {
        out.push((n % 128 + 128) as u8);
        out.push((n / 128) as u8);
    } else {
        out.push((n % 128 + 128) as u8);
        out.push(((n / 128) % 128 + 128) as u8);
        out.push((n / 16384) as u8);
    }
    assert(out@ =~= old(out)@ + short_u16_encoding(n));
}

/// Decodes a short `u16` from the front of `bytes`, returning the value and
/// the number of bytes it took.
pub fn decode_short_u16(bytes: &[u8]) -> (r: Result<(u16, usize), ShortU16Error>)
    ensures
        match r {
            Ok((n, k)) => short_u16_decoding(bytes@) == Ok::<(u16, nat), ShortU16Error>((n, k as nat)),
            Err(e) => short_u16_decoding(bytes@) == Err::<(u16, nat), ShortU16Error>(e),
        },
{
    proof {
        lemma_decoding_steps(bytes@);
    }
    if bytes.len() < 1 {
        return Err(ShortU16Error::EndOfInput);
    }
    let b0 = bytes[0];
    if b0 < 0x80 {
        return Ok((b0 as u16, 1));
    }
    if bytes.len() < 2 {
        return Err(ShortU16Error::EndOfInput);
    }
    let b1 = bytes[1];
    if b1 == 0 {
        return Err(ShortU16Error::NonCanonical);
    }
    if b1 < 0x80 {
        return Ok((((b0 - 128) as u16) + (b1 as u16) * 128, 2));
    }
    if bytes.len() < 3 {
        return Err(ShortU16Error::EndOfInput);
    }
    let b2 = bytes[2];
    if b2 == 0 {
        return Err(ShortU16Error::NonCanonical);
    }
    if b2 > 3 {
        return Err(ShortU16Error::Overflow);
    }
    Ok((((b0 - 128) as u16) + ((b1 - 128) as u16) * 128 + (b2 as u16) * 16384, 3))
}

/// Reading back what was written: decoding the canonical encoding of `n`,
/// whatever follows it, gives `n` and the length of the encoding.
pub proof fn lemma_short_u16_roundtrip(n: u16, rest: Seq<u8>)
    ensures
        short_u16_decoding(short_u16_encoding(n) + rest)
            == Ok::<(u16, nat), ShortU16Error>((n, short_u16_encoding(n).len())),
{
    lemma_steps_decode_encoding(n, rest);
    lemma_decoding_steps(short_u16_encoding(n) + rest);
}

/// Only canonical encodings are accepted: whenever decoding succeeds, the
/// bytes it took are exactly the canonical encoding of the value it gave.
pub proof fn lemma_short_u16_decoding_canonical(bytes: Seq<u8>)
    ensures
        short_u16_decoding(bytes) matches Ok((n, k)) ==> bytes.take(k as int) =~= short_u16_encoding(n),
{
    reveal(short_u16_decoding);
    if short_u16_decoding(bytes) is Ok {
        let n = choose|n: u16| #[trigger] short_u16_encoding(n).is_prefix_of(bytes);
        assert(short_u16_encoding(n).is_prefix_of(bytes));
    }
}

/// Decoding succeeds exactly on bytes that start with the canonical encoding
/// of some value, and then gives that value and the length of its encoding.
pub proof fn lemma_short_u16_decoding_succeeds(bytes: Seq<u8>)
    ensures
        short_u16_decoding(bytes) is Ok <==> exists|n: u16|
            #[trigger] short_u16_encoding(n).is_prefix_of(bytes),
        forall|n: u16|
            #[trigger] short_u16_encoding(n).is_prefix_of(bytes) ==> short_u16_decoding(bytes)
                == Ok::<(u16, nat), ShortU16Error>((n, short_u16_encoding(n).len())),
{
    assert forall|n: u16| #[trigger] short_u16_encoding(n).is_prefix_of(bytes) implies short_u16_decoding(
        bytes,
    ) == Ok::<(u16, nat), ShortU16Error>((n, short_u16_encoding(n).len())) by {
        let e = short_u16_encoding(n);
        assert(bytes =~= e + bytes.skip(e.len() as int));
        lemma_short_u16_roundtrip(n, bytes.skip(e.len() as int));
    }
    reveal(short_u16_decoding);
}

} // verus!
