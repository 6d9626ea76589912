use crate::errors::DecodeError;
use crate::felt::{felt, group_felt, Felt, MODULUS};
use crate::hash::{digest_from, lemma_digest_from};
use vstd::bytes::*;
use vstd::prelude::*;
use vstd::slice::slice_subrange;

verus! {

broadcast use group_felt;

// WHAT THE BYTES SAY
// ================================================================================================

/// The first `n` bytes and the bytes behind them.
pub open spec fn take_bytes(bytes: Seq<u8>, n: nat) -> Result<(Seq<u8>, Seq<u8>), DecodeError> {
    if bytes.len() < n {
        Err(DecodeError::UnexpectedEnd)
    } else {
        Ok((bytes.take(n as int), bytes.skip(n as int)))
    }
}

/// One byte.
pub open spec fn decode_u8(bytes: Seq<u8>) -> Result<(u8, Seq<u8>), DecodeError> {
    match take_bytes(bytes, 1) {
        Ok((head, rest)) => Ok((head[0], rest)),
        Err(e) => Err(e),
    }
}

/// A 16-bit number, least significant byte first.
pub open spec fn decode_u16(bytes: Seq<u8>) -> Result<(u16, Seq<u8>), DecodeError> {
    match take_bytes(bytes, 2) {
        Ok((head, rest)) => Ok((spec_u16_from_le_bytes(head), rest)),
        Err(e) => Err(e),
    }
}

/// A 32-bit number, least significant byte first.
pub open spec fn decode_u32(bytes: Seq<u8>) -> Result<(u32, Seq<u8>), DecodeError> {
    match take_bytes(bytes, 4) {
        Ok((head, rest)) => Ok((spec_u32_from_le_bytes(head), rest)),
        Err(e) => Err(e),
    }
}

/// A 64-bit number, least significant byte first.
pub open spec fn decode_u64(bytes: Seq<u8>) -> Result<(u64, Seq<u8>), DecodeError> {
    match take_bytes(bytes, 8) {
        Ok((head, rest)) => Ok((spec_u64_from_le_bytes(head), rest)),
        Err(e) => Err(e),
    }
}

/// A flag: the byte 0 or 1.
pub open spec fn decode_flag(bytes: Seq<u8>) -> Result<(bool, Seq<u8>), DecodeError> {
    match decode_u8(bytes) {
        Ok((value, rest)) => if value == 0 {
            Ok((false, rest))
        } else if value == 1 {
            Ok((true, rest))
        } else {
            Err(DecodeError::InvalidValue)
        },
        Err(e) => Err(e),
    }
}

/// A field element: its canonical representative as a 64-bit number.
pub open spec fn decode_felt(bytes: Seq<u8>) -> Result<(Felt, Seq<u8>), DecodeError> {
    match decode_u64(bytes) {
        Ok((value, rest)) => if value < MODULUS {
            Ok((felt(value), rest))
        } else {
            Err(DecodeError::InvalidValue)
        },
        Err(e) => Err(e),
    }
}

/// A content address: 24 bytes.
pub open spec fn decode_digest(bytes: Seq<u8>) -> Result<([u8; 24], Seq<u8>), DecodeError> {
    match take_bytes(bytes, 24) {
        Ok((head, rest)) => Ok((digest_from(head), rest)),
        Err(e) => Err(e),
    }
}

/// A byte string: its length as a 64-bit number, then its bytes.
pub open spec fn decode_string(bytes: Seq<u8>) -> Result<(Seq<u8>, Seq<u8>), DecodeError> {
    match decode_u64(bytes) {
        Ok((length, rest)) => take_bytes(rest, length as nat),
        Err(e) => Err(e),
    }
}

// WHAT IS WRITTEN
// ================================================================================================

/// A flag as a byte.
pub open spec fn encode_flag(flag: bool) -> Seq<u8> {
    seq![if flag { 1u8 } else { 0u8 }]
}

/// A field element as the 64-bit number of its representative.
pub open spec fn encode_felt(element: Felt) -> Seq<u8> {
    spec_u64_to_le_bytes(element@)
}

/// A byte string behind its length.
pub open spec fn encode_string(s: Seq<u8>) -> Seq<u8> {
    spec_u64_to_le_bytes(s.len() as u64) + s
}

// READING THE WRITTEN
// ================================================================================================

/// What is taken from the front of bytes is what was put there.
pub proof fn lemma_take(head: Seq<u8>, rest: Seq<u8>)
    ensures
        take_bytes(head + rest, head.len()) == Ok::<(Seq<u8>, Seq<u8>), DecodeError>((head, rest)),
{
    assert((head + rest).take(head.len() as int) =~= head);
    assert((head + rest).skip(head.len() as int) =~= rest);
}

/// A byte is read as it was written.
pub proof fn lemma_u8(value: u8, rest: Seq<u8>)
    ensures
        decode_u8(seq![value] + rest) == Ok::<(u8, Seq<u8>), DecodeError>((value, rest)),
{
    lemma_take(seq![value], rest);
}

/// A 16-bit number is read as it was written.
pub proof fn lemma_u16(value: u16, rest: Seq<u8>)
    ensures
        decode_u16(spec_u16_to_le_bytes(value) + rest) == Ok::<(u16, Seq<u8>), DecodeError>(
            (value, rest),
        ),
{
    lemma_auto_spec_u16_to_from_le_bytes();
    lemma_take(spec_u16_to_le_bytes(value), rest);
}

/// A 32-bit number is read as it was written.
pub proof fn lemma_u32(value: u32, rest: Seq<u8>)
    ensures
        decode_u32(spec_u32_to_le_bytes(value) + rest) == Ok::<(u32, Seq<u8>), DecodeError>(
            (value, rest),
        ),
{
    lemma_auto_spec_u32_to_from_le_bytes();
    lemma_take(spec_u32_to_le_bytes(value), rest);
}

/// A 64-bit number is read as it was written.
pub proof fn lemma_u64(value: u64, rest: Seq<u8>)
    ensures
        decode_u64(spec_u64_to_le_bytes(value) + rest) == Ok::<(u64, Seq<u8>), DecodeError>(
            (value, rest),
        ),
{
    lemma_auto_spec_u64_to_from_le_bytes();
    lemma_take(spec_u64_to_le_bytes(value), rest);
}

/// A flag is read as it was written.
pub proof fn lemma_flag(flag: bool, rest: Seq<u8>)
    ensures
        decode_flag(encode_flag(flag) + rest) == Ok::<(bool, Seq<u8>), DecodeError>((flag, rest)),
{
    lemma_u8(if flag { 1u8 } else { 0u8 }, rest);
}

/// A canonical field element is read as it was written.
pub proof fn lemma_felt(element: Felt, rest: Seq<u8>)
    requires
        element.is_canonical(),
    ensures
        decode_felt(encode_felt(element) + rest) == Ok::<(Felt, Seq<u8>), DecodeError>(
            (element, rest),
        ),
{
    lemma_u64(element@, rest);
}

/// A content address is read as it was written.
pub proof fn lemma_digest(digest: [u8; 24], rest: Seq<u8>)
    ensures
        decode_digest(digest@ + rest) == Ok::<([u8; 24], Seq<u8>), DecodeError>((digest, rest)),
{
    lemma_take(digest@, rest);
    lemma_digest_from(digest);
}

/// A byte string is read as it was written.
pub proof fn lemma_string(s: Seq<u8>, rest: Seq<u8>)
    requires
        s.len() <= u64::MAX,
    ensures
        decode_string(encode_string(s) + rest) == Ok::<(Seq<u8>, Seq<u8>), DecodeError>((s, rest)),
{
    assert(encode_string(s) + rest =~= spec_u64_to_le_bytes(s.len() as u64) + (s + rest));
    lemma_u64(s.len() as u64, s + rest);
    lemma_take(s, rest);
}

// WRITERS
// ================================================================================================

/// Appends a byte.
pub fn write_u8(out: &mut Vec<u8>, value: u8)
    ensures
        final(out)@ == old(out)@ + seq![value],
{
    out.push(value);
    assert(out@ =~= old(out)@ + seq![value]);
}

/// Appends a 16-bit number.
pub fn write_u16(out: &mut Vec<u8>, value: u16)
    ensures
        final(out)@ == old(out)@ + spec_u16_to_le_bytes(value),
{
    let mut bytes = u16_to_le_bytes(value);
    out.append(&mut bytes);
}

/// Appends a 32-bit number.
pub fn write_u32(out: &mut Vec<u8>, value: u32)
    ensures
        final(out)@ == old(out)@ + spec_u32_to_le_bytes(value),
{
    let mut bytes = u32_to_le_bytes(value);
    out.append(&mut bytes);
}

/// Appends a 64-bit number.
pub fn write_u64(out: &mut Vec<u8>, value: u64)
    ensures
        final(out)@ == old(out)@ + spec_u64_to_le_bytes(value),
{
    let mut bytes = u64_to_le_bytes(value);
    out.append(&mut bytes);
}

/// Appends a length.
pub fn write_len(out: &mut Vec<u8>, length: usize)
    ensures
        final(out)@ == old(out)@ + spec_u64_to_le_bytes(length as u64),
{
    write_u64(out, length as u64);
}

/// Appends a flag.
pub fn write_flag(out: &mut Vec<u8>, flag: bool)
    ensures
        final(out)@ == old(out)@ + encode_flag(flag),
{
    write_u8(out, if flag { 1 } else { 0 });
}

/// Appends a field element.
pub fn write_felt(out: &mut Vec<u8>, element: &Felt)
    ensures
        final(out)@ == old(out)@ + encode_felt(*element),
        element.is_canonical(),
{
    write_u64(out, element.as_int());
}

/// Appends bytes as they are.
pub fn write_bytes(out: &mut Vec<u8>, bytes: &[u8])
    ensures
        final(out)@ == old(out)@ + bytes@,
{
    let mut i: usize = 0;
    assert(out@ =~= old(out)@ + bytes@.take(0));
    while i < bytes.len()
        invariant
            i <= bytes@.len(),
            out@ == old(out)@ + bytes@.take(i as int),
        decreases bytes@.len() - i,
    {
        out.push(bytes[i]);
        assert(out@ =~= old(out)@ + bytes@.take(i + 1));
        i += 1;
    }
    assert(bytes@.take(bytes@.len() as int) =~= bytes@);
}

/// Appends a byte string behind its length.
pub fn write_string(out: &mut Vec<u8>, s: &[u8])
    ensures
        final(out)@ == old(out)@ + encode_string(s@),
        s@.len() <= u64::MAX,
{
    write_len(out, s.len());
    write_bytes(out, s);
    assert(out@ =~= old(out)@ + encode_string(s@));
}

// READERS
// ================================================================================================

/// Whether a reader gave what the bytes say, and left in `after` the bytes
/// behind what it read.
pub open spec fn reads<T>(
    r: Result<T, DecodeError>,
    after: Seq<u8>,
    spec: Result<(T, Seq<u8>), DecodeError>,
) -> bool {
    match spec {
        Ok((value, rest)) => r == Ok::<T, DecodeError>(value) && after == rest,
        Err(e) => r == Err::<T, DecodeError>(e),
    }
}

/// Takes `n` bytes from the front of `source`.
pub fn read_bytes<'a>(source: &mut &'a [u8], n: usize) -> (r: Result<&'a [u8], DecodeError>)
    ensures
        match take_bytes(old(source)@, n as nat) {
            Ok((head, rest)) => r is Ok && r.unwrap()@ == head && final(source)@ == rest,
            Err(e) => r == Err::<&[u8], DecodeError>(e),
        },
{
    let all: &'a [u8] = *source;
    if all.len() < n {
        return Err(DecodeError::UnexpectedEnd);
    }
    let head = slice_subrange(all, 0, n);
    *source = slice_subrange(all, n, all.len());
    assert(head@ =~= all@.take(n as int));
    assert(source@ =~= all@.skip(n as int));
    Ok(head)
}

/// Reads a byte.
pub fn read_u8(source: &mut &[u8]) -> (r: Result<u8, DecodeError>)
    ensures
        reads(r, final(source)@, decode_u8(old(source)@)),
{
    match read_bytes(source, 1) {
        Ok(head) => Ok(head[0]),
        Err(e) => Err(e),
    }
}

/// Reads a 16-bit number.
pub fn read_u16(source: &mut &[u8]) -> (r: Result<u16, DecodeError>)
    ensures
        reads(r, final(source)@, decode_u16(old(source)@)),
{
    match read_bytes(source, 2) {
        Ok(head) => Ok(u16_from_le_bytes(head)),
        Err(e) => Err(e),
    }
}

/// Reads a 32-bit number.
pub fn read_u32(source: &mut &[u8]) -> (r: Result<u32, DecodeError>)
    ensures
        reads(r, final(source)@, decode_u32(old(source)@)),
{
    match read_bytes(source, 4) {
        Ok(head) => Ok(u32_from_le_bytes(head)),
        Err(e) => Err(e),
    }
}

/// Reads a 64-bit number.
pub fn read_u64(source: &mut &[u8]) -> (r: Result<u64, DecodeError>)
    ensures
        reads(r, final(source)@, decode_u64(old(source)@)),
{
    match read_bytes(source, 8) {
        Ok(head) => Ok(u64_from_le_bytes(head)),
        Err(e) => Err(e),
    }
}

/// Reads a flag.
pub fn read_flag(source: &mut &[u8]) -> (r: Result<bool, DecodeError>)
    ensures
        reads(r, final(source)@, decode_flag(old(source)@)),
{
    match read_u8(source) {
        Ok(value) => if value == 0 {
            Ok(false)
        } else if value == 1 {
            Ok(true)
        } else {
            Err(DecodeError::InvalidValue)
        },
        Err(e) => Err(e),
    }
}

/// Reads a field element.
pub fn read_felt(source: &mut &[u8]) -> (r: Result<Felt, DecodeError>)
    ensures
        reads(r, final(source)@, decode_felt(old(source)@)),
{
    match read_u64(source) {
        Ok(value) => if value < MODULUS {
            Ok(Felt::from_canonical(value))
        } else {
            Err(DecodeError::InvalidValue)
        },
        Err(e) => Err(e),
    }
}

/// Reads a content address.
pub fn read_digest(source: &mut &[u8]) -> (r: Result<[u8; 24], DecodeError>)
    ensures
        reads(r, final(source)@, decode_digest(old(source)@)),
{
    match read_bytes(source, 24) {
        Ok(head) => {
            let mut digest: [u8; 24] = [0u8; 24];
            let mut i: usize = 0;
            while i < 24
                invariant
                    i <= 24,
                    head@.len() == 24,
                    forall|j: int| 0 <= j < i ==> digest@[j] == head@[j],
                decreases 24 - i,
            {
                digest[i] = head[i];
                i += 1;
            }
            assert(digest@ =~= head@);
            proof {
                lemma_digest_from(digest);
            }
            Ok(digest)
        },
        Err(e) => Err(e),
    }
}

/// Reads a byte string.
pub fn read_string(source: &mut &[u8]) -> (r: Result<Vec<u8>, DecodeError>)
    ensures
        match decode_string(old(source)@) {
            Ok((s, rest)) => r is Ok && r.unwrap()@ == s && final(source)@ == rest,
            Err(e) => r == Err::<Vec<u8>, DecodeError>(e),
        },
{
    let length = match read_u64(source) {
        Ok(length) => length,
        Err(e) => {
            return Err(e);
        },
    };
    if length > source.len() as u64 {
        return Err(DecodeError::UnexpectedEnd);
    }
    match read_bytes(source, length as usize) {
        Ok(head) => {
            let s = crate::text::copy_range(head, 0, head.len());
            assert(s@ =~= head@);
            Ok(s)
        },
        Err(e) => Err(e),
    }
}

} // verus!
