use vstd::prelude::*;

verus! {

/// Width in bytes of an encoded record.
pub const RECORD_LEN: usize = 4;

/// What can go wrong while handling one invocation.
#[derive(Clone, Copy, Debug, PartialEq, Eq, Structural)]
pub enum GreetingError {
    /// The invocation names no account.
    MissingAccount,
    /// The account is not owned by the invoking program.
    UnauthorizedAccount,
    /// The account's bytes do not hold a record.
    MalformedRecord,
    /// The destination buffer is narrower than a record.
    BufferTooSmall,
}

/// The state stored in each greeted account.
#[derive(Clone, Copy, Debug, PartialEq, Eq, Structural)]
pub struct GreetingAccount {
    /// Number of greetings.
    pub counter: u32,
}

/// The `u32` whose little-endian bytes are the first four of `b`.
pub open spec fn le_u32(b: Seq<u8>) -> u32
    recommends
        b.len() >= 4,
{
    (b[0] + 0x100 * b[1] + 0x1_0000 * b[2] + 0x100_0000 * b[3]) as u32
}

/// The four little-endian bytes of `v`.
pub open spec fn le_bytes(v: u32) -> Seq<u8> {
    seq![
        (v % 0x100) as u8,
        (v / 0x100 % 0x100) as u8,
        (v / 0x1_0000 % 0x100) as u8,
        (v / 0x100_0000) as u8,
    ]
}

/// The record held by a buffer: exactly `RECORD_LEN` bytes, little-endian.
pub open spec fn decode_record(b: Seq<u8>) -> Result<GreetingAccount, GreetingError> {
    if b.len() == RECORD_LEN {
        Ok(GreetingAccount { counter: le_u32(b) })
    } else {
        Err(GreetingError::MalformedRecord)
    }
}

/// `buf` with its first `RECORD_LEN` bytes replaced by the encoding of `r`.
pub open spec fn write_record(buf: Seq<u8>, r: GreetingAccount) -> Seq<u8> {
    le_bytes(r.counter) + buf.subrange(RECORD_LEN as int, buf.len() as int)
}

/// std's I/O error, which borsh's reads and writes return.
#[verifier::external_type_specification]
#[verifier::external_body]
pub struct ExIoError(std::io::Error);

/// Relies on borsh's `BorshDeserialize::try_from_slice` for `u32`: it reads
/// the little-endian `u32` at the front and fails unless the slice holds
/// exactly four bytes.
#[verifier::external_body]
fn borsh_u32_from_slice(bytes: &[u8]) -> (r: Result<u32, std::io::Error>)
    ensures
        r is Ok <==> bytes@.len() == 4,
        r is Ok ==> r->Ok_0 == le_u32(bytes@),
{
    <u32 as borsh::BorshDeserialize>::try_from_slice(bytes)
}

/// Relies on borsh's `BorshSerialize::serialize` for `u32` into a byte slice:
/// it writes the four little-endian bytes at the front of the slice, and
/// fails when the slice is shorter than that.
#[verifier::external_body]
fn borsh_u32_write(value: u32, buf: &mut Vec<u8>) -> (r: Result<(), std::io::Error>)
    ensures
        final(buf)@.len() == old(buf)@.len(),
        r is Ok <==> old(buf)@.len() >= 4,
        r is Ok ==> final(buf)@ == le_bytes(value) + old(buf)@.subrange(4, old(buf)@.len() as int),
{
    borsh::BorshSerialize::serialize(&value, &mut buf.as_mut_slice())
}

impl GreetingAccount {
    /// Reads the record held by `bytes`; fails with `MalformedRecord` unless
    /// `bytes` is exactly `RECORD_LEN` long.
    pub fn decode(bytes: &[u8]) -> (r: Result<GreetingAccount, GreetingError>)
        ensures
            r == decode_record(bytes@),
    {
        match borsh_u32_from_slice(bytes) {
            Ok(counter) => Ok(GreetingAccount { counter }),
            Err(_) => Err(GreetingError::MalformedRecord),
        }
    }

    /// Writes the record over the first `RECORD_LEN` bytes of `buf`; fails
    /// with `BufferTooSmall`, leaving `buf` as it was, when `buf` is shorter.
    pub fn encode(&self, buf: &mut Vec<u8>) -> (r: Result<(), GreetingError>)
        ensures
            r is Ok <==> old(buf)@.len() >= RECORD_LEN,
            r is Err ==> r == Err::<(), GreetingError>(GreetingError::BufferTooSmall),
            r is Ok ==> final(buf)@ == write_record(old(buf)@, *self),
            r is Err ==> final(buf)@ == old(buf)@,
    {
        if buf.len() < RECORD_LEN {
            return Err(GreetingError::BufferTooSmall);
        }
        match borsh_u32_write(self.counter, buf) {
            Ok(()) => Ok(()),
            Err(_) => Err(GreetingError::BufferTooSmall),
        }
    }
}

/// Decoding the encoding of a record gives the record back.
pub proof fn lemma_decode_encode(buf: Seq<u8>, r: GreetingAccount)
    requires
        buf.len() == RECORD_LEN,
    ensures
        write_record(buf, r) == le_bytes(r.counter),
        le_u32(le_bytes(r.counter)) == r.counter,
        decode_record(write_record(buf, r)) == Ok::<GreetingAccount, GreetingError>(r),
{
    let v = r.counter;
    let b = le_bytes(v);
    let (b0, b1, b2, b3) = (b[0] as u32, b[1] as u32, b[2] as u32, b[3] as u32);
    assert(b0 == v % 0x100 && b1 == v / 0x100 % 0x100 && b2 == v / 0x1_0000 % 0x100 && b3 == v
        / 0x100_0000);
    assert(v == b0 + 0x100 * b1 + 0x1_0000 * b2 + 0x100_0000 * b3) by (bit_vector)
        requires
            b0 == v % 0x100,
            b1 == v / 0x100 % 0x100,
            b2 == v / 0x1_0000 % 0x100,
            b3 == v / 0x100_0000,
    ;
    assert(write_record(buf, r) =~= b);
}

/// Encoding the record that a buffer holds gives the buffer back.
pub proof fn lemma_encode_decode(b: Seq<u8>)
    requires
        b.len() == RECORD_LEN,
    ensures
        le_bytes(le_u32(b)) == b,
        write_record(b, decode_record(b)->Ok_0) == b,
{
    let (b0, b1, b2, b3) = (b[0] as u32, b[1] as u32, b[2] as u32, b[3] as u32);
    let v = le_u32(b);
    assert(v == b0 + 0x100 * b1 + 0x1_0000 * b2 + 0x100_0000 * b3);
    assert(v % 0x100 == b0 && v / 0x100 % 0x100 == b1 && v / 0x1_0000 % 0x100 == b2 && v
        / 0x100_0000 == b3) by (bit_vector)
        requires
            v == b0 + 0x100 * b1 + 0x1_0000 * b2 + 0x100_0000 * b3,
            b0 < 0x100 && b1 < 0x100 && b2 < 0x100 && b3 < 0x100,
    ;
    assert(le_bytes(v) =~= b);
    assert(write_record(b, decode_record(b)->Ok_0) =~= b);
}

/// Decoding a buffer, encoding the record into a buffer of the same width
/// and decoding that again gives what the first decoding gave.
pub proof fn lemma_round_trip_stable(b: Seq<u8>, out: Seq<u8>)
    requires
        b.len() == RECORD_LEN,
        out.len() == RECORD_LEN,
    ensures
        decode_record(b) is Ok,
        decode_record(write_record(out, decode_record(b)->Ok_0)) == decode_record(b),
{
    lemma_decode_encode(out, decode_record(b)->Ok_0);
}

} // verus!
