//! Native-messaging frames: a 32-bit message length in the host's byte
//! order, then the message bytes.

use byteorder::ByteOrder;
use vstd::prelude::*;

verus! {

/// The byte order of the length prefix. Browsers use the host's native
/// order; the program passes the one its target has.
#[derive(Clone, Copy, Debug, PartialEq, Eq, Structural)]
pub enum Endian {
    Little,
    Big,
}

/// The largest message, in bytes, that a browser accepts from a native host.
pub const MAX_MESSAGE_BYTES: usize = 1048576;

/// The four bytes of `n`, least significant first.
pub open spec fn le_bytes(n: u32) -> Seq<u8> {
    seq![
        (n % 256) as u8,
        ((n / 256) % 256) as u8,
        ((n / 65536) % 256) as u8,
        ((n / 16777216) % 256) as u8,
    ]
}

/// The four bytes of `n`, most significant first.
pub open spec fn be_bytes(n: u32) -> Seq<u8> {
    seq![
        ((n / 16777216) % 256) as u8,
        ((n / 65536) % 256) as u8,
        ((n / 256) % 256) as u8,
        (n % 256) as u8,
    ]
}

/// The number whose least significant byte is `b[0]`, read from the first
/// four bytes of `b`.
pub open spec fn le_value(b: Seq<u8>) -> int {
    b[0] + 256 * b[1] + 65536 * b[2] + 16777216 * b[3]
}

/// The number whose most significant byte is `b[0]`, read from the first
/// four bytes of `b`.
pub open spec fn be_value(b: Seq<u8>) -> int {
    b[3] + 256 * b[2] + 65536 * b[1] + 16777216 * b[0]
}

/// The length prefix for `n` in byte order `order`.
pub open spec fn length_prefix(n: u32, order: Endian) -> Seq<u8> {
    match order {
        Endian::Little => le_bytes(n),
        Endian::Big => be_bytes(n),
    }
}

/// The length that the first four bytes of `b` announce.
pub open spec fn prefix_value(b: Seq<u8>, order: Endian) -> int {
    match order {
        Endian::Little => le_value(b),
        Endian::Big => be_value(b),
    }
}

/// The frame that carries `payload`.
pub open spec fn framed(payload: Seq<u8>, order: Endian) -> Seq<u8> {
    length_prefix(payload.len() as u32, order) + payload
}

/// The message that a frame read from the start of `buf` carries: `None`
/// when `buf` ends before the announced length.
pub open spec fn frame_payload(buf: Seq<u8>, order: Endian) -> Option<Seq<u8>> {
    let n = prefix_value(buf, order);
    if 4 + n <= buf.len() {
        Some(buf.subrange(4, 4 + n))
    } else {
        None
    }
}

/// `LittleEndian::write_u32` of byteorder, into a fresh four-byte buffer:
/// it stores the bytes of `n`, least significant first.
#[verifier::external_body]
fn write_u32_le(n: u32) -> (r: Vec<u8>)
    ensures
        r@ == le_bytes(n),
{
    let mut buf = vec![0u8; 4];
    byteorder::LittleEndian::write_u32(&mut buf, n);
    buf
}

/// `BigEndian::write_u32` of byteorder, into a fresh four-byte buffer:
/// it stores the bytes of `n`, most significant first.
#[verifier::external_body]
fn write_u32_be(n: u32) -> (r: Vec<u8>)
    ensures
        r@ == be_bytes(n),
{
    let mut buf = vec![0u8; 4];
    byteorder::BigEndian::write_u32(&mut buf, n);
    buf
}

/// `LittleEndian::read_u32` of byteorder: the number stored in the first
/// four bytes of `buf`, least significant byte first. It panics on a shorter
/// buffer, which `requires` rules out.
#[verifier::external_body]
fn read_u32_le(buf: &[u8]) -> (r: u32)
    requires
        buf@.len() >= 4,
    ensures
        r == le_value(buf@),
{
    byteorder::LittleEndian::read_u32(buf)
}

/// `BigEndian::read_u32` of byteorder: the number stored in the first four
/// bytes of `buf`, most significant byte first. It panics on a shorter
/// buffer, which `requires` rules out.
#[verifier::external_body]
fn read_u32_be(buf: &[u8]) -> (r: u32)
    requires
        buf@.len() >= 4,
    ensures
        r == be_value(buf@),
{
    byteorder::BigEndian::read_u32(buf)
}

proof fn lemma_bytes_value(n: u32)
    ensures
        le_value(le_bytes(n)) == n,
        be_value(be_bytes(n)) == n,
{
    let b0 = n % 256;
    let b1 = (n / 256) % 256;
    let b2 = (n / 65536) % 256;
    let b3 = (n / 16777216) % 256;
    assert(b0 + 256 * b1 + 65536 * b2 + 16777216 * b3 == n) by (bit_vector)
        requires
            b0 == n % 256,
            b1 == (n / 256) % 256,
            b2 == (n / 65536) % 256,
            b3 == (n / 16777216) % 256,
    ;
}

/// The length prefix of a message of `n` bytes.
pub fn length_prefix_bytes(n: u32, order: Endian) -> (r: Vec<u8>)
    ensures
        r@ == length_prefix(n, order),
{
    match order {
        Endian::Little => write_u32_le(n),
        Endian::Big => write_u32_be(n),
    }
}

/// The length that a frame header announces.
pub fn frame_length(header: &[u8], order: Endian) -> (r: u32)
    requires
        header@.len() >= 4,
    ensures
        r == prefix_value(header@, order),
{
    match order {
        Endian::Little => read_u32_le(header),
        Endian::Big => read_u32_be(header),
    }
}

/// The frame that carries `payload`: its length, then its bytes.
pub fn encode_frame(payload: &[u8], order: Endian) -> (r: Vec<u8>)
    requires
        payload@.len() <= MAX_MESSAGE_BYTES,
    ensures
        r@ == framed(payload@, order),
{
    let mut r = length_prefix_bytes(payload.len() as u32, order);
    let mut i: usize = 0;
    while i < payload.len()
        invariant
            i <= payload@.len() <= MAX_MESSAGE_BYTES,
            r@ == length_prefix(payload@.len() as u32, order) + payload@.take(i as int),
        decreases payload@.len() - i,
    {
        r.push(payload[i]);
        i = i + 1;
        assert(r@ =~= length_prefix(payload@.len() as u32, order) + payload@.take(i as int));
    }
    assert(payload@.take(payload@.len() as int) =~= payload@);
    r
}

/// The message carried by the frame at the start of `buf`; `None` when
/// `buf` is shorter than the announced length.
pub fn decode_frame(buf: &[u8], order: Endian) -> (r: Option<Vec<u8>>)
    requires
        buf@.len() >= 4,
    ensures
        r matches Some(p) ==> frame_payload(buf@, order) == Some(p@),
        r is None ==> frame_payload(buf@, order) is None,
{
    let n = frame_length(buf, order) as usize;
    if n > buf.len() - 4 {
        return None;
    }
    let mut p: Vec<u8> = Vec::new();
    let mut i: usize = 0;
    while i < n
        invariant
            n + 4 <= buf.len(),
            i <= n,
            p@ == buf@.subrange(4, 4 + i),
        decreases n - i,
    {
        p.push(buf[4 + i]);
        i = i + 1;
        assert(p@ =~= buf@.subrange(4, 4 + i));
    }
    Some(p)
}

/// Reading back a frame gives the message that was framed.
pub proof fn lemma_frame_round_trip(payload: Seq<u8>, order: Endian)
    requires
        payload.len() <= MAX_MESSAGE_BYTES,
    ensures
        frame_payload(framed(payload, order), order) == Some(payload),
{
    let n = payload.len() as u32;
    lemma_bytes_value(n);
    let f = framed(payload, order);
    assert(prefix_value(f, order) == prefix_value(length_prefix(n, order), order));
    assert(f.subrange(4, 4 + payload.len() as int) =~= payload);
}

} // verus!
