use byteorder::{BigEndian, ByteOrder, LittleEndian};
use vstd::prelude::*;

use crate::error::DbusError;
use crate::type_system::{ObjectPath, Signature};

verus! {

/// Largest byte length of the data of one array.
pub const MAX_ARRAY_LEN: u64 = 67108864;

/// Offsets above this are never handed to a writer; it keeps every running total
/// far from the end of `u64`.
pub const MAX_OFFSET: u64 = 0x4000_0000_0000_0000;

/// Offsets above this are never handed to `write_array`, so that its elements stay under `MAX_OFFSET`.
pub const MAX_ARRAY_OFFSET: u64 = 0x2000_0000_0000_0000;

/// Upper bound on the encoded length of one value that passes `wire_ok`.
pub const MAX_ITEM_LEN: u64 = 0x2_0000_0000;

/// Endianness flag; ASCII 'l' for little-endian or ASCII 'B' for big-endian.
/// Both header and body are in this endianness.
#[derive(Clone, Copy, Debug, PartialEq, Eq, Structural)]
pub enum EndianessFlag {
    LittleEndian,
    BigEndian,
}

impl EndianessFlag {
    pub open spec fn spec_marker(self) -> u8 {
        match self {
            EndianessFlag::LittleEndian => 0x6c,
            EndianessFlag::BigEndian => 0x42,
        }
    }

    /// The byte that opens every message in this order.
    pub fn marker(self) -> (r: u8)
        ensures
            r == self.spec_marker(),
    {
        match self {
            EndianessFlag::LittleEndian => 0x6c,
            EndianessFlag::BigEndian => 0x42,
        }
    }
}

/// Number of zero bytes that bring `written` up to a multiple of `align`.
pub open spec fn pad_len(written: int, align: int) -> int {
    (align - written % align) % align
}

pub open spec fn zeros(n: int) -> Seq<u8> {
    Seq::new(n as nat, |i: int| 0u8)
}

/// The padding emitted before a value of boundary `align` at offset `written`.
pub open spec fn padding(written: int, align: int) -> Seq<u8> {
    zeros(pad_len(written, align))
}

/// `n` in `width` bytes, least significant first.
pub open spec fn le_bytes(n: nat, width: nat) -> Seq<u8>
    decreases width,
{
    if width == 0 {
        Seq::empty()
    } else {
        seq![(n % 256) as u8] + le_bytes(n / 256, (width - 1) as nat)
    }
}

/// `n` in `width` bytes, most significant first.
pub open spec fn be_bytes(n: nat, width: nat) -> Seq<u8>
    decreases width,
{
    if width == 0 {
        Seq::empty()
    } else {
        be_bytes(n / 256, (width - 1) as nat) + seq![(n % 256) as u8]
    }
}

pub open spec fn uint_bytes(order: EndianessFlag, n: nat, width: nat) -> Seq<u8> {
    match order {
        EndianessFlag::LittleEndian => le_bytes(n, width),
        EndianessFlag::BigEndian => be_bytes(n, width),
    }
}

/// The value of bytes stored least significant first.
pub open spec fn le_value(b: Seq<u8>) -> nat
    decreases b.len(),
{
    if b.len() == 0 {
        0
    } else {
        b[0] as nat + 256 * le_value(b.drop_first())
    }
}

/// The value of bytes stored most significant first.
pub open spec fn be_value(b: Seq<u8>) -> nat
    decreases b.len(),
{
    if b.len() == 0 {
        0
    } else {
        b.last() as nat + 256 * be_value(b.drop_last())
    }
}

pub open spec fn uint_value(order: EndianessFlag, b: Seq<u8>) -> nat {
    match order {
        EndianessFlag::LittleEndian => le_value(b),
        EndianessFlag::BigEndian => be_value(b),
    }
}

/// A fixed-width unsigned integer at offset `written`: padding to its own width, then its bytes.
pub open spec fn enc_uint(order: EndianessFlag, n: nat, width: nat, written: int) -> Seq<u8> {
    padding(written, width as int) + uint_bytes(order, n, width)
}

/// The UTF-8 bytes of a string.
pub open spec fn utf8(s: Seq<char>) -> Seq<u8> {
    vstd::utf8::encode_utf8(s)
}

/// A string at offset `written`: a 32-bit byte count, the bytes, then one nul.
pub open spec fn enc_string(order: EndianessFlag, s: Seq<u8>, written: int) -> Seq<u8> {
    enc_uint(order, s.len(), 4, written) + s + seq![0u8]
}

/// A signature: a one-byte count, the bytes, then one nul; no alignment.
pub open spec fn enc_signature(s: Seq<u8>) -> Seq<u8> {
    seq![s.len() as u8] + s + seq![0u8]
}

/// The element data of a prefix of an array is no longer than that of the whole array.
pub proof fn lemma_elements_prefix_len<T: DbusWrite>(a: Seq<T>, i: int, order: EndianessFlag, offset: int)
    requires
        0 <= i <= a.len(),
    ensures
        enc_elements(a.take(i), order, offset).len() <= enc_elements(a, order, offset).len(),
    decreases a.len(),
{
    if i < a.len() {
        assert(a.drop_last().take(i) =~= a.take(i));
        lemma_elements_prefix_len(a.drop_last(), i, order, offset);
    } else {
        assert(a.take(i) =~= a);
    }
}

pub proof fn lemma_uint_bytes_len(order: EndianessFlag, n: nat, width: nat)
    ensures
        uint_bytes(order, n, width).len() == width,
    decreases width,
{
    if width > 0 {
        lemma_uint_bytes_len(order, n / 256, (width - 1) as nat);
    }
}

pub proof fn lemma_pad_len(written: int, align: int)
    requires
        written >= 0,
        align > 0,
    ensures
        0 <= pad_len(written, align) < align,
        (written + pad_len(written, align)) % align == 0,
{
    assert(0 <= pad_len(written, align) < align);
    assert((written + pad_len(written, align)) % align == 0) by (nonlinear_arith)
        requires
            align > 0,
            written >= 0,
            pad_len(written, align) == (align - written % align) % align,
    {
        let r = written % align;
        assert(0 <= r < align);
        assert(written == align * (written / align) + r);
        if r == 0 {
            assert(pad_len(written, align) == 0);
        } else {
            assert(pad_len(written, align) == align - r);
            assert(written + (align - r) == align * (written / align + 1));
        }
    }
}

/// 256 to the power `w`.
pub open spec fn pow256(w: nat) -> nat
    decreases w,
{
    if w == 0 {
        1
    } else {
        256 * pow256((w - 1) as nat)
    }
}

/// Reading back `width` bytes written in either order gives the number that was written.
pub proof fn lemma_uint_round_trip(order: EndianessFlag, n: nat, width: nat)
    requires
        n < pow256(width),
    ensures
        uint_value(order, uint_bytes(order, n, width)) == n,
    decreases width,
{
    if width > 0 {
        let p = pow256((width - 1) as nat);
        assert(n / 256 < p) by (nonlinear_arith)
            requires
                n < 256 * p,
        {
        }
        lemma_uint_round_trip(order, n / 256, (width - 1) as nat);
        match order {
            EndianessFlag::LittleEndian => {
                assert(le_bytes(n, width).drop_first() =~= le_bytes(n / 256, (width - 1) as nat));
            },
            EndianessFlag::BigEndian => {
                assert(be_bytes(n, width).drop_last() =~= be_bytes(n / 256, (width - 1) as nat));
            },
        }
    }
}

/// A fixed-width integer written at any offset `k` is preceded by exactly
/// `(width - k % width) % width` zero bytes, and then starts on its boundary.
pub proof fn lemma_fixed_width_padding(order: EndianessFlag, n: nat, width: nat, k: int)
    requires
        width == 1 || width == 2 || width == 4 || width == 8,
        k >= 0,
    ensures
        ({
            let e = enc_uint(order, n, width, k);
            let p = (width - k % (width as int)) % (width as int);
            &&& 0 <= p < width
            &&& (k + p) % (width as int) == 0
            &&& e.len() == p + width
            &&& e.take(p) == zeros(p)
            &&& e.subrange(p, p + width) == uint_bytes(order, n, width)
        }),
{
    let e = enc_uint(order, n, width, k);
    let p = pad_len(k, width as int);
    lemma_pad_len(k, width as int);
    lemma_uint_bytes_len(order, n, width);
    assert(e.take(p) =~= zeros(p));
    assert(e.subrange(p, p + width) =~= uint_bytes(order, n, width));
}

/// Reading the length prefix of a string written at offset `k`, and then that many bytes
/// after it, gives back the string, followed by one nul byte that ends the encoding.
pub proof fn lemma_string_round_trip(order: EndianessFlag, s: Seq<u8>, k: int)
    requires
        k >= 0,
        s.len() <= u32::MAX,
    ensures
        ({
            let e = enc_string(order, s, k);
            let p = pad_len(k, 4);
            &&& e.take(p) == zeros(p)
            &&& uint_value(order, e.subrange(p, p + 4)) == s.len()
            &&& e.subrange(p + 4, p + 4 + s.len()) == s
            &&& e[p + 4 + s.len()] == 0
            &&& e.len() == p + 4 + s.len() + 1
        }),
{
    let e = enc_string(order, s, k);
    let p = pad_len(k, 4);
    lemma_pad_len(k, 4);
    lemma_uint_bytes_len(order, s.len(), 4);
    reveal_with_fuel(pow256, 5);
    lemma_uint_round_trip(order, s.len(), 4);
    assert(e.take(p) =~= zeros(p));
    assert(e.subrange(p, p + 4) =~= uint_bytes(order, s.len(), 4));
    assert(e.subrange(p + 4, p + 4 + s.len()) =~= s);
}

/// Relies on byteorder's `LittleEndian::write_u16`: the two bytes of `n`, least significant first.
#[verifier::external_body]
fn le_u16(n: u16) -> (r: Vec<u8>)
    ensures
        r@ == le_bytes(n as nat, 2),
{
    let mut b = vec![0u8; 2];
    LittleEndian::write_u16(&mut b, n);
    b
}

/// Relies on byteorder's `BigEndian::write_u16`: the two bytes of `n`, most significant first.
#[verifier::external_body]
fn be_u16(n: u16) -> (r: Vec<u8>)
    ensures
        r@ == be_bytes(n as nat, 2),
{
    let mut b = vec![0u8; 2];
    BigEndian::write_u16(&mut b, n);
    b
}

/// Relies on byteorder's `LittleEndian::write_u32`: the four bytes of `n`, least significant first.
#[verifier::external_body]
fn le_u32(n: u32) -> (r: Vec<u8>)
    ensures
        r@ == le_bytes(n as nat, 4),
{
    let mut b = vec![0u8; 4];
    LittleEndian::write_u32(&mut b, n);
    b
}

/// Relies on byteorder's `BigEndian::write_u32`: the four bytes of `n`, most significant first.
#[verifier::external_body]
fn be_u32(n: u32) -> (r: Vec<u8>)
    ensures
        r@ == be_bytes(n as nat, 4),
{
    let mut b = vec![0u8; 4];
    BigEndian::write_u32(&mut b, n);
    b
}

/// Relies on byteorder's `LittleEndian::write_u64`: the eight bytes of `n`, least significant first.
#[verifier::external_body]
fn le_u64(n: u64) -> (r: Vec<u8>)
    ensures
        r@ == le_bytes(n as nat, 8),
{
    let mut b = vec![0u8; 8];
    LittleEndian::write_u64(&mut b, n);
    b
}

/// Relies on byteorder's `BigEndian::write_u64`: the eight bytes of `n`, most significant first.
#[verifier::external_body]
fn be_u64(n: u64) -> (r: Vec<u8>)
    ensures
        r@ == be_bytes(n as nat, 8),
{
    let mut b = vec![0u8; 8];
    BigEndian::write_u64(&mut b, n);
    b
}

/// A value that can be marshaled at a given offset of a message.
pub trait DbusWrite {
    /// Whether the value can be put on the wire (lengths fit their prefixes, no invalid variant).
    spec fn wire_ok(&self) -> bool;

    /// The bytes of the value written at offset `offset`, leading padding included.
    spec fn encoding(&self, order: EndianessFlag, offset: int) -> Seq<u8>;

    /// The alignment boundary of the type.
    spec fn spec_alignment() -> int;

    fn alignment() -> (r: u64)
        ensures
            r == Self::spec_alignment(),
            1 <= r <= 8,
    ;

    fn write(&self, writer: &mut DbusWriter, order: EndianessFlag, bytes_written: u64) -> (r: u64)
        requires
            self.wire_ok(),
            bytes_written <= MAX_OFFSET,
        ensures
            r == self.encoding(order, bytes_written as int).len(),
            r <= MAX_ITEM_LEN,
            final(writer)@ == old(writer)@ + self.encoding(order, bytes_written as int),
    ;
}

/// The elements of an array, each at the offset where the previous one ended.
pub open spec fn enc_elements<T: DbusWrite>(a: Seq<T>, order: EndianessFlag, offset: int) -> Seq<u8>
    decreases a.len(),
{
    if a.len() == 0 {
        Seq::empty()
    } else {
        let pre = enc_elements(a.drop_last(), order, offset);
        pre + a.last().encoding(order, offset + pre.len())
    }
}

/// Offset of the first element of an array whose length prefix would go at `written`.
pub open spec fn array_data_start<T: DbusWrite>(written: int) -> int {
    let after_len = written + pad_len(written, 4) + 4;
    after_len + pad_len(after_len, T::spec_alignment())
}

/// An array at offset `written`: the byte length of the element data, padding to the
/// element alignment, then the elements.
pub open spec fn enc_array<T: DbusWrite>(a: Seq<T>, order: EndianessFlag, written: int) -> Seq<u8> {
    let after_len = written + pad_len(written, 4) + 4;
    let data = enc_elements(a, order, array_data_start::<T>(written));
    enc_uint(order, data.len(), 4, written) + padding(after_len, T::spec_alignment()) + data
}

/// Writes marshaled values into an in-memory sink.
pub struct DbusWriter {
    writer: Vec<u8>,
}

impl View for DbusWriter {
    type V = Seq<u8>;

    closed spec fn view(&self) -> Seq<u8> {
        self.writer@
    }
}

impl DbusWriter {
    /// A writer that appends to `writer`.
    pub fn new(writer: Vec<u8>) -> (r: DbusWriter)
        ensures
            r@ == writer@,
    {
        DbusWriter { writer }
    }

    /// The bytes written so far, including those the sink held at the start.
    pub fn into_bytes(self) -> (r: Vec<u8>)
        ensures
            r@ == self@,
    {
        self.writer
    }

    /// Number of bytes in the sink.
    pub fn len(&self) -> (r: usize)
        ensures
            r == self@.len(),
    {
        self.writer.len()
    }

    /// Appends `b` as it is, with no padding.
    pub fn write_bytes(&mut self, b: &[u8])
        ensures
            final(self)@ == old(self)@ + b@,
    {
        let mut i: usize = 0;
        while i < b.len()
            invariant
                i <= b@.len(),
                self@ == old(self)@ + b@.take(i as int),
            decreases b@.len() - i,
        {
            self.writer.push(b[i]);
            i = i + 1;
            assert(b@.take(i as int) == b@.take(i - 1) + seq![b@[i - 1]]);
        }
        assert(b@.take(b@.len() as int) == b@);
    }

    /// Add zero padding so that `bytes_written` plus the padding is a multiple of `align_to`;
    /// returns the number of zero bytes added.
    pub fn write_padding(&mut self, bytes_written: u64, align_to: u64) -> (r: u8)
        requires
            1 <= align_to <= 256,
        ensures
            r == pad_len(bytes_written as int, align_to as int),
            r < align_to,
            final(self)@ == old(self)@ + padding(bytes_written as int, align_to as int),
    {
        let padding_length: u64 = (align_to - (bytes_written % align_to)) % align_to;
        let mut i: u64 = 0;
        while i < padding_length
            invariant
                padding_length == pad_len(bytes_written as int, align_to as int),
                padding_length < align_to,
                i <= padding_length,
                self@ == old(self)@ + zeros(i as int),
            decreases padding_length - i,
        {
            self.writer.push(0u8);
            i = i + 1;
            assert(zeros(i as int) == zeros(i - 1) + seq![0u8]);
        }
        padding_length as u8
    }

    /// Marshaling an invalid header field always fails.
    pub fn write_invalid(&self) -> (r: Result<(), DbusError>)
        ensures
            r == Err::<(), DbusError>(DbusError::InvalidHeaderField),
    {
        Err(DbusError::InvalidHeaderField)
    }

    /// A single 8-bit byte.
    pub fn write_u8(&mut self, n: u8) -> (r: u64)
        ensures
            r == 1,
            final(self)@ == old(self)@ + seq![n],
    {
        self.writer.push(n);
        1
    }

    /// As for UINT32, but only 0 and 1 are valid values.
    pub fn write_boolean(&mut self, order: EndianessFlag, b: bool, bytes_written: u64) -> (r: u64)
        ensures
            r <= 16,
            r == enc_uint(order, if b { 1 } else { 0 }, 4, bytes_written as int).len(),
            final(self)@ == old(self)@ + enc_uint(order, if b { 1 } else { 0 }, 4, bytes_written as int),
    {
        let v: u32 = if b { 1 } else { 0 };
        self.write_u32(order, v, bytes_written)
    }

    /// 16-bit signed integer in the message's byte order.
    pub fn write_i16(&mut self, order: EndianessFlag, i: i16, bytes_written: u64) -> (r: u64)
        ensures
            r <= 16,
            r == enc_uint(order, i as u16 as nat, 2, bytes_written as int).len(),
            final(self)@ == old(self)@ + enc_uint(order, i as u16 as nat, 2, bytes_written as int),
    {
        self.write_u16(order, i as u16, bytes_written)
    }

    /// 16-bit unsigned integer in the message's byte order.
    pub fn write_u16(&mut self, order: EndianessFlag, u: u16, bytes_written: u64) -> (r: u64)
        ensures
            r <= 16,
            r == enc_uint(order, u as nat, 2, bytes_written as int).len(),
            final(self)@ == old(self)@ + enc_uint(order, u as nat, 2, bytes_written as int),
    {
        let pad = self.write_padding(bytes_written, 2);
        let b = match order {
            EndianessFlag::LittleEndian => le_u16(u),
            EndianessFlag::BigEndian => be_u16(u),
        };
        self.write_bytes(b.as_slice());
        proof {
            lemma_uint_bytes_len(order, u as nat, 2);
        }
        pad as u64 + 2
    }

    /// 32-bit signed integer in the message's byte order.
    pub fn write_i32(&mut self, order: EndianessFlag, i: i32, bytes_written: u64) -> (r: u64)
        ensures
            r <= 16,
            r == enc_uint(order, i as u32 as nat, 4, bytes_written as int).len(),
            final(self)@ == old(self)@ + enc_uint(order, i as u32 as nat, 4, bytes_written as int),
    {
        self.write_u32(order, i as u32, bytes_written)
    }

    /// 32-bit unsigned integer in the message's byte order.
    pub fn write_u32(&mut self, order: EndianessFlag, u: u32, bytes_written: u64) -> (r: u64)
        ensures
            r <= 16,
            r == enc_uint(order, u as nat, 4, bytes_written as int).len(),
            final(self)@ == old(self)@ + enc_uint(order, u as nat, 4, bytes_written as int),
    {
        let pad = self.write_padding(bytes_written, 4);
        let b = match order {
            EndianessFlag::LittleEndian => le_u32(u),
            EndianessFlag::BigEndian => be_u32(u),
        };
        self.write_bytes(b.as_slice());
        proof {
            lemma_uint_bytes_len(order, u as nat, 4);
        }
        pad as u64 + 4
    }

    /// 64-bit signed integer in the message's byte order.
    pub fn write_i64(&mut self, order: EndianessFlag, i: i64, bytes_written: u64) -> (r: u64)
        ensures
            r <= 16,
            r == enc_uint(order, i as u64 as nat, 8, bytes_written as int).len(),
            final(self)@ == old(self)@ + enc_uint(order, i as u64 as nat, 8, bytes_written as int),
    {
        self.write_u64(order, i as u64, bytes_written)
    }

    /// 64-bit unsigned integer in the message's byte order.
    pub fn write_u64(&mut self, order: EndianessFlag, u: u64, bytes_written: u64) -> (r: u64)
        ensures
            r <= 16,
            r == enc_uint(order, u as nat, 8, bytes_written as int).len(),
            final(self)@ == old(self)@ + enc_uint(order, u as nat, 8, bytes_written as int),
    {
        let pad = self.write_padding(bytes_written, 8);
        let b = match order {
            EndianessFlag::LittleEndian => le_u64(u),
            EndianessFlag::BigEndian => be_u64(u),
        };
        self.write_bytes(b.as_slice());
        proof {
            lemma_uint_bytes_len(order, u as nat, 8);
        }
        pad as u64 + 8
    }
    /// A UINT32 indicating the string's length in bytes excluding its terminating nul,
    /// followed by non-nul string data of the given length, followed by a terminating nul byte.
    pub fn write_string(&mut self, order: EndianessFlag, s: &str, bytes_written: u64) -> (r: u64)
        requires
            utf8(s@).len() <= u32::MAX,
        ensures
            r == enc_string(order, utf8(s@), bytes_written as int).len(),
            r <= utf8(s@).len() + 17,
            final(self)@ == old(self)@ + enc_string(order, utf8(s@), bytes_written as int),
    {
        let s_bytes = s.as_bytes();
        let mut n = self.write_u32(order, s_bytes.len() as u32, bytes_written);
        self.write_bytes(s_bytes);
        n = n + s_bytes.len() as u64;
        n = n + self.write_u8(0);
        n
    }

    /// Exactly the same as STRING except the content must be a valid object path.
    pub fn write_object_path(&mut self, order: EndianessFlag, object_path: &ObjectPath, bytes_written: u64) -> (r: u64)
        requires
            utf8(object_path.0@).len() <= u32::MAX,
        ensures
            r == enc_string(order, utf8(object_path.0@), bytes_written as int).len(),
            r <= utf8(object_path.0@).len() + 17,
            final(self)@ == old(self)@ + enc_string(order, utf8(object_path.0@), bytes_written as int),
    {
        self.write_string(order, object_path.0.as_str(), bytes_written)
    }

    /// The same as STRING except the length is a single byte (thus signatures
    /// have a maximum length of 255) and the content must be a valid signature.
    pub fn write_signature(&mut self, signature: &Signature) -> (r: u64)
        requires
            utf8(signature.0@).len() <= 255,
        ensures
            r == enc_signature(utf8(signature.0@)).len(),
            r <= 257,
            final(self)@ == old(self)@ + enc_signature(utf8(signature.0@)),
    {
        let s_bytes = signature.0.as_str().as_bytes();
        let mut n = self.write_u8(s_bytes.len() as u8);
        self.write_bytes(s_bytes);
        n = n + s_bytes.len() as u64;
        n = n + self.write_u8(0);
        n
    }

    /// A UINT32 giving the length of the array data in bytes, followed by alignment
    /// padding to the alignment boundary of the array element type, followed by each array element.
    /// Fails, writing nothing, where the element data would exceed `MAX_ARRAY_LEN` bytes.
    pub fn write_array<T: DbusWrite>(&mut self, order: EndianessFlag, a: &Vec<T>, bytes_written: u64) -> (r: Result<u64, DbusError>)
        requires
            bytes_written <= MAX_ARRAY_OFFSET,
            forall|i: int| 0 <= i < a@.len() ==> (#[trigger] a@[i]).wire_ok(),
        ensures
            match r {
                Ok(n) => {
                    &&& enc_elements(a@, order, array_data_start::<T>(bytes_written as int)).len() <= MAX_ARRAY_LEN
                    &&& n == enc_array(a@, order, bytes_written as int).len()
                    &&& n <= enc_elements(a@, order, array_data_start::<T>(bytes_written as int)).len() + 24
                    &&& final(self)@ == old(self)@ + enc_array(a@, order, bytes_written as int)
                },
                Err(e) => {
                    &&& e == DbusError::ArrayTooLong
                    &&& enc_elements(a@, order, array_data_start::<T>(bytes_written as int)).len() > MAX_ARRAY_LEN
                    &&& final(self)@ == old(self)@
                },
            },
    {
        let align = T::alignment();
        let after_len: u64 = bytes_written + (4 - bytes_written % 4) % 4 + 4;
        let start: u64 = after_len + (align - after_len % align) % align;
        let mut scratch = DbusWriter::new(Vec::new());
        let mut data_len: u64 = 0;
        let mut i: usize = 0;
        while i < a.len()
            invariant
                i <= a@.len(),
                start == array_data_start::<T>(bytes_written as int),
                start <= MAX_ARRAY_OFFSET + 16,
                forall|j: int| 0 <= j < a@.len() ==> (#[trigger] a@[j]).wire_ok(),
                scratch@ == enc_elements(a@.take(i as int), order, start as int),
                data_len == scratch@.len(),
                data_len <= MAX_ARRAY_LEN,
            decreases a@.len() - i,
        {
            let n = a[i].write(&mut scratch, order, start + data_len);
            proof {
                assert(a@.take(i + 1).drop_last() =~= a@.take(i as int));
            }
            data_len = data_len + n;
            i = i + 1;
            if data_len > MAX_ARRAY_LEN {
                proof {
                    lemma_elements_prefix_len(a@, i as int, order, start as int);
                }
                return Err(DbusError::ArrayTooLong);
            }
        }
        proof {
            assert(a@.take(a@.len() as int) =~= a@);
        }
        let n1 = self.write_u32(order, data_len as u32, bytes_written);
        let n2 = self.write_padding(after_len, align);
        let data = scratch.into_bytes();
        self.write_bytes(data.as_slice());
        Ok(n1 + n2 as u64 + data_len)
    }
}

} // verus!
