use std::collections::HashMap;
use vstd::prelude::*;

use crate::error::DbusError;
use crate::writer::{enc_signature, enc_string, enc_uint, utf8, DbusWrite, DbusWriter, EndianessFlag};

verus! {

/// A D-Bus type code, such as `"i"`, `"as"` or `"{ys}"`.
pub type TypeCode = String;

/// Marker for the types that may act as the key of a dict entry.
/// >  The first single complete type (the "key") must be a basic type rather than a container type.
///    Implementations must not accept [..] dict entries with non-basic-typed keys.
pub trait BasicType {}

/// A type with a D-Bus type code, derived from the type alone.
pub trait ToTypeCode {
    /// The type code of every value of the type.
    spec fn spec_type_code() -> Seq<char>;

    /// The type code of the type, known without a value.
    fn type_code() -> (r: TypeCode)
        ensures
            r@ == Self::spec_type_code(),
    ;

    /// The type code of this value's type.
    fn to_type_code(&self) -> (r: TypeCode)
        ensures
            r@ == Self::spec_type_code(),
    {
        Self::type_code()
    }
}

/// The serial of this message, used as a cookie by the sender to identify
/// the reply corresponding to this request. This must not be zero.
#[derive(Clone, Copy, Debug, PartialEq, Eq, Structural)]
pub struct Serial(pub u32);

impl Serial {
    /// A serial of `s`; zero is refused.
    pub fn try_from(s: u32) -> (r: Result<Serial, DbusError>)
        ensures
            s == 0 ==> r == Err::<Serial, DbusError>(DbusError::InvalidSerial),
            s != 0 ==> r == Ok::<Serial, DbusError>(Serial(s)),
    {
        if s == 0 {
            return Err(DbusError::InvalidSerial);
        }
        Ok(Serial(s))
    }
}

/// VARIANT has ASCII character 'v' as its type code.
/// A marshaled value of type VARIANT will have the signature of a single complete type as part of the value.
/// This signature will be followed by a marshaled value of that type.
pub struct Variant {}

/// An object path is a name used to refer to an object instance.
/// Conceptually, each participant in a D-Bus message exchange may have any number of
/// object instances (think of C++ or Java objects) and each such instance will have a path.
/// Like a filesystem, the object instances in an application form a hierarchical tree.
#[derive(Clone, Debug, PartialEq, Eq)]
pub struct ObjectPath(pub String);

/// The same as STRING except the length is a single byte
/// (thus signatures have a maximum length of 255) and the
/// content must be a valid signature.
#[derive(Clone, Debug, PartialEq, Eq)]
pub struct Signature(pub String);

/// Index into the array of Unix file descriptors that accompany the message.
#[derive(Copy, Clone, Debug, PartialEq, Eq, Structural)]
pub struct UnixFd(pub u32);

/// An IEEE 754 double, held as its bit pattern.
#[derive(Copy, Clone, Debug, PartialEq, Eq, Structural)]
pub struct Double(pub u64);

impl BasicType for u8 {}
impl BasicType for bool {}
impl BasicType for i16 {}
impl BasicType for u16 {}
impl BasicType for i32 {}
impl BasicType for u32 {}
impl BasicType for i64 {}
impl BasicType for u64 {}
impl BasicType for Double {}
impl BasicType for UnixFd {}
impl BasicType for String {}
impl BasicType for ObjectPath {}
impl BasicType for Signature {}

/// Basic type code `h`.
impl ToTypeCode for UnixFd {
    open spec fn spec_type_code() -> Seq<char> {
        seq!['h']
    }

    fn type_code() -> (r: TypeCode) {
        proof {
            reveal_strlit("h");
        }
        let r = String::from_str("h");
        assert(r@ =~= seq!['h']);
        r
    }
}

/// Basic type code `y`.
impl ToTypeCode for u8 {
    open spec fn spec_type_code() -> Seq<char> {
        seq!['y']
    }

    fn type_code() -> (r: TypeCode) {
        proof {
            reveal_strlit("y");
        }
        let r = String::from_str("y");
        assert(r@ =~= seq!['y']);
        r
    }
}

/// Basic type code `b`.
impl ToTypeCode for bool {
    open spec fn spec_type_code() -> Seq<char> {
        seq!['b']
    }

    fn type_code() -> (r: TypeCode) {
        proof {
            reveal_strlit("b");
        }
        let r = String::from_str("b");
        assert(r@ =~= seq!['b']);
        r
    }
}

/// Basic type code `n`.
impl ToTypeCode for i16 {
    open spec fn spec_type_code() -> Seq<char> {
        seq!['n']
    }

    fn type_code() -> (r: TypeCode) {
        proof {
            reveal_strlit("n");
        }
        let r = String::from_str("n");
        assert(r@ =~= seq!['n']);
        r
    }
}

/// Basic type code `q`.
impl ToTypeCode for u16 {
    open spec fn spec_type_code() -> Seq<char> {
        seq!['q']
    }

    fn type_code() -> (r: TypeCode) {
        proof {
            reveal_strlit("q");
        }
        let r = String::from_str("q");
        assert(r@ =~= seq!['q']);
        r
    }
}

/// Basic type code `i`.
impl ToTypeCode for i32 {
    open spec fn spec_type_code() -> Seq<char> {
        seq!['i']
    }

    fn type_code() -> (r: TypeCode) {
        proof {
            reveal_strlit("i");
        }
        let r = String::from_str("i");
        assert(r@ =~= seq!['i']);
        r
    }
}

/// Basic type code `u`.
impl ToTypeCode for u32 {
    open spec fn spec_type_code() -> Seq<char> {
        seq!['u']
    }

    fn type_code() -> (r: TypeCode) {
        proof {
            reveal_strlit("u");
        }
        let r = String::from_str("u");
        assert(r@ =~= seq!['u']);
        r
    }
}

/// Basic type code `x`.
impl ToTypeCode for i64 {
    open spec fn spec_type_code() -> Seq<char> {
        seq!['x']
    }

    fn type_code() -> (r: TypeCode) {
        proof {
            reveal_strlit("x");
        }
        let r = String::from_str("x");
        assert(r@ =~= seq!['x']);
        r
    }
}

/// Basic type code `t`.
impl ToTypeCode for u64 {
    open spec fn spec_type_code() -> Seq<char> {
        seq!['t']
    }

    fn type_code() -> (r: TypeCode) {
        proof {
            reveal_strlit("t");
        }
        let r = String::from_str("t");
        assert(r@ =~= seq!['t']);
        r
    }
}

/// Basic type code `d`.
impl ToTypeCode for Double {
    open spec fn spec_type_code() -> Seq<char> {
        seq!['d']
    }

    fn type_code() -> (r: TypeCode) {
        proof {
            reveal_strlit("d");
        }
        let r = String::from_str("d");
        assert(r@ =~= seq!['d']);
        r
    }
}

/// Basic type code `s`.
impl ToTypeCode for String {
    open spec fn spec_type_code() -> Seq<char> {
        seq!['s']
    }

    fn type_code() -> (r: TypeCode) {
        proof {
            reveal_strlit("s");
        }
        let r = String::from_str("s");
        assert(r@ =~= seq!['s']);
        r
    }
}

/// Basic type code `s`.
impl<'a> ToTypeCode for &'a str {
    open spec fn spec_type_code() -> Seq<char> {
        seq!['s']
    }

    fn type_code() -> (r: TypeCode) {
        proof {
            reveal_strlit("s");
        }
        let r = String::from_str("s");
        assert(r@ =~= seq!['s']);
        r
    }
}

/// Basic type code `o`.
impl ToTypeCode for ObjectPath {
    open spec fn spec_type_code() -> Seq<char> {
        seq!['o']
    }

    fn type_code() -> (r: TypeCode) {
        proof {
            reveal_strlit("o");
        }
        let r = String::from_str("o");
        assert(r@ =~= seq!['o']);
        r
    }
}

/// Basic type code `g`.
impl ToTypeCode for Signature {
    open spec fn spec_type_code() -> Seq<char> {
        seq!['g']
    }

    fn type_code() -> (r: TypeCode) {
        proof {
            reveal_strlit("g");
        }
        let r = String::from_str("g");
        assert(r@ =~= seq!['g']);
        r
    }
}

/// Basic type code `v`.
impl ToTypeCode for Variant {
    open spec fn spec_type_code() -> Seq<char> {
        seq!['v']
    }

    fn type_code() -> (r: TypeCode) {
        proof {
            reveal_strlit("v");
        }
        let r = String::from_str("v");
        assert(r@ =~= seq!['v']);
        r
    }
}

impl DbusWrite for u8 {
    open spec fn wire_ok(&self) -> bool {
        true
    }

    open spec fn encoding(&self, order: EndianessFlag, offset: int) -> Seq<u8> {
        seq![*self]
    }

    open spec fn spec_alignment() -> int {
        1
    }

    fn alignment() -> (r: u64) {
        1
    }

    fn write(&self, writer: &mut DbusWriter, order: EndianessFlag, bytes_written: u64) -> (r: u64) {
        writer.write_u8(*self)
    }
}

impl DbusWrite for bool {
    open spec fn wire_ok(&self) -> bool {
        true
    }

    open spec fn encoding(&self, order: EndianessFlag, offset: int) -> Seq<u8> {
        enc_uint(order, if *self { 1 } else { 0 }, 4, offset)
    }

    open spec fn spec_alignment() -> int {
        4
    }

    fn alignment() -> (r: u64) {
        4
    }

    fn write(&self, writer: &mut DbusWriter, order: EndianessFlag, bytes_written: u64) -> (r: u64) {
        writer.write_boolean(order, *self, bytes_written)
    }
}

impl DbusWrite for i16 {
    open spec fn wire_ok(&self) -> bool {
        true
    }

    open spec fn encoding(&self, order: EndianessFlag, offset: int) -> Seq<u8> {
        enc_uint(order, *self as u16 as nat, 2, offset)
    }

    open spec fn spec_alignment() -> int {
        2
    }

    fn alignment() -> (r: u64) {
        2
    }

    fn write(&self, writer: &mut DbusWriter, order: EndianessFlag, bytes_written: u64) -> (r: u64) {
        writer.write_i16(order, *self, bytes_written)
    }
}

impl DbusWrite for u16 {
    open spec fn wire_ok(&self) -> bool {
        true
    }

    open spec fn encoding(&self, order: EndianessFlag, offset: int) -> Seq<u8> {
        enc_uint(order, *self as nat, 2, offset)
    }

    open spec fn spec_alignment() -> int {
        2
    }

    fn alignment() -> (r: u64) {
        2
    }

    fn write(&self, writer: &mut DbusWriter, order: EndianessFlag, bytes_written: u64) -> (r: u64) {
        writer.write_u16(order, *self, bytes_written)
    }
}

impl DbusWrite for i32 {
    open spec fn wire_ok(&self) -> bool {
        true
    }

    open spec fn encoding(&self, order: EndianessFlag, offset: int) -> Seq<u8> {
        enc_uint(order, *self as u32 as nat, 4, offset)
    }

    open spec fn spec_alignment() -> int {
        4
    }

    fn alignment() -> (r: u64) {
        4
    }

    fn write(&self, writer: &mut DbusWriter, order: EndianessFlag, bytes_written: u64) -> (r: u64) {
        writer.write_i32(order, *self, bytes_written)
    }
}

impl DbusWrite for u32 {
    open spec fn wire_ok(&self) -> bool {
        true
    }

    open spec fn encoding(&self, order: EndianessFlag, offset: int) -> Seq<u8> {
        enc_uint(order, *self as nat, 4, offset)
    }

    open spec fn spec_alignment() -> int {
        4
    }

    fn alignment() -> (r: u64) {
        4
    }

    fn write(&self, writer: &mut DbusWriter, order: EndianessFlag, bytes_written: u64) -> (r: u64) {
        writer.write_u32(order, *self, bytes_written)
    }
}

impl DbusWrite for i64 {
    open spec fn wire_ok(&self) -> bool {
        true
    }

    open spec fn encoding(&self, order: EndianessFlag, offset: int) -> Seq<u8> {
        enc_uint(order, *self as u64 as nat, 8, offset)
    }

    open spec fn spec_alignment() -> int {
        8
    }

    fn alignment() -> (r: u64) {
        8
    }

    fn write(&self, writer: &mut DbusWriter, order: EndianessFlag, bytes_written: u64) -> (r: u64) {
        writer.write_i64(order, *self, bytes_written)
    }
}

impl DbusWrite for u64 {
    open spec fn wire_ok(&self) -> bool {
        true
    }

    open spec fn encoding(&self, order: EndianessFlag, offset: int) -> Seq<u8> {
        enc_uint(order, *self as nat, 8, offset)
    }

    open spec fn spec_alignment() -> int {
        8
    }

    fn alignment() -> (r: u64) {
        8
    }

    fn write(&self, writer: &mut DbusWriter, order: EndianessFlag, bytes_written: u64) -> (r: u64) {
        writer.write_u64(order, *self, bytes_written)
    }
}

impl DbusWrite for Double {
    open spec fn wire_ok(&self) -> bool {
        true
    }

    open spec fn encoding(&self, order: EndianessFlag, offset: int) -> Seq<u8> {
        enc_uint(order, self.0 as nat, 8, offset)
    }

    open spec fn spec_alignment() -> int {
        8
    }

    fn alignment() -> (r: u64) {
        8
    }

    fn write(&self, writer: &mut DbusWriter, order: EndianessFlag, bytes_written: u64) -> (r: u64) {
        writer.write_u64(order, self.0, bytes_written)
    }
}

impl DbusWrite for UnixFd {
    open spec fn wire_ok(&self) -> bool {
        true
    }

    open spec fn encoding(&self, order: EndianessFlag, offset: int) -> Seq<u8> {
        enc_uint(order, self.0 as nat, 4, offset)
    }

    open spec fn spec_alignment() -> int {
        4
    }

    fn alignment() -> (r: u64) {
        4
    }

    fn write(&self, writer: &mut DbusWriter, order: EndianessFlag, bytes_written: u64) -> (r: u64) {
        writer.write_u32(order, self.0, bytes_written)
    }
}

impl DbusWrite for Serial {
    open spec fn wire_ok(&self) -> bool {
        true
    }

    open spec fn encoding(&self, order: EndianessFlag, offset: int) -> Seq<u8> {
        enc_uint(order, self.0 as nat, 4, offset)
    }

    open spec fn spec_alignment() -> int {
        4
    }

    fn alignment() -> (r: u64) {
        4
    }

    fn write(&self, writer: &mut DbusWriter, order: EndianessFlag, bytes_written: u64) -> (r: u64) {
        writer.write_u32(order, self.0, bytes_written)
    }
}

impl DbusWrite for String {
    open spec fn wire_ok(&self) -> bool {
        utf8(self@).len() <= u32::MAX
    }

    open spec fn encoding(&self, order: EndianessFlag, offset: int) -> Seq<u8> {
        enc_string(order, utf8(self@), offset)
    }

    open spec fn spec_alignment() -> int {
        4
    }

    fn alignment() -> (r: u64) {
        4
    }

    fn write(&self, writer: &mut DbusWriter, order: EndianessFlag, bytes_written: u64) -> (r: u64) {
        writer.write_string(order, self.as_str(), bytes_written)
    }
}

impl DbusWrite for ObjectPath {
    open spec fn wire_ok(&self) -> bool {
        utf8(self.0@).len() <= u32::MAX
    }

    open spec fn encoding(&self, order: EndianessFlag, offset: int) -> Seq<u8> {
        enc_string(order, utf8(self.0@), offset)
    }

    open spec fn spec_alignment() -> int {
        4
    }

    fn alignment() -> (r: u64) {
        4
    }

    fn write(&self, writer: &mut DbusWriter, order: EndianessFlag, bytes_written: u64) -> (r: u64) {
        writer.write_object_path(order, self, bytes_written)
    }
}

impl DbusWrite for Signature {
    open spec fn wire_ok(&self) -> bool {
        utf8(self.0@).len() <= 255
    }

    open spec fn encoding(&self, order: EndianessFlag, offset: int) -> Seq<u8> {
        enc_signature(utf8(self.0@))
    }

    open spec fn spec_alignment() -> int {
        1
    }

    fn alignment() -> (r: u64) {
        1
    }

    fn write(&self, writer: &mut DbusWriter, order: EndianessFlag, bytes_written: u64) -> (r: u64) {
        writer.write_signature(self)
    }
}

/// ARRAY has ASCII character 'a' as type code.
/// The array type code must be followed by a single complete type.
/// The single complete type following the array is the type of each array element.
impl<T: ToTypeCode> ToTypeCode for Vec<T> {
    open spec fn spec_type_code() -> Seq<char> {
        seq!['a'] + T::spec_type_code()
    }

    fn type_code() -> (r: TypeCode) {
        proof {
            reveal_strlit("a");
        }
        let mut type_code = String::from_str("a");
        let element = T::type_code();
        type_code.append(element.as_str());
        assert(type_code@ =~= seq!['a'] + T::spec_type_code());
        type_code
    }
}

/// A DICT_ENTRY works exactly like a struct, but rather than parentheses
/// it uses curly braces, and it has more restrictions.
impl<K: BasicType + ToTypeCode, V: ToTypeCode, S> ToTypeCode for HashMap<K, V, S> {
    open spec fn spec_type_code() -> Seq<char> {
        seq!['{'] + K::spec_type_code() + V::spec_type_code() + seq!['}']
    }

    fn type_code() -> (r: TypeCode) {
        proof {
            reveal_strlit("{");
            reveal_strlit("}");
        }
        let mut type_code = String::from_str("{");
        let key = K::type_code();
        let value = V::type_code();
        type_code.append(key.as_str());
        type_code.append(value.as_str());
        type_code.append("}");
        assert(type_code@ =~= seq!['{'] + K::spec_type_code() + V::spec_type_code() + seq!['}']);
        type_code
    }
}

/// The type code of an array is `a` followed by the code of its element type, whatever
/// elements the array holds and however many.
pub proof fn lemma_array_type_code<T: ToTypeCode>(v: Vec<T>)
    ensures
        <Vec<T> as ToTypeCode>::spec_type_code() == seq!['a'] + T::spec_type_code(),
{
}

/// The type code of a mapping is `{`, the key type's code, the value type's code, then `}`,
/// whatever the mapping holds.
pub proof fn lemma_dict_type_code<K: BasicType + ToTypeCode, V: ToTypeCode, S>(m: HashMap<K, V, S>)
    ensures
        <HashMap<K, V, S> as ToTypeCode>::spec_type_code() == seq!['{'] + K::spec_type_code() + V::spec_type_code()
            + seq!['}'],
{
}

} // verus!
