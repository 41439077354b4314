use vstd::prelude::*;

use crate::error::DbusError;
use crate::type_system::{Double, ObjectPath, Serial, Signature, UnixFd};
use crate::writer::{
    array_data_start, enc_array, enc_elements, enc_signature, enc_string, enc_uint, padding,
    utf8, DbusWrite, DbusWriter, EndianessFlag, MAX_ARRAY_LEN, MAX_OFFSET,
};

verus! {

/// The maximum length of a message, including header, header alignment padding,
/// and body is 2 to the 27th power or 134217728 (128 MiB).
/// Implementations must not send or accept messages exceeding this size.
pub const MAX_MESSAGE_SIZE: u64 = 134217728;

/// Message type. Unknown types must be ignored.
#[derive(Clone, Copy, Debug, PartialEq, Eq, Structural)]
pub enum MessageType {
    /// This is an invalid type.
    Invalid,
    /// Method call. This message type may prompt a reply.
    MethodCall,
    /// Method reply with returned data.
    MethodReturn,
    /// Error reply. If the first argument exists
    /// and is a string, it is an error message.
    Error,
    /// Signal emission.
    Signal,
}

impl MessageType {
    pub open spec fn spec_code(self) -> u8 {
        match self {
            MessageType::Invalid => 0,
            MessageType::MethodCall => 1,
            MessageType::MethodReturn => 2,
            MessageType::Error => 3,
            MessageType::Signal => 4,
        }
    }

    /// The byte that stands for this type in a header.
    pub fn code(self) -> (r: u8)
        ensures
            r == self.spec_code(),
    {
        match self {
            MessageType::Invalid => 0,
            MessageType::MethodCall => 1,
            MessageType::MethodReturn => 2,
            MessageType::Error => 3,
            MessageType::Signal => 4,
        }
    }
}

/// Major protocol version of the sending application.
/// If the major protocol version of the receiving application does not match,
/// the applications will not be able to communicate and the D-Bus connection must be disconnected.
#[derive(Clone, Copy, Debug, PartialEq, Eq, Structural)]
pub struct MajorProtocolVersion(pub u8);

impl DbusWrite for MajorProtocolVersion {
    open spec fn wire_ok(&self) -> bool {
        true
    }

    open spec fn encoding(&self, order: EndianessFlag, offset: int) -> Seq<u8> {
        seq![self.0]
    }

    open spec fn spec_alignment() -> int {
        1
    }

    fn alignment() -> (r: u64) {
        1
    }

    fn write(&self, writer: &mut DbusWriter, order: EndianessFlag, bytes_written: u64) -> (r: u64) {
        writer.write_u8(self.0)
    }
}

/// Bitwise OR of header flags. Unknown bits are kept as they are.
#[derive(Clone, Copy, Debug, PartialEq, Eq, Structural)]
pub struct HeaderFlags {
    bits: u8,
}

impl HeaderFlags {
    pub closed spec fn spec_bits(self) -> u8 {
        self.bits
    }

    /// No flag set.
    pub fn empty() -> (r: HeaderFlags)
        ensures
            r.spec_bits() == 0,
    {
        HeaderFlags { bits: 0 }
    }

    /// The flags whose bits are `bits`, unknown ones included.
    pub fn from_bits_retain(bits: u8) -> (r: HeaderFlags)
        ensures
            r.spec_bits() == bits,
    {
        HeaderFlags { bits }
    }

    /// This message does not expect method return replies or error replies,
    /// even if it is of a type that can have a reply; the reply should be omitted.
    pub fn no_reply_expected() -> (r: HeaderFlags)
        ensures
            r.spec_bits() == 1,
    {
        HeaderFlags { bits: 1 }
    }

    /// The bus must not launch an owner for the destination name in response to this message.
    pub fn no_auto_start() -> (r: HeaderFlags)
        ensures
            r.spec_bits() == 2,
    {
        HeaderFlags { bits: 2 }
    }

    /// This flag may be set on a method call message to inform the receiving side that the caller
    /// is prepared to wait for interactive authorization, which might take a considerable time to complete.
    pub fn allow_interactive_authorization() -> (r: HeaderFlags)
        ensures
            r.spec_bits() == 4,
    {
        HeaderFlags { bits: 4 }
    }

    /// Every flag set in `self` or in `other`.
    pub fn union(self, other: HeaderFlags) -> (r: HeaderFlags)
        ensures
            r.spec_bits() == self.spec_bits() | other.spec_bits(),
    {
        HeaderFlags { bits: self.bits | other.bits }
    }

    /// The raw bits.
    pub fn bits(self) -> (r: u8)
        ensures
            r == self.spec_bits(),
    {
        self.bits
    }
}

/// The 1-byte code of a header field.
#[derive(Copy, Clone, Debug, PartialEq, Eq, Structural)]
pub enum HeaderFieldCode {
    /// Not a valid field name (error if it appears in a message)
    Invalid,
    /// The object to send a call to, or the object a signal is emitted from.
    Path,
    /// The interface to invoke a method call on, or that a signal is emitted from.
    Interface,
    /// The member, either the method name or signal name.
    Member,
    /// The name of the error that occurred, for errors.
    ErrorName,
    /// The serial number of the message this message is a reply to.
    ReplySerial,
    /// The name of the connection this message is intended for.
    Destination,
    /// Unique name of the sending connection.
    Sender,
    /// The signature of the message body.
    Signature,
    /// The number of Unix file descriptors that accompany the message.
    UnixFds,
}

impl HeaderFieldCode {
    pub open spec fn spec_code(self) -> u8 {
        match self {
            HeaderFieldCode::Invalid => 0,
            HeaderFieldCode::Path => 1,
            HeaderFieldCode::Interface => 2,
            HeaderFieldCode::Member => 3,
            HeaderFieldCode::ErrorName => 4,
            HeaderFieldCode::ReplySerial => 5,
            HeaderFieldCode::Destination => 6,
            HeaderFieldCode::Sender => 7,
            HeaderFieldCode::Signature => 8,
            HeaderFieldCode::UnixFds => 9,
        }
    }

    /// The byte that stands for this field in a header.
    pub fn code(self) -> (r: u8)
        ensures
            r == self.spec_code(),
    {
        match self {
            HeaderFieldCode::Invalid => 0,
            HeaderFieldCode::Path => 1,
            HeaderFieldCode::Interface => 2,
            HeaderFieldCode::Member => 3,
            HeaderFieldCode::ErrorName => 4,
            HeaderFieldCode::ReplySerial => 5,
            HeaderFieldCode::Destination => 6,
            HeaderFieldCode::Sender => 7,
            HeaderFieldCode::Signature => 8,
            HeaderFieldCode::UnixFds => 9,
        }
    }
}

/// One entry of the array at the end of the header: a field code followed by a field value.
/// A header must contain the required header fields for its message type,
/// and zero or more of any optional header fields.
pub enum HeaderField {
    /// Not a valid field name (error if it appears in a message)
    Invalid,
    /// The object to send a call to, or the object a signal is emitted from.
    /// Required in `MessageType::MethodCall` and `MessageType::Signal`.
    Path(ObjectPath),
    /// The interface to invoke a method call on, or that a signal is emitted from.
    /// Required in `MessageType::Signal`.
    Interface(String),
    /// The member, either the method name or signal name.
    /// Required in `MessageType::MethodCall` and `MessageType::Signal`.
    Member(String),
    /// The name of the error that occurred, for errors.
    /// Required in `MessageType::Error`.
    ErrorName(String),
    /// The serial number of the message this message is a reply to.
    /// Required in `MessageType::Error` and `MessageType::MethodReturn`.
    ReplySerial(Serial),
    /// The name of the connection this message is intended for.
    Destination(String),
    /// Unique name of the sending connection.
    Sender(String),
    /// The signature of the message body. If omitted, it is assumed to be the empty signature "".
    Signature(Signature),
    /// The number of Unix file descriptors that accompany the message.
    UnixFds(u32),
}

impl HeaderField {
    /// The code of the field.
    pub open spec fn spec_field_code(&self) -> HeaderFieldCode {
        match self {
            HeaderField::Invalid => HeaderFieldCode::Invalid,
            HeaderField::Path(_) => HeaderFieldCode::Path,
            HeaderField::Interface(_) => HeaderFieldCode::Interface,
            HeaderField::Member(_) => HeaderFieldCode::Member,
            HeaderField::ErrorName(_) => HeaderFieldCode::ErrorName,
            HeaderField::ReplySerial(_) => HeaderFieldCode::ReplySerial,
            HeaderField::Destination(_) => HeaderFieldCode::Destination,
            HeaderField::Sender(_) => HeaderFieldCode::Sender,
            HeaderField::Signature(_) => HeaderFieldCode::Signature,
            HeaderField::UnixFds(_) => HeaderFieldCode::UnixFds,
        }
    }

    /// The one-letter signature of the field's value, as a byte.
    pub open spec fn spec_signature_byte(&self) -> u8 {
        match self {
            HeaderField::Path(_) => 0x6f,
            HeaderField::ReplySerial(_) | HeaderField::UnixFds(_) => 0x75,
            HeaderField::Signature(_) => 0x67,
            _ => 0x73,
        }
    }

    /// Byte length of the string the field carries; zero for the others.
    pub open spec fn payload_len(&self) -> nat {
        match self {
            HeaderField::Path(p) => utf8(p.0@).len(),
            HeaderField::Interface(s) => utf8(s@).len(),
            HeaderField::Member(s) => utf8(s@).len(),
            HeaderField::ErrorName(s) => utf8(s@).len(),
            HeaderField::Destination(s) => utf8(s@).len(),
            HeaderField::Sender(s) => utf8(s@).len(),
            HeaderField::Signature(g) => utf8(g.0@).len(),
            _ => 0,
        }
    }

    /// Whether the field may appear in a header: not `Invalid`, a reply serial that is not
    /// zero, a signature of at most 255 bytes.
    pub open spec fn valid(&self) -> bool {
        match self {
            HeaderField::Invalid => false,
            HeaderField::ReplySerial(s) => s.0 != 0,
            HeaderField::Signature(g) => utf8(g.0@).len() <= 255,
            _ => true,
        }
    }

    /// The value alone, in the message's byte order, at offset `offset`.
    pub open spec fn value_encoding(&self, order: EndianessFlag, offset: int) -> Seq<u8> {
        match self {
            HeaderField::Invalid => Seq::empty(),
            HeaderField::Path(p) => enc_string(order, utf8(p.0@), offset),
            HeaderField::Interface(s) => enc_string(order, utf8(s@), offset),
            HeaderField::Member(s) => enc_string(order, utf8(s@), offset),
            HeaderField::ErrorName(s) => enc_string(order, utf8(s@), offset),
            HeaderField::ReplySerial(s) => enc_uint(order, s.0 as nat, 4, offset),
            HeaderField::Destination(s) => enc_string(order, utf8(s@), offset),
            HeaderField::Sender(s) => enc_string(order, utf8(s@), offset),
            HeaderField::Signature(g) => enc_signature(utf8(g.0@)),
            HeaderField::UnixFds(n) => enc_uint(order, *n as nat, 4, offset),
        }
    }

    /// The field as a variant at offset `offset`: its one-letter signature, then its value.
    pub open spec fn encoding(&self, order: EndianessFlag, offset: int) -> Seq<u8> {
        seq![1u8, self.spec_signature_byte(), 0u8] + self.value_encoding(order, offset + 3)
    }

    /// Writes the field as a variant. A field that is not `valid`, `HeaderField::Invalid` among
    /// them, is refused and nothing is written.
    pub fn write(&self, writer: &mut DbusWriter, order: EndianessFlag, bytes_written: u64) -> (r: Result<u64, DbusError>)
        requires
            bytes_written <= MAX_OFFSET + 8,
            self.payload_len() <= MAX_ARRAY_LEN,
        ensures
            match r {
                Ok(n) => {
                    &&& self.valid()
                    &&& n == self.encoding(order, bytes_written as int).len()
                    &&& n <= MAX_ARRAY_LEN + 20
                    &&& final(writer)@ == old(writer)@ + self.encoding(order, bytes_written as int)
                },
                Err(e) => {
                    &&& !self.valid()
                    &&& e == DbusError::InvalidHeaderField
                    &&& final(writer)@ == old(writer)@
                },
            },
    {
        let c: u8 = match self {
            HeaderField::Invalid => {
                let r = writer.write_invalid();
                return match r {
                    Ok(()) => Ok(0),
                    Err(e) => Err(e),
                };
            },
            HeaderField::Path(_) => 0x6f,
            HeaderField::ReplySerial(serial) => {
                if serial.0 == 0 {
                    return Err(DbusError::InvalidHeaderField);
                }
                0x75
            },
            HeaderField::UnixFds(_) => 0x75,
            HeaderField::Signature(signature) => {
                if signature.0.as_str().as_bytes().len() > 255 {
                    return Err(DbusError::InvalidHeaderField);
                }
                0x67
            },
            _ => 0x73,
        };
        let ghost start = writer@;
        writer.write_u8(1);
        writer.write_u8(c);
        writer.write_u8(0);
        let at = bytes_written + 3;
        let n = match self {
            HeaderField::Invalid => 0,
            HeaderField::Path(object_path) => writer.write_object_path(order, object_path, at),
            HeaderField::Interface(interface_name) => writer.write_string(order, interface_name.as_str(), at),
            HeaderField::Member(member_name) => writer.write_string(order, member_name.as_str(), at),
            HeaderField::ErrorName(error_name) => writer.write_string(order, error_name.as_str(), at),
            HeaderField::ReplySerial(serial) => writer.write_u32(order, serial.0, at),
            HeaderField::Destination(destination) => writer.write_string(order, destination.as_str(), at),
            HeaderField::Sender(sender) => writer.write_string(order, sender.as_str(), at),
            HeaderField::Signature(signature) => writer.write_signature(signature),
            HeaderField::UnixFds(fd) => writer.write_u32(order, *fd, at),
        };
        assert(writer@ =~= start + self.encoding(order, bytes_written as int));
        Ok(3 + n)
    }
}

/// A header field entry as it stands in the header: the 8-aligned struct of a field code and a
/// variant.
impl DbusWrite for (HeaderFieldCode, HeaderField) {
    open spec fn wire_ok(&self) -> bool {
        &&& self.1.valid()
        &&& self.0 == self.1.spec_field_code()
        &&& self.1.payload_len() <= MAX_ARRAY_LEN
    }

    open spec fn encoding(&self, order: EndianessFlag, offset: int) -> Seq<u8> {
        let p = padding(offset, 8);
        p + seq![self.0.spec_code()] + self.1.encoding(order, offset + p.len() + 1)
    }

    open spec fn spec_alignment() -> int {
        8
    }

    fn alignment() -> (r: u64) {
        8
    }

    fn write(&self, writer: &mut DbusWriter, order: EndianessFlag, bytes_written: u64) -> (r: u64) {
        let ghost start = writer@;
        let p = writer.write_padding(bytes_written, 8);
        let c = self.0.code();
        writer.write_u8(c);
        let ghost mid = writer@;
        let r = self.1.write(writer, order, bytes_written + p as u64 + 1);
        match r {
            Ok(n) => {
                assert(writer@ =~= start + self.encoding(order, bytes_written as int));
                p as u64 + 1 + n
            },
            Err(_) => 0,
        }
    }
}

/// Whether `fields` holds a field with code `code`.
pub open spec fn has_field(fields: Seq<(HeaderFieldCode, HeaderField)>, code: HeaderFieldCode) -> bool {
    exists|i: int| 0 <= i < fields.len() && (#[trigger] fields[i]).1.spec_field_code() == code
}

/// Whether the fields that `message_type` requires are all present.
pub open spec fn required_fields_present(message_type: MessageType, fields: Seq<(HeaderFieldCode, HeaderField)>) -> bool {
    match message_type {
        MessageType::Invalid => true,
        MessageType::MethodCall => has_field(fields, HeaderFieldCode::Path) && has_field(fields, HeaderFieldCode::Member),
        MessageType::MethodReturn => has_field(fields, HeaderFieldCode::ReplySerial),
        MessageType::Error => has_field(fields, HeaderFieldCode::ErrorName) && has_field(fields, HeaderFieldCode::ReplySerial),
        MessageType::Signal => has_field(fields, HeaderFieldCode::Path) && has_field(fields, HeaderFieldCode::Interface)
            && has_field(fields, HeaderFieldCode::Member),
    }
}

/// Whether every entry is a valid field under its own code.
pub open spec fn fields_valid(fields: Seq<(HeaderFieldCode, HeaderField)>) -> bool {
    forall|i: int| 0 <= i < fields.len() ==> (#[trigger] fields[i]).1.valid() && fields[i].0 == fields[i].1.spec_field_code()
}

/// Byte length of the string payload of the `i`-th entry.
pub open spec fn entry_payload_len(fields: Seq<(HeaderFieldCode, HeaderField)>, i: int) -> nat {
    fields[i].1.payload_len()
}

/// Whether every entry's string fits the header field array.
pub open spec fn fields_fit(fields: Seq<(HeaderFieldCode, HeaderField)>) -> bool {
    forall|i: int| 0 <= i < fields.len() ==> (#[trigger] fields[i]).1.payload_len() <= MAX_ARRAY_LEN
}

/// An entry's encoding is at least as long as the string it carries.
proof fn lemma_entry_len(e: (HeaderFieldCode, HeaderField), order: EndianessFlag, offset: int)
    ensures
        e.encoding(order, offset).len() >= e.1.payload_len(),
{
}

/// The header field array data is at least as long as any one entry's string.
proof fn lemma_elements_payload(fields: Seq<(HeaderFieldCode, HeaderField)>, i: int, order: EndianessFlag, offset: int)
    requires
        0 <= i < fields.len(),
    ensures
        enc_elements(fields, order, offset).len() >= fields[i].1.payload_len(),
    decreases fields.len(),
{
    let pre = enc_elements(fields.drop_last(), order, offset);
    if i == fields.len() - 1 {
        lemma_entry_len(fields.last(), order, offset + pre.len());
    } else {
        lemma_elements_payload(fields.drop_last(), i, order, offset);
    }
}

/// The length of an encoded header field array whose data is `data_len` bytes long.
proof fn lemma_header_array_len(fields: Seq<(HeaderFieldCode, HeaderField)>, order: EndianessFlag)
    ensures
        array_data_start::<(HeaderFieldCode, HeaderField)>(12) == 16,
        enc_array(fields, order, 12).len() == 4 + enc_elements(fields, order, 16).len(),
{
    crate::writer::lemma_uint_bytes_len(order, enc_elements(fields, order, 16).len(), 4);
}

/// The length of the message header before its final padding.
pub open spec fn header_unpadded_len(h: Header) -> int {
    12 + enc_array(h.header_fields@, h.endianess_flag, 12).len() as int
}

/// The header as it goes on the wire: the four fixed bytes, body length, serial,
/// the header field array, and zero padding up to a multiple of 8.
pub open spec fn enc_header(h: Header) -> Seq<u8> {
    let order = h.endianess_flag;
    seq![order.spec_marker(), h.message_type.spec_code(), h.flags.spec_bits(), h.major_protocol_version.0]
        + enc_uint(order, h.length_message_body as nat, 4, 4) + enc_uint(order, h.serial.0 as nat, 4, 8)
        + enc_array(h.header_fields@, order, 12) + padding(header_unpadded_len(h), 8)
}

/// Byte length of the element data of the header field array.
pub open spec fn header_fields_len(h: Header) -> nat {
    enc_elements(h.header_fields@, h.endianess_flag, 16).len()
}

/// Why the header cannot be written, if it cannot.
pub open spec fn header_error(h: Header) -> Option<DbusError> {
    if !fields_valid(h.header_fields@) {
        Some(DbusError::InvalidHeaderField)
    } else if header_fields_len(h) > MAX_ARRAY_LEN {
        Some(DbusError::ArrayTooLong)
    } else {
        None
    }
}

/// The length of the header must be a multiple of 8, allowing the body to begin on
/// an 8-byte boundary when storing the entire message in a single buffer.
/// A header must contain the required header fields for its message type,
/// and zero or more of any optional header fields.
pub struct Header {
    pub endianess_flag: EndianessFlag,
    /// Message type. Unknown types must be ignored.
    pub message_type: MessageType,
    /// Bitwise OR of flags. Unknown flags must be ignored.
    pub flags: HeaderFlags,
    /// Major protocol version of the sending application.
    pub major_protocol_version: MajorProtocolVersion,
    /// Length in bytes of the message body, starting from the end of the header.
    /// The header ends after its alignment padding to an 8-boundary.
    pub length_message_body: u32,
    /// The serial of this message, used as a cookie by the sender to identify
    /// the reply corresponding to this request. This must not be zero.
    pub serial: Serial,
    /// An array of zero or more header fields where the byte is the field code,
    /// and the variant is the field value. The message type determines which fields are required.
    pub header_fields: Vec<(HeaderFieldCode, HeaderField)>,
}

/// Checks the entries one by one: (all valid, all strings fit the array limit).
fn check_fields(fields: &Vec<(HeaderFieldCode, HeaderField)>) -> (r: (bool, bool))
    ensures
        r.0 == fields_valid(fields@),
        r.1 == fields_fit(fields@),
{
    let mut valid = true;
    let mut fit = true;
    let mut i: usize = 0;
    while i < fields.len()
        invariant
            i <= fields@.len(),
            valid == fields_valid(fields@.take(i as int)),
            fit == fields_fit(fields@.take(i as int)),
        decreases fields@.len() - i,
    {
        let entry = &fields[i];
        let (ok, len) = field_check(&entry.1);
        let same = entry.0 == entry.1.field_code();
        proof {
            let t = fields@.take(i + 1);
            assert(t[i as int] == fields@[i as int]);
            assert forall|j: int| 0 <= j < i implies t[j] == #[trigger] fields@.take(i as int)[j] by {}
        }
        valid = valid && ok && same;
        fit = fit && len <= MAX_ARRAY_LEN;
        i = i + 1;
    }
    proof {
        assert(fields@.take(i as int) =~= fields@);
    }
    (valid, fit)
}

/// Whether the field is `valid`, and the byte length of its string (saturated to `u64`).
fn field_check(f: &HeaderField) -> (r: (bool, u64))
    ensures
        r.0 == f.valid(),
        r.1 as nat == if f.payload_len() <= u64::MAX { f.payload_len() } else { u64::MAX as nat },
{
    match f {
        HeaderField::Invalid => (false, 0),
        HeaderField::Path(p) => (true, p.0.as_str().as_bytes().len() as u64),
        HeaderField::Interface(s) => (true, s.as_str().as_bytes().len() as u64),
        HeaderField::Member(s) => (true, s.as_str().as_bytes().len() as u64),
        HeaderField::ErrorName(s) => (true, s.as_str().as_bytes().len() as u64),
        HeaderField::ReplySerial(serial) => (serial.0 != 0, 0),
        HeaderField::Destination(s) => (true, s.as_str().as_bytes().len() as u64),
        HeaderField::Sender(s) => (true, s.as_str().as_bytes().len() as u64),
        HeaderField::Signature(g) => {
            let n = g.0.as_str().as_bytes().len();
            (n <= 255, n as u64)
        },
        HeaderField::UnixFds(_) => (true, 0),
    }
}

impl HeaderField {
    /// The code of the field.
    pub fn field_code(&self) -> (r: HeaderFieldCode)
        ensures
            r == self.spec_field_code(),
    {
        match self {
            HeaderField::Invalid => HeaderFieldCode::Invalid,
            HeaderField::Path(_) => HeaderFieldCode::Path,
            HeaderField::Interface(_) => HeaderFieldCode::Interface,
            HeaderField::Member(_) => HeaderFieldCode::Member,
            HeaderField::ErrorName(_) => HeaderFieldCode::ErrorName,
            HeaderField::ReplySerial(_) => HeaderFieldCode::ReplySerial,
            HeaderField::Destination(_) => HeaderFieldCode::Destination,
            HeaderField::Sender(_) => HeaderFieldCode::Sender,
            HeaderField::Signature(_) => HeaderFieldCode::Signature,
            HeaderField::UnixFds(_) => HeaderFieldCode::UnixFds,
        }
    }
}

impl Header {
    /// Writes the header, which starts the message, padded to a multiple of 8 bytes.
    /// Nothing is written when it fails.
    pub fn write(&self, writer: &mut DbusWriter) -> (r: Result<u64, DbusError>)
        ensures
            match r {
                Ok(n) => {
                    &&& header_error(*self) is None
                    &&& n == enc_header(*self).len()
                    &&& n <= MAX_ARRAY_LEN + 48
                    &&& final(writer)@ == old(writer)@ + enc_header(*self)
                },
                Err(e) => {
                    &&& header_error(*self) == Some(e)
                    &&& final(writer)@ == old(writer)@
                },
            },
    {
        let order = self.endianess_flag;
        let (valid, fit) = check_fields(&self.header_fields);
        if !valid {
            return Err(DbusError::InvalidHeaderField);
        }
        if !fit {
            proof {
                let i = choose|i: int| 0 <= i < self.header_fields@.len() && #[trigger] self.header_fields@[i].1.payload_len() > MAX_ARRAY_LEN;
                lemma_elements_payload(self.header_fields@, i, order, 16);
            }
            return Err(DbusError::ArrayTooLong);
        }
        let mut w = DbusWriter::new(Vec::new());
        let mut bytes_written: u64 = 0;
        bytes_written = bytes_written + w.write_u8(order.marker());
        bytes_written = bytes_written + w.write_u8(self.message_type.code());
        bytes_written = bytes_written + w.write_u8(self.flags.bits());
        bytes_written = bytes_written + self.major_protocol_version.write(&mut w, order, bytes_written);
        bytes_written = bytes_written + w.write_u32(order, self.length_message_body, bytes_written);
        bytes_written = bytes_written + w.write_u32(order, self.serial.0, bytes_written);
        proof {
            crate::writer::lemma_uint_bytes_len(order, self.length_message_body as nat, 4);
            crate::writer::lemma_uint_bytes_len(order, self.serial.0 as nat, 4);
            lemma_header_array_len(self.header_fields@, order);
        }
        assert(bytes_written == 12);
        let arr = w.write_array(order, &self.header_fields, bytes_written);
        match arr {
            Ok(n) => {
                bytes_written = bytes_written + n;
                let p = w.write_padding(bytes_written, 8);
                bytes_written = bytes_written + p as u64;
                let bytes = w.into_bytes();
                writer.write_bytes(bytes.as_slice());
                assert(bytes@ =~= enc_header(*self));
                Ok(bytes_written)
            },
            Err(e) => Err(e),
        }
    }
}

/// One argument of the message body: a value of a basic type.
pub enum Argument {
    Byte(u8),
    Boolean(bool),
    Int16(i16),
    UInt16(u16),
    Int32(i32),
    UInt32(u32),
    Int64(i64),
    UInt64(u64),
    Double(Double),
    Str(String),
    ObjectPath(ObjectPath),
    Signature(Signature),
    UnixFd(UnixFd),
}

impl DbusWrite for Argument {
    open spec fn wire_ok(&self) -> bool {
        match self {
            Argument::Byte(v) => v.wire_ok(),
            Argument::Boolean(v) => v.wire_ok(),
            Argument::Int16(v) => v.wire_ok(),
            Argument::UInt16(v) => v.wire_ok(),
            Argument::Int32(v) => v.wire_ok(),
            Argument::UInt32(v) => v.wire_ok(),
            Argument::Int64(v) => v.wire_ok(),
            Argument::UInt64(v) => v.wire_ok(),
            Argument::Double(v) => v.wire_ok(),
            Argument::Str(v) => v.wire_ok(),
            Argument::ObjectPath(v) => v.wire_ok(),
            Argument::Signature(v) => v.wire_ok(),
            Argument::UnixFd(v) => v.wire_ok(),
        }
    }

    open spec fn encoding(&self, order: EndianessFlag, offset: int) -> Seq<u8> {
        match self {
            Argument::Byte(v) => v.encoding(order, offset),
            Argument::Boolean(v) => v.encoding(order, offset),
            Argument::Int16(v) => v.encoding(order, offset),
            Argument::UInt16(v) => v.encoding(order, offset),
            Argument::Int32(v) => v.encoding(order, offset),
            Argument::UInt32(v) => v.encoding(order, offset),
            Argument::Int64(v) => v.encoding(order, offset),
            Argument::UInt64(v) => v.encoding(order, offset),
            Argument::Double(v) => v.encoding(order, offset),
            Argument::Str(v) => v.encoding(order, offset),
            Argument::ObjectPath(v) => v.encoding(order, offset),
            Argument::Signature(v) => v.encoding(order, offset),
            Argument::UnixFd(v) => v.encoding(order, offset),
        }
    }

    /// Arguments of different types share no boundary; an array of them takes the widest.
    open spec fn spec_alignment() -> int {
        8
    }

    fn alignment() -> (r: u64) {
        8
    }

    fn write(&self, writer: &mut DbusWriter, order: EndianessFlag, bytes_written: u64) -> (r: u64) {
        match self {
            Argument::Byte(v) => v.write(writer, order, bytes_written),
            Argument::Boolean(v) => v.write(writer, order, bytes_written),
            Argument::Int16(v) => v.write(writer, order, bytes_written),
            Argument::UInt16(v) => v.write(writer, order, bytes_written),
            Argument::Int32(v) => v.write(writer, order, bytes_written),
            Argument::UInt32(v) => v.write(writer, order, bytes_written),
            Argument::Int64(v) => v.write(writer, order, bytes_written),
            Argument::UInt64(v) => v.write(writer, order, bytes_written),
            Argument::Double(v) => v.write(writer, order, bytes_written),
            Argument::Str(v) => v.write(writer, order, bytes_written),
            Argument::ObjectPath(v) => v.write(writer, order, bytes_written),
            Argument::Signature(v) => v.write(writer, order, bytes_written),
            Argument::UnixFd(v) => v.write(writer, order, bytes_written),
        }
    }
}

impl Argument {
    /// Byte length of the string the argument carries; zero for the others.
    pub open spec fn payload_len(&self) -> nat {
        match self {
            Argument::Str(s) => utf8(s@).len(),
            Argument::ObjectPath(p) => utf8(p.0@).len(),
            Argument::Signature(g) => utf8(g.0@).len(),
            _ => 0,
        }
    }

    /// Whether the argument is no signature longer than 255 bytes.
    pub open spec fn valid(&self) -> bool {
        match self {
            Argument::Signature(g) => utf8(g.0@).len() <= 255,
            _ => true,
        }
    }

    /// Whether the argument is `valid`, and the byte length of its string (saturated to `u64`).
    fn check(&self) -> (r: (bool, u64))
        ensures
            r.0 == self.valid(),
            r.1 as nat == if self.payload_len() <= u64::MAX { self.payload_len() } else { u64::MAX as nat },
    {
        match self {
            Argument::Str(s) => (true, s.as_str().as_bytes().len() as u64),
            Argument::ObjectPath(p) => (true, p.0.as_str().as_bytes().len() as u64),
            Argument::Signature(g) => {
                let n = g.0.as_str().as_bytes().len();
                (n <= 255, n as u64)
            },
            _ => (true, 0),
        }
    }
}

/// The body of the message is made up of zero or more arguments,
/// which are typed values, such as an integer or a byte array.
pub struct Body {
    pub arguments: Vec<Argument>,
}

/// The body written at offset `offset`: the arguments, contiguous, with no separators.
pub open spec fn enc_body(b: Body, order: EndianessFlag, offset: int) -> Seq<u8> {
    enc_elements(b.arguments@, order, offset)
}

/// Why the body cannot follow `offset` bytes of header, if it cannot.
pub open spec fn body_error(b: Body, order: EndianessFlag, offset: int) -> Option<DbusError> {
    if exists|i: int| 0 <= i < b.arguments@.len() && !(#[trigger] b.arguments@[i]).valid() {
        Some(DbusError::InvalidArgument)
    } else if offset + enc_body(b, order, offset).len() > MAX_MESSAGE_SIZE {
        Some(DbusError::MessageTooLarge)
    } else {
        None
    }
}

/// The body data is at least as long as any one argument's string.
proof fn lemma_body_payload(a: Seq<Argument>, i: int, order: EndianessFlag, offset: int)
    requires
        0 <= i < a.len(),
    ensures
        enc_elements(a, order, offset).len() >= a[i].payload_len(),
    decreases a.len(),
{
    if i < a.len() - 1 {
        lemma_body_payload(a.drop_last(), i, order, offset);
    }
}

impl Body {
    /// Writes the arguments after `bytes_written` bytes of message. Nothing is written when it
    /// fails.
    pub fn write(&self, writer: &mut DbusWriter, order: EndianessFlag, bytes_written: u64) -> (r: Result<u64, DbusError>)
        requires
            bytes_written <= MAX_MESSAGE_SIZE,
        ensures
            match r {
                Ok(n) => {
                    &&& body_error(*self, order, bytes_written as int) is None
                    &&& n == enc_body(*self, order, bytes_written as int).len()
                    &&& final(writer)@ == old(writer)@ + enc_body(*self, order, bytes_written as int)
                },
                Err(e) => {
                    &&& body_error(*self, order, bytes_written as int) == Some(e)
                    &&& final(writer)@ == old(writer)@
                },
            },
    {
        let a = &self.arguments;
        let mut valid = true;
        let mut fit = true;
        let mut i: usize = 0;
        while i < a.len()
            invariant
                i <= a@.len(),
                valid == forall|j: int| 0 <= j < i ==> (#[trigger] a@[j]).valid(),
                fit == forall|j: int| 0 <= j < i ==> (#[trigger] a@[j]).payload_len() <= MAX_MESSAGE_SIZE,
            decreases a@.len() - i,
        {
            let (ok, len) = a[i].check();
            valid = valid && ok;
            fit = fit && len <= MAX_MESSAGE_SIZE;
            i = i + 1;
        }
        if !valid {
            return Err(DbusError::InvalidArgument);
        }
        if !fit {
            proof {
                let j = choose|j: int| 0 <= j < a@.len() && #[trigger] a@[j].payload_len() > MAX_MESSAGE_SIZE;
                lemma_body_payload(a@, j, order, bytes_written as int);
            }
            return Err(DbusError::MessageTooLarge);
        }
        let mut scratch = DbusWriter::new(Vec::new());
        let mut data_len: u64 = 0;
        let mut i: usize = 0;
        while i < a.len()
            invariant
                i <= a@.len(),
                a@ == self.arguments@,
                bytes_written <= MAX_MESSAGE_SIZE,
                forall|j: int| 0 <= j < a@.len() ==> (#[trigger] a@[j]).valid(),
                forall|j: int| 0 <= j < a@.len() ==> (#[trigger] a@[j]).payload_len() <= MAX_MESSAGE_SIZE,
                scratch@ == enc_elements(a@.take(i as int), order, bytes_written as int),
                data_len == scratch@.len(),
                bytes_written + data_len <= MAX_MESSAGE_SIZE,
            decreases a@.len() - i,
        {
            let n = a[i].write(&mut scratch, order, bytes_written + data_len);
            proof {
                assert(a@.take(i + 1).drop_last() =~= a@.take(i as int));
            }
            data_len = data_len + n;
            i = i + 1;
            if bytes_written + data_len > MAX_MESSAGE_SIZE {
                proof {
                    crate::writer::lemma_elements_prefix_len(a@, i as int, order, bytes_written as int);
                }
                return Err(DbusError::MessageTooLarge);
            }
        }
        proof {
            assert(a@.take(a@.len() as int) =~= a@);
        }
        let data = scratch.into_bytes();
        writer.write_bytes(data.as_slice());
        Ok(data_len)
    }
}

/// Whether `fields` holds a field with code `code`.
fn find_field(fields: &Vec<(HeaderFieldCode, HeaderField)>, code: HeaderFieldCode) -> (r: bool)
    ensures
        r == has_field(fields@, code),
{
    let mut i: usize = 0;
    while i < fields.len()
        invariant
            i <= fields@.len(),
            forall|j: int| 0 <= j < i ==> (#[trigger] fields@[j]).1.spec_field_code() != code,
        decreases fields@.len() - i,
    {
        if fields[i].1.field_code() == code {
            return true;
        }
        i = i + 1;
    }
    false
}

/// Whether the fields that `message_type` requires are all in `fields`.
fn check_required(message_type: MessageType, fields: &Vec<(HeaderFieldCode, HeaderField)>) -> (r: bool)
    ensures
        r == required_fields_present(message_type, fields@),
{
    match message_type {
        MessageType::Invalid => true,
        MessageType::MethodCall => find_field(fields, HeaderFieldCode::Path) && find_field(fields, HeaderFieldCode::Member),
        MessageType::MethodReturn => find_field(fields, HeaderFieldCode::ReplySerial),
        MessageType::Error => find_field(fields, HeaderFieldCode::ErrorName) && find_field(fields, HeaderFieldCode::ReplySerial),
        MessageType::Signal => find_field(fields, HeaderFieldCode::Path) && find_field(fields, HeaderFieldCode::Interface)
            && find_field(fields, HeaderFieldCode::Member),
    }
}

/// A message consists of a header and a body. If you think of a message as a package,
/// the header is the address, and the body contains the package contents.
pub struct Message {
    /// The message delivery system uses the header information to figure out
    /// where to send the message and how to interpret it.
    pub header: Header,
    /// The body of the message is made up of zero or more arguments,
    /// which are typed values, such as an integer or a byte array.
    pub body: Body,
}

/// The whole message: the padded header, then the body.
pub open spec fn encode_message(m: Message) -> Seq<u8> {
    let h = enc_header(m.header);
    h + enc_body(m.body, m.header.endianess_flag, h.len() as int)
}

/// Why the message cannot be written, if it cannot; the checks go in this order.
pub open spec fn message_error(m: Message) -> Option<DbusError> {
    let h = m.header;
    let header_len = enc_header(h).len() as int;
    if h.message_type is Invalid {
        Some(DbusError::InvalidMessageType)
    } else if !required_fields_present(h.message_type, h.header_fields@) {
        Some(DbusError::MissingHeaderField)
    } else if h.serial.0 == 0 {
        Some(DbusError::InvalidSerial)
    } else if header_error(h) is Some {
        header_error(h)
    } else if body_error(m.body, h.endianess_flag, header_len) is Some {
        body_error(m.body, h.endianess_flag, header_len)
    } else if enc_body(m.body, h.endianess_flag, header_len).len() != h.length_message_body {
        Some(DbusError::BodyLengthMismatch)
    } else {
        None
    }
}

/// A message whose encoding would be longer than `MAX_MESSAGE_SIZE` bytes, and that passes
/// every other check, is refused as too large; `Message::write` then leaves its sink as it was.
pub proof fn lemma_oversized_message_refused(m: Message)
    requires
        !(m.header.message_type is Invalid),
        required_fields_present(m.header.message_type, m.header.header_fields@),
        m.header.serial.0 != 0,
        header_error(m.header) is None,
        forall|i: int| 0 <= i < m.body.arguments@.len() ==> (#[trigger] m.body.arguments@[i]).valid(),
        encode_message(m).len() > MAX_MESSAGE_SIZE,
    ensures
        message_error(m) == Some(DbusError::MessageTooLarge),
{
}

impl Message {
    /// Marshals the message and appends it to `sink`. On failure `sink` is left as it was.
    pub fn write(&self, sink: &mut Vec<u8>) -> (r: Result<u64, DbusError>)
        ensures
            match r {
                Ok(n) => {
                    &&& message_error(*self) is None
                    &&& n == encode_message(*self).len()
                    &&& final(sink)@ == old(sink)@ + encode_message(*self)
                },
                Err(e) => {
                    &&& message_error(*self) == Some(e)
                    &&& final(sink)@ == old(sink)@
                },
            },
    {
        let h = &self.header;
        if let MessageType::Invalid = h.message_type {
            return Err(DbusError::InvalidMessageType);
        }
        if !check_required(h.message_type, &h.header_fields) {
            return Err(DbusError::MissingHeaderField);
        }
        if h.serial.0 == 0 {
            return Err(DbusError::InvalidSerial);
        }
        let mut writer = DbusWriter::new(Vec::new());
        let header_len = match h.write(&mut writer) {
            Ok(n) => n,
            Err(e) => return Err(e),
        };
        let body_len = match self.body.write(&mut writer, h.endianess_flag, header_len) {
            Ok(n) => n,
            Err(e) => return Err(e),
        };
        if body_len != h.length_message_body as u64 {
            return Err(DbusError::BodyLengthMismatch);
        }
        let bytes = writer.into_bytes();
        let mut i: usize = 0;
        while i < bytes.len()
            invariant
                i <= bytes@.len(),
                sink@ == old(sink)@ + bytes@.take(i as int),
            decreases bytes@.len() - i,
        {
            sink.push(bytes[i]);
            i = i + 1;
            assert(bytes@.take(i as int) == bytes@.take(i - 1) + seq![bytes@[i - 1]]);
        }
        assert(bytes@.take(bytes@.len() as int) =~= bytes@);
        assert(bytes@ =~= encode_message(*self));
        Ok(header_len + body_len)
    }
}

} // verus!
