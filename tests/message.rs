use dbus_marshal::error::DbusError;
use dbus_marshal::message::{
    Argument, Body, Header, HeaderField, HeaderFieldCode, HeaderFlags, MajorProtocolVersion,
    Message, MessageType,
};
use dbus_marshal::type_system::{ObjectPath, Serial, Signature};
use dbus_marshal::writer::{DbusWriter, EndianessFlag};

fn signal_fields() -> Vec<(HeaderFieldCode, HeaderField)> {
    vec![
        (HeaderFieldCode::Path, HeaderField::Path(ObjectPath("/path".to_string()))),
        (
            HeaderFieldCode::Interface,
            HeaderField::Interface("com.example.MusicPlayer1".to_string()),
        ),
        (HeaderFieldCode::Member, HeaderField::Member("member".to_string())),
    ]
}

fn message(
    order: EndianessFlag,
    message_type: MessageType,
    serial: u32,
    fields: Vec<(HeaderFieldCode, HeaderField)>,
    arguments: Vec<Argument>,
    length_message_body: u32,
) -> Message {
    Message {
        header: Header {
            endianess_flag: order,
            message_type,
            flags: HeaderFlags::empty(),
            major_protocol_version: MajorProtocolVersion(1),
            length_message_body,
            serial: Serial(serial),
            header_fields: fields,
        },
        body: Body { arguments },
    }
}

fn signal_bytes() -> Vec<u8> {
    let mut e = vec![0x6c, 0x04, 0x00, 0x01, 0, 0, 0, 0, 1, 0, 0, 0, 71, 0, 0, 0];
    e.extend_from_slice(&[1, 1, b'o', 0, 5, 0, 0, 0]);
    e.extend_from_slice(b"/path");
    e.extend_from_slice(&[0, 0, 0]);
    e.extend_from_slice(&[2, 1, b's', 0, 24, 0, 0, 0]);
    e.extend_from_slice(b"com.example.MusicPlayer1");
    e.extend_from_slice(&[0, 0, 0, 0, 0, 0, 0, 0]);
    e.extend_from_slice(&[3, 1, b's', 0, 6, 0, 0, 0]);
    e.extend_from_slice(b"member");
    e.extend_from_slice(&[0, 0]);
    e
}

#[test]
fn signal_message_bytes() {
    let m = message(EndianessFlag::LittleEndian, MessageType::Signal, 1, signal_fields(), vec![], 0);
    let mut sink = Vec::new();
    let n = m.write(&mut sink).unwrap();
    assert_eq!(n, 88);
    assert_eq!(sink, signal_bytes());
    assert_eq!(sink.len() % 8, 0);
}

#[test]
fn big_endian_header() {
    let m = message(EndianessFlag::BigEndian, MessageType::Signal, 0x0102_0304, signal_fields(), vec![], 0);
    let mut sink = Vec::new();
    m.write(&mut sink).unwrap();
    assert_eq!(&sink[..16], &[b'B', 4, 0, 1, 0, 0, 0, 0, 1, 2, 3, 4, 0, 0, 0, 71]);
}

#[test]
fn write_appends_after_existing_bytes() {
    let m = message(EndianessFlag::LittleEndian, MessageType::Signal, 1, signal_fields(), vec![], 0);
    let mut sink = vec![7u8, 7];
    m.write(&mut sink).unwrap();
    assert_eq!(&sink[..2], &[7, 7]);
    assert_eq!(&sink[2..], &signal_bytes()[..]);
}

#[test]
fn body_follows_padded_header() {
    let args = vec![Argument::Byte(5), Argument::UInt32(0x0a0b0c0d), Argument::Str("hi".to_string())];
    let m = message(EndianessFlag::LittleEndian, MessageType::Signal, 1, signal_fields(), args, 15);
    let mut sink = Vec::new();
    let n = m.write(&mut sink).unwrap();
    assert_eq!(n, 88 + 15);
    assert_eq!(&sink[88..], &[5, 0, 0, 0, 0x0d, 0x0c, 0x0b, 0x0a, 2, 0, 0, 0, b'h', b'i', 0]);
}

#[test]
fn method_call_requires_path_and_member() {
    let fields = vec![(HeaderFieldCode::Path, HeaderField::Path(ObjectPath("/p".to_string())))];
    let m = message(EndianessFlag::LittleEndian, MessageType::MethodCall, 1, fields, vec![], 0);
    let mut sink = vec![1u8];
    assert_eq!(m.write(&mut sink), Err(DbusError::MissingHeaderField));
    assert_eq!(sink, vec![1u8]);
}

#[test]
fn method_return_requires_reply_serial() {
    let m = message(EndianessFlag::LittleEndian, MessageType::MethodReturn, 2, vec![], vec![], 0);
    assert_eq!(m.write(&mut Vec::new()), Err(DbusError::MissingHeaderField));
    let fields = vec![(HeaderFieldCode::ReplySerial, HeaderField::ReplySerial(Serial(1)))];
    let m = message(EndianessFlag::LittleEndian, MessageType::MethodReturn, 2, fields, vec![], 0);
    let mut sink = Vec::new();
    assert_eq!(m.write(&mut sink), Ok(24));
    assert_eq!(&sink[12..], &[8, 0, 0, 0, 5, 1, b'u', 0, 1, 0, 0, 0]);
}

#[test]
fn error_requires_error_name_and_reply_serial() {
    let fields = vec![(HeaderFieldCode::ErrorName, HeaderField::ErrorName("a.B".to_string()))];
    let m = message(EndianessFlag::LittleEndian, MessageType::Error, 2, fields, vec![], 0);
    assert_eq!(m.write(&mut Vec::new()), Err(DbusError::MissingHeaderField));
}

#[test]
fn invalid_message_type_is_refused() {
    let m = message(EndianessFlag::LittleEndian, MessageType::Invalid, 1, vec![], vec![], 0);
    assert_eq!(m.write(&mut Vec::new()), Err(DbusError::InvalidMessageType));
}

#[test]
fn zero_serial_is_refused() {
    let m = message(EndianessFlag::LittleEndian, MessageType::Signal, 0, signal_fields(), vec![], 0);
    assert_eq!(m.write(&mut Vec::new()), Err(DbusError::InvalidSerial));
}

#[test]
fn invalid_header_field_is_refused() {
    let mut fields = signal_fields();
    fields.push((HeaderFieldCode::Invalid, HeaderField::Invalid));
    let m = message(EndianessFlag::LittleEndian, MessageType::Signal, 1, fields, vec![], 0);
    let mut sink = Vec::new();
    assert_eq!(m.write(&mut sink), Err(DbusError::InvalidHeaderField));
    assert!(sink.is_empty());
}

#[test]
fn mismatched_field_code_is_refused() {
    let mut fields = signal_fields();
    fields.push((HeaderFieldCode::Sender, HeaderField::Destination("x".to_string())));
    let m = message(EndianessFlag::LittleEndian, MessageType::Signal, 1, fields, vec![], 0);
    assert_eq!(m.write(&mut Vec::new()), Err(DbusError::InvalidHeaderField));
}

#[test]
fn overlong_signature_field_is_refused() {
    let mut fields = signal_fields();
    fields.push((HeaderFieldCode::Signature, HeaderField::Signature(Signature("y".repeat(256)))));
    let m = message(EndianessFlag::LittleEndian, MessageType::Signal, 1, fields, vec![], 0);
    assert_eq!(m.write(&mut Vec::new()), Err(DbusError::InvalidHeaderField));
}

#[test]
fn overlong_signature_argument_is_refused() {
    let args = vec![Argument::Signature(Signature("y".repeat(300)))];
    let m = message(EndianessFlag::LittleEndian, MessageType::Signal, 1, signal_fields(), args, 0);
    assert_eq!(m.write(&mut Vec::new()), Err(DbusError::InvalidArgument));
}

#[test]
fn header_field_array_limit() {
    let mut fields = signal_fields();
    fields.push((HeaderFieldCode::Sender, HeaderField::Sender("s".repeat(67108865))));
    let m = message(EndianessFlag::LittleEndian, MessageType::Signal, 1, fields, vec![], 0);
    assert_eq!(m.write(&mut Vec::new()), Err(DbusError::ArrayTooLong));
}

#[test]
fn body_length_must_match_header() {
    let m = message(EndianessFlag::LittleEndian, MessageType::Signal, 1, signal_fields(), vec![Argument::Byte(1)], 0);
    let mut sink = Vec::new();
    assert_eq!(m.write(&mut sink), Err(DbusError::BodyLengthMismatch));
    assert!(sink.is_empty());
}

#[test]
fn oversized_message_is_refused_before_writing() {
    let big = "x".repeat(134217728);
    let m = message(EndianessFlag::LittleEndian, MessageType::Signal, 1, signal_fields(), vec![Argument::Str(big)], 0);
    let mut sink = vec![3u8];
    assert_eq!(m.write(&mut sink), Err(DbusError::MessageTooLarge));
    assert_eq!(sink, vec![3u8]);
}

#[test]
fn header_field_write_refuses_invalid() {
    let mut w = DbusWriter::new(Vec::new());
    assert_eq!(HeaderField::Invalid.write(&mut w, EndianessFlag::LittleEndian, 0), Err(DbusError::InvalidHeaderField));
    assert_eq!(HeaderField::ReplySerial(Serial(0)).write(&mut w, EndianessFlag::LittleEndian, 0), Err(DbusError::InvalidHeaderField));
    assert_eq!(w.len(), 0);
    assert_eq!(HeaderField::UnixFds(2).write(&mut w, EndianessFlag::BigEndian, 0), Ok(8));
    assert_eq!(w.into_bytes(), vec![1, b'u', 0, 0, 0, 0, 0, 2]);
}

#[test]
fn header_flags_keep_unknown_bits() {
    let f = HeaderFlags::no_reply_expected().union(HeaderFlags::allow_interactive_authorization());
    assert_eq!(f.bits(), 5);
    assert_eq!(HeaderFlags::from_bits_retain(0xf0).union(HeaderFlags::no_auto_start()).bits(), 0xf2);
}

#[test]
fn codes_of_types_and_fields() {
    assert_eq!(MessageType::Signal.code(), 4);
    assert_eq!(MessageType::MethodCall.code(), 1);
    assert_eq!(HeaderFieldCode::UnixFds.code(), 9);
    assert_eq!(HeaderField::Member("m".to_string()).field_code(), HeaderFieldCode::Member);
    assert_eq!(EndianessFlag::BigEndian.marker(), b'B');
}

#[test]
fn test_add() {
    let header = Header {
        endianess_flag: EndianessFlag::BigEndian,
        message_type: MessageType::Signal,
        flags: HeaderFlags::no_auto_start(),
        major_protocol_version: MajorProtocolVersion(1),
        length_message_body: 0,
        serial: Serial(1),
        header_fields: Vec::new(),
    };
    let body = Body { arguments: Vec::new() };
    let m = Message { header, body };
    let mut buff = vec![0; 15];
    assert_eq!(m.write(&mut buff), Err(DbusError::MissingHeaderField));
    assert_eq!(buff, vec![0; 15]);

    let mut complete = m;
    complete.header.header_fields = signal_fields();
    let len = complete.write(&mut buff).unwrap();
    assert_eq!(len, 88);
    assert_eq!(&buff[15..19], &[b'B', 4, 2, 1]);
}
