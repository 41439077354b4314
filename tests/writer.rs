use dbus_marshal::error::DbusError;
use dbus_marshal::type_system::{ObjectPath, Signature};
use dbus_marshal::writer::{DbusWriter, EndianessFlag};

fn fresh() -> DbusWriter {
    DbusWriter::new(Vec::new())
}

#[test]
fn padding_to_boundary() {
    for align in [1u64, 2, 4, 8] {
        for k in 0..align {
            let mut w = fresh();
            let n = w.write_padding(k, align);
            assert_eq!(n as u64, (align - k % align) % align);
            assert_eq!(w.into_bytes(), vec![0u8; n as usize]);
        }
    }
}

#[test]
fn u16_u32_u64_padding_and_order() {
    for k in 0..2u64 {
        let mut w = fresh();
        let n = w.write_u16(EndianessFlag::LittleEndian, 0x1234, k);
        let pad = ((2 - k % 2) % 2) as usize;
        assert_eq!(n as usize, pad + 2);
        let mut expected = vec![0u8; pad];
        expected.extend_from_slice(&[0x34, 0x12]);
        assert_eq!(w.into_bytes(), expected);
    }
    for k in 0..4u64 {
        let mut w = fresh();
        let n = w.write_u32(EndianessFlag::BigEndian, 0x0102_0304, k);
        let pad = ((4 - k % 4) % 4) as usize;
        assert_eq!(n as usize, pad + 4);
        let mut expected = vec![0u8; pad];
        expected.extend_from_slice(&[1, 2, 3, 4]);
        assert_eq!(w.into_bytes(), expected);
    }
    for k in 0..8u64 {
        let mut w = fresh();
        let n = w.write_u64(EndianessFlag::LittleEndian, 0x0102_0304_0506_0708, k);
        let pad = ((8 - k % 8) % 8) as usize;
        assert_eq!(n as usize, pad + 8);
        let mut expected = vec![0u8; pad];
        expected.extend_from_slice(&[8, 7, 6, 5, 4, 3, 2, 1]);
        assert_eq!(w.into_bytes(), expected);
    }
}

#[test]
fn u8_takes_no_padding() {
    let mut w = fresh();
    assert_eq!(w.write_u8(0xab), 1);
    assert_eq!(w.into_bytes(), vec![0xab]);
}

#[test]
fn double_is_eight_aligned() {
    let bits = (36.6f64).to_bits();
    let mut w = fresh();
    let n = w.write_u64(EndianessFlag::LittleEndian, bits, 3);
    assert_eq!(n, 13);
    let bytes = w.into_bytes();
    assert_eq!(&bytes[..5], &[0u8; 5]);
    assert_eq!(&bytes[5..], &bits.to_le_bytes());
}

#[test]
fn signed_and_boolean() {
    let mut w = fresh();
    assert_eq!(w.write_i16(EndianessFlag::BigEndian, -2, 0), 2);
    assert_eq!(w.write_boolean(EndianessFlag::LittleEndian, true, 2), 6);
    assert_eq!(w.write_i32(EndianessFlag::LittleEndian, -1, 8), 4);
    assert_eq!(w.write_i64(EndianessFlag::BigEndian, 1, 12), 12);
    assert_eq!(
        w.into_bytes(),
        vec![0xff, 0xfe, 0, 0, 1, 0, 0, 0, 0xff, 0xff, 0xff, 0xff, 0, 0, 0, 0, 0, 0, 0, 0, 0, 0, 0, 1]
    );
}

#[test]
fn string_is_length_bytes_nul() {
    let mut w = fresh();
    let n = w.write_string(EndianessFlag::LittleEndian, "abc", 1);
    assert_eq!(n, 3 + 4 + 3 + 1);
    let bytes = w.into_bytes();
    assert_eq!(bytes, vec![0, 0, 0, 3, 0, 0, 0, b'a', b'b', b'c', 0]);
    let len = u32::from_le_bytes([bytes[3], bytes[4], bytes[5], bytes[6]]) as usize;
    assert_eq!(&bytes[7..7 + len], b"abc");
    assert_eq!(bytes[7 + len], 0);
}

#[test]
fn empty_string() {
    let mut w = fresh();
    assert_eq!(w.write_string(EndianessFlag::BigEndian, "", 0), 5);
    assert_eq!(w.into_bytes(), vec![0, 0, 0, 0, 0]);
}

#[test]
fn object_path_and_signature() {
    let mut w = fresh();
    let n = w.write_object_path(EndianessFlag::BigEndian, &ObjectPath("/a".to_string()), 0);
    assert_eq!(n, 7);
    let m = w.write_signature(&Signature("as".to_string()));
    assert_eq!(m, 4);
    assert_eq!(w.into_bytes(), vec![0, 0, 0, 2, b'/', b'a', 0, 2, b'a', b's', 0]);
}

#[test]
fn array_length_is_data_bytes() {
    let mut w = fresh();
    let a: Vec<u64> = vec![1, 2];
    let n = w.write_array(EndianessFlag::LittleEndian, &a, 0).unwrap();
    assert_eq!(n, 4 + 4 + 16);
    let mut expected = vec![16, 0, 0, 0, 0, 0, 0, 0];
    expected.extend_from_slice(&1u64.to_le_bytes());
    expected.extend_from_slice(&2u64.to_le_bytes());
    assert_eq!(w.into_bytes(), expected);
}

#[test]
fn array_of_strings() {
    let mut w = fresh();
    let a = vec!["x".to_string(), "yz".to_string()];
    let n = w.write_array(EndianessFlag::LittleEndian, &a, 0).unwrap();
    assert_eq!(n, 4 + 6 + 2 + 7);
    assert_eq!(
        w.into_bytes(),
        vec![15, 0, 0, 0, 1, 0, 0, 0, b'x', 0, 0, 0, 2, 0, 0, 0, b'y', b'z', 0]
    );
}

#[test]
fn empty_array_still_pads_to_element() {
    let mut w = fresh();
    let a: Vec<u64> = Vec::new();
    assert_eq!(w.write_array(EndianessFlag::BigEndian, &a, 0).unwrap(), 8);
    assert_eq!(w.into_bytes(), vec![0u8; 8]);
}

#[test]
fn write_invalid_fails() {
    let w = fresh();
    assert_eq!(w.write_invalid(), Err(DbusError::InvalidHeaderField));
}

#[test]
fn writer_appends_to_its_sink() {
    let mut w = DbusWriter::new(vec![9]);
    w.write_u8(1);
    assert_eq!(w.len(), 2);
    assert_eq!(w.into_bytes(), vec![9, 1]);
}

#[test]
fn dict_with_one_entry() {
    let mut map = std::collections::HashMap::new();
    map.insert(1u8, 7u32);
    let mut w = fresh();
    assert_eq!(w.write_dict(EndianessFlag::LittleEndian, &map, 0), Ok(16));
    assert_eq!(w.into_bytes(), vec![8, 0, 0, 0, 0, 0, 0, 0, 1, 0, 0, 0, 7, 0, 0, 0]);
}

#[test]
fn dict_writes_each_key_once() {
    let mut map = std::collections::HashMap::new();
    map.insert(1u8, "a".to_string());
    map.insert(2u8, "b".to_string());
    let mut w = fresh();
    assert_eq!(w.write_dict(EndianessFlag::LittleEndian, &map, 0), Ok(34));
    let bytes = w.into_bytes();
    assert_eq!(&bytes[..8], &[26, 0, 0, 0, 0, 0, 0, 0]);
    let mut keys = vec![bytes[8], bytes[24]];
    keys.sort();
    assert_eq!(keys, vec![1, 2]);
    for at in [8usize, 24] {
        let expected = if bytes[at] == 1 { b'a' } else { b'b' };
        assert_eq!(&bytes[at + 1..at + 10], &[0, 0, 0, 1, 0, 0, 0, expected, 0]);
    }
}

#[test]
fn empty_dict() {
    let map: std::collections::HashMap<u32, u64> = std::collections::HashMap::new();
    let mut w = fresh();
    assert_eq!(w.write_dict(EndianessFlag::BigEndian, &map, 2), Ok(6));
    assert_eq!(w.into_bytes(), vec![0u8; 6]);
}
