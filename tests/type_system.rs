use std::collections::HashMap;

use dbus_marshal::type_system::{Double, ObjectPath, Serial, Signature, ToTypeCode, UnixFd};

#[test]
fn type_code_basic_types() {
    assert_eq!("h", UnixFd(1).to_type_code());
    assert_eq!("y", 1u8.to_type_code());
    assert_eq!("b", true.to_type_code());
    assert_eq!("n", (-10i16).to_type_code());
    assert_eq!("q", 10u16.to_type_code());
    assert_eq!("i", (-20i32).to_type_code());
    assert_eq!("u", 20u32.to_type_code());
    assert_eq!("x", (-30i64).to_type_code());
    assert_eq!("t", (30u64).to_type_code());
    assert_eq!("d", Double((36.6f64).to_bits()).to_type_code());
    assert_eq!("s", "abc".to_type_code());
    assert_eq!("o", ObjectPath("obj".to_string()).to_type_code());
    assert_eq!("g", Signature("obj".to_string()).to_type_code());
}

#[test]
fn type_code_vec() {
    let vec = vec!["Value1", "Value2"];
    assert_eq!("as", vec.to_type_code());
}

#[test]
fn type_code_hashmap() {
    let mut hmap = HashMap::new();
    hmap.insert(1u8, "Value_1".to_string());
    hmap.insert(2u8, "Value_2".to_string());
    assert_eq!("{ys}", hmap.to_type_code());
}

#[test]
fn type_code_of_empty_containers() {
    let empty: Vec<u32> = Vec::new();
    assert_eq!("au", empty.to_type_code());
    let nested: Vec<Vec<String>> = Vec::new();
    assert_eq!("aas", nested.to_type_code());
    let map: HashMap<String, i64> = HashMap::new();
    assert_eq!("{sx}", map.to_type_code());
    assert_eq!("au", <Vec<u32> as ToTypeCode>::type_code());
}

#[test]
fn array_type_code_does_not_depend_on_length() {
    assert_eq!("ay", vec![1u8].to_type_code());
    assert_eq!("ay", vec![1u8, 2, 3, 4, 5].to_type_code());
}

#[test]
fn serial_from_zero_fails() {
    assert!(Serial::try_from(0).is_err());
}

#[test]
fn serial_round_trips() {
    assert_eq!(Serial::try_from(1).unwrap().0, 1);
    assert_eq!(Serial::try_from(u32::MAX).unwrap().0, u32::MAX);
}
