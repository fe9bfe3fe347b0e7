use std::collections::{HashMap, HashSet};
use std::time::Duration;

use derse::compact::CompactText;
use derse::unordered::{
    deserialize_hash_map, deserialize_hash_set, serialize_hash_map, serialize_hash_set,
};
use derse::{Deserialize, DownwardBytes, Serialize};

#[test]
fn test_collections() {
    {
        let ser = vec!["hello", "world", "!"];
        let bytes: DownwardBytes = ser.serialize().unwrap();
        let der = Vec::<String>::deserialize(&bytes[..]).unwrap();
        assert_eq!(ser, der);

        assert!(Vec::<u8>::deserialize([128].as_ref()).is_err());
        assert!(Vec::<u8>::deserialize([1].as_ref()).is_err());
        assert!(Vec::<u8>::deserialize([0].as_ref()).unwrap().is_empty());
    }

    {
        let ser = Some("hello".to_string());
        let bytes: DownwardBytes = ser.serialize().unwrap();
        assert_eq!(bytes.len(), 1 + 1 + 5);
        let der = Option::<String>::deserialize(&bytes[..]).unwrap();
        assert_eq!(ser, der);
        let der = Vec::<String>::deserialize(&bytes[..]).unwrap();
        assert_eq!(ser.as_ref(), der.first());

        let ser = None;
        let bytes: DownwardBytes = ser.serialize().unwrap();
        assert_eq!(bytes.len(), 1);
        let der = Option::<String>::deserialize(&bytes[..]).unwrap();
        assert_eq!(ser, der);
        let der = Vec::<String>::deserialize(&bytes[..]).unwrap();
        assert_eq!(ser.as_ref(), der.first());

        assert!(Option::<String>::deserialize([128].as_ref()).is_err());
        assert!(Option::<String>::deserialize([1].as_ref()).is_err());
        assert!(Option::<String>::deserialize([0].as_ref())
            .unwrap()
            .is_none());
    }

    {
        let ser: HashSet<String> = "hello world !".split(' ').map(|s| s.to_owned()).collect();
        let mut bytes = DownwardBytes::new();
        serialize_hash_set(&ser, &mut bytes).unwrap();
        let der = deserialize_hash_set::<String, _>(&mut &bytes[..]).unwrap();
        assert_eq!(ser, der);

        assert!(deserialize_hash_set::<u8, _>(&mut [128].as_ref()).is_err());
        assert!(deserialize_hash_set::<u8, _>(&mut [1].as_ref()).is_err());
        assert!(deserialize_hash_set::<u8, _>(&mut [0].as_ref())
            .unwrap()
            .is_empty());
    }

    {
        let ser: HashMap<String, u32> = (0..10).map(|i| (i.to_string(), i)).collect();
        let mut bytes = DownwardBytes::new();
        serialize_hash_map(&ser, &mut bytes).unwrap();
        let der = deserialize_hash_map::<String, u32, _>(&mut &bytes[..]).unwrap();
        assert_eq!(ser, der);

        let mut der = Vec::<(String, u32)>::deserialize(&bytes[..]).unwrap();
        assert_eq!(der.len(), 10);
        der.sort();
        assert_eq!(der[0].0, "0");
        assert_eq!(der[9].0, "9");
    }
}

#[test]
fn compact_str_test_compact_str() {
    let ser = compact_str::CompactString::const_new("hello");
    let bytes = CompactText::new(ser.as_str())
        .serialize::<DownwardBytes>()
        .unwrap();
    let der = CompactText::deserialize(&bytes[..]).unwrap();
    assert_eq!(ser, der.as_str());
}

#[test]
fn test_duration() {
    let ser = Duration::from_millis(12315);
    let bytes = ser.serialize::<DownwardBytes>().unwrap();
    assert_eq!(bytes.len(), 12);

    let der = Duration::deserialize(&bytes[..]).unwrap();
    assert_eq!(ser, der);
}
