use std::borrow::Cow;

use derse::{BytesArray, Deserialize, DownwardBytes, Result, Serialize};

#[test]
fn test_primitive_types() {
    for ser in [u64::MIN, u64::MAX] {
        let bytes = ser.serialize::<DownwardBytes>().unwrap();
        assert_eq!(bytes.len(), 8);

        let der = u64::deserialize(&bytes[..]).unwrap();
        assert_eq!(ser, der);
    }

    assert!(bool::deserialize(true.serialize::<DownwardBytes>().unwrap().as_slice()).unwrap());
    assert!(!bool::deserialize(false.serialize::<DownwardBytes>().unwrap().as_slice()).unwrap());
    assert!(!bool::deserialize(&[0][..]).unwrap());
    assert!(bool::deserialize(&[1][..]).unwrap());
    assert!(bool::deserialize(&[2][..]).is_err());
    assert!(bool::deserialize(&[][..]).is_err());
    assert_eq!(
        bool::deserialize(&[][..]).unwrap_err().to_string(),
        "data is short for deserialize: expect 1, actual 0".to_owned()
    );

    {
        let ser = 233isize;
        let bytes: DownwardBytes = ser.serialize().unwrap();
        let der = isize::deserialize(&bytes[..]).unwrap();
        assert_eq!(ser, der);

        isize::deserialize([0xff].as_slice()).unwrap_err();
    }

    {
        let mut ser = '😊';
        let r = &mut ser;
        let bytes: DownwardBytes = r.serialize().unwrap();
        let der = char::deserialize(&bytes[..]).unwrap();
        assert_eq!(ser, der);

        char::deserialize([0xff].as_slice()).unwrap_err();
        char::deserialize([0, 0, 0x11, 0].as_slice()).unwrap_err();
    }

    {
        let ser = ();
        let bytes = ser.serialize::<DownwardBytes>().unwrap();
        assert!(bytes.is_empty());
        <()>::deserialize(&bytes[..]).unwrap();
    }

    {
        assert!(u32::deserialize([0, 1, 2].as_ref()).is_err());
    }
}

#[test]
fn test_string() {
    {
        let ser = "hello world!";
        let bytes: DownwardBytes = ser.serialize().unwrap();
        let der: String = String::deserialize(&bytes[..]).unwrap();
        assert_eq!(ser, &der);

        let der = Cow::<str>::deserialize(&bytes[..]).unwrap();
        assert_eq!(ser, &der);

        let der = Cow::<[u8]>::deserialize(&bytes[..]).unwrap();
        assert_eq!(ser.len(), der.len());
        let bytes: DownwardBytes = der.serialize().unwrap();

        let der = Cow::<String>::deserialize(&bytes[..]).unwrap();
        assert_eq!(ser, der.as_ref());
        let bytes: DownwardBytes = der.serialize().unwrap();

        let der: &str = Deserialize::deserialize(&bytes[..]).unwrap();
        assert_eq!(ser, der);

        let bytes2: DownwardBytes = der.serialize().unwrap();
        assert_eq!(bytes, bytes2);

        assert!(Cow::<str>::deserialize([2, 0xC0, 0xAF].as_slice()).is_err());
        assert!(Cow::<str>::deserialize([128].as_slice()).is_err());

        let result: Result<&str> = Deserialize::deserialize([2, 0xC0, 0xAF].as_slice());
        assert!(result.is_err());
    }

    {
        let ser = "hello world!".to_string();
        let bytes: DownwardBytes = ser.serialize().unwrap();
        let der: String = String::deserialize(&bytes[..]).unwrap();
        assert_eq!(ser, der);

        assert!(String::deserialize(&bytes[..1]).is_err());
        assert!(String::deserialize(&bytes[..5]).is_err());
    }

    {
        let ser = (String::from("hello"), 64u32);
        let bytes: DownwardBytes = ser.serialize().unwrap();
        assert_eq!(bytes.len(), 1 + 5 + 4);
        let der: (String, u32) = Deserialize::deserialize(&bytes[..]).unwrap();
        assert_eq!(ser, der);

        let der: (String, u16, u16) = Deserialize::deserialize(&bytes[..]).unwrap();
        assert_eq!(ser.0, der.0);
        assert_eq!(ser.1, der.1 as _);
        assert_eq!(0, der.2);
    }

    {
        let msg = "0".repeat(47) + "A";
        let a = msg[..25].as_bytes();
        let b = msg[24..].as_bytes();
        let c = [a, b];

        let der = String::deserialize(BytesArray::new(&c)).unwrap();
        assert_eq!(msg, der);

        let der = Cow::<str>::deserialize(BytesArray::new(&c)).unwrap();
        assert_eq!(msg, der);

        let result: Result<&str> = Deserialize::deserialize(BytesArray::new(&c));
        assert!(result.is_err());

        assert!(String::deserialize(BytesArray::new(&c[1..])).is_err());

        let a = [0x2, 0xC0];
        let b = [0xAF];
        assert!(<&[u8]>::deserialize(BytesArray::new(&[&a[..], &b[..]])).is_err());
        assert!(Cow::<str>::deserialize(BytesArray::new(&[&a[..], &b[..]])).is_err());
    }
}

#[test]
fn test_serialization() {
    for ser in [u64::MIN, u64::MAX] {
        let bytes = ser.serialize::<DownwardBytes>().unwrap();
        assert_eq!(bytes.len(), 8);

        let der = u64::deserialize(&bytes[..]).unwrap();
        assert_eq!(ser, der);
    }

    assert!(bool::deserialize(true.serialize::<DownwardBytes>().unwrap().as_slice()).unwrap());
    assert!(!bool::deserialize(false.serialize::<DownwardBytes>().unwrap().as_slice()).unwrap());
    assert!(!bool::deserialize(&[0][..]).unwrap());
    assert!(bool::deserialize(&[1][..]).unwrap());
    assert!(bool::deserialize(&[2][..]).is_err());
    assert!(bool::deserialize(&[][..]).is_err());
    assert_eq!(
        bool::deserialize(&[][..]).unwrap_err().to_string(),
        "data is short for deserialize: expect 1, actual 0".to_owned()
    );

    {
        let ser = 233isize;
        let bytes: DownwardBytes = ser.serialize().unwrap();
        let der = isize::deserialize(&bytes[..]).unwrap();
        assert_eq!(ser, der);

        isize::deserialize([0xff].as_slice()).unwrap_err();
    }

    {
        let ser = '😊';
        let bytes: DownwardBytes = ser.serialize().unwrap();
        let der = char::deserialize(&bytes[..]).unwrap();
        assert_eq!(ser, der);

        char::deserialize([0xff].as_slice()).unwrap_err();
        char::deserialize([0, 0, 0x11, 0].as_slice()).unwrap_err();
    }

    {
        let ser = "hello world!";
        let bytes: DownwardBytes = ser.serialize().unwrap();
        let der: String = String::deserialize(&bytes[..]).unwrap();
        assert_eq!(ser, &der);

        let der = Cow::<str>::deserialize(&bytes[..]).unwrap();
        assert_eq!(ser, &der);

        let der = Cow::<[u8]>::deserialize(&bytes[..]).unwrap();
        assert_eq!(ser.len(), der.len());
        let bytes: DownwardBytes = der.serialize().unwrap();

        let der = Cow::<String>::deserialize(&bytes[..]).unwrap();
        assert_eq!(ser, der.as_ref());
        let bytes: DownwardBytes = der.serialize().unwrap();

        let der: &str = Deserialize::deserialize(&bytes[..]).unwrap();
        assert_eq!(ser, der);

        let bytes2: DownwardBytes = der.serialize().unwrap();
        assert_eq!(bytes, bytes2);

        assert!(Cow::<str>::deserialize([2, 0xC0, 0xAF].as_slice()).is_err());
        assert!(Cow::<str>::deserialize([128].as_slice()).is_err());

        let result: Result<&str> = Deserialize::deserialize([2, 0xC0, 0xAF].as_slice());
        assert!(result.is_err());
    }

    {
        let ser = "hello world!".to_string();
        let bytes: DownwardBytes = ser.serialize().unwrap();
        let der: String = String::deserialize(&bytes[..]).unwrap();
        assert_eq!(ser, der);

        assert!(String::deserialize(&bytes[..1]).is_err());
        assert!(String::deserialize(&bytes[..5]).is_err());
    }

    {
        assert!(u32::deserialize([0, 1, 2].as_ref()).is_err());
    }

    {
        let ser = (String::from("hello"), 64u32);
        let bytes: DownwardBytes = ser.serialize().unwrap();
        assert_eq!(bytes.len(), 1 + 5 + 4);
        let der: (String, u32) = Deserialize::deserialize(&bytes[..]).unwrap();
        assert_eq!(ser, der);

        let der: (String, u16, u16) = Deserialize::deserialize(&bytes[..]).unwrap();
        assert_eq!(ser.0, der.0);
        assert_eq!(ser.1, der.1 as _);
        assert_eq!(0, der.2);
    }

    {
        let msg = "0".repeat(47) + "A";
        let a = msg[..25].as_bytes();
        let b = msg[24..].as_bytes();
        let c = [a, b];

        let der = String::deserialize(BytesArray::new(&c)).unwrap();
        assert_eq!(msg, der);

        let der = Cow::<str>::deserialize(BytesArray::new(&c)).unwrap();
        assert_eq!(msg, der);

        let result: Result<&str> = Deserialize::deserialize(BytesArray::new(&c));
        assert!(result.is_err());

        assert!(String::deserialize(BytesArray::new(&c[1..])).is_err());

        let a = [0x2, 0xC0];
        let b = [0xAF];
        assert!(Cow::<str>::deserialize(BytesArray::new(&[&a[..], &b[..]])).is_err());
    }

    {
        let ser = ();
        let bytes = ser.serialize::<DownwardBytes>().unwrap();
        assert!(bytes.is_empty());
        <()>::deserialize(&bytes[..]).unwrap();
    }

    {
        let ser = 233u32;
        let bytes = ser.serialize::<DownwardBytes>().unwrap();
        let array = <[u8; 4]>::deserialize(&bytes[..]).unwrap();
        let der = u32::from_le_bytes(array);
        assert_eq!(ser, der);
    }
}

#[test]
fn test_array() {
    {
        let ser: [i32; 3] = [1, 2, 3];
        let bytes: DownwardBytes = ser.serialize().unwrap();
        let der = <[i32; 3]>::deserialize(&bytes[..]).unwrap();
        assert_eq!(ser, der);

        <[bool; 3]>::deserialize([].as_slice()).unwrap_err();
        <[bool; 3]>::deserialize([1].as_slice()).unwrap_err();
        <[bool; 3]>::deserialize([2].as_slice()).unwrap_err();
        <[bool; 3]>::deserialize([1, 1].as_slice()).unwrap_err();
        <[bool; 3]>::deserialize([1, 2].as_slice()).unwrap_err();
        <[bool; 3]>::deserialize([1, 1, 1].as_slice()).unwrap();
        <[bool; 3]>::deserialize([1, 1, 2].as_slice()).unwrap_err();
    }

    {
        let ser = 233u32;
        let bytes = ser.serialize::<DownwardBytes>().unwrap();
        let array = <[u8; 4]>::deserialize(&bytes[..]).unwrap();
        let der = u32::from_le_bytes(array);
        assert_eq!(ser, der);
    }
}
