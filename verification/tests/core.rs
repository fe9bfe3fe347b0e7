use derse::{
    BytesArray, Deserialize, Deserializer, DownwardBytes, Error, Serialize, Serializer, VarInt64,
};

#[test]
fn test_deserializer() {
    let data = [0u8, 1, 2, 3];
    let mut slice = &data[..];

    slice.advance(2).unwrap();
    assert!(slice.advance(3).is_err());
    slice.advance(2).unwrap();
    assert!(slice.is_empty());
}

#[test]
fn test_bytes_array() {
    let mut data = vec![];
    data.extend(0u8..=255);
    for _ in 0..8 {
        data.extend_from_within(..);
    }

    let mut slice = &data[..];
    let mut vec = vec![];
    while slice.len() >= 100 {
        let (front, back) = slice.split_at(100);
        vec.push(front);
        slice = back;
    }
    vec.push(slice);

    let mut arr = BytesArray::new(&vec);
    assert_eq!(arr.len(), data.len());

    let mut acc = 0;
    for i in 1..100 {
        let pop = arr.pop(i).unwrap();
        assert_eq!(pop, &data[acc..acc + i]);
        acc += i;
    }
    let pop = arr.pop(arr.len()).unwrap();
    assert_eq!(pop, &data[acc..]);

    assert!(arr.is_empty());

    let mut arr = BytesArray::new(&vec);
    assert_eq!(arr.len(), data.len());
    let mut acc = 0;
    for i in 1..100 {
        let mut front = arr.advance(i).unwrap();
        let pop = front.pop(front.len()).unwrap();
        assert_eq!(pop, &data[acc..acc + i]);
        acc += i;
    }
    let pop = arr.pop(arr.len()).unwrap();
    assert_eq!(pop, &data[acc..]);

    assert!(arr.advance(1).is_err());
}

#[test]
fn test_downward_bytes_create() {
    assert_eq!(DownwardBytes::new().capacity(), 0);

    let mut bytes = DownwardBytes::with_capacity(8);
    assert!(bytes.is_empty());
    assert_eq!(bytes.capacity(), 8);

    bytes.prepend("world!".as_bytes());
    assert_eq!(bytes.len(), 6);
    assert_eq!(bytes.as_slice(), b"world!");

    bytes.prepend("hello ".as_bytes());
    assert_eq!(bytes.len(), 12);
    assert_eq!(bytes.as_slice(), b"hello world!");
}

#[test]
fn test_downward_bytes_prepend() {
    let mut bytes = DownwardBytes::new();
    assert!(bytes.is_empty());
    assert_eq!(bytes.len(), 0);
    assert_eq!(bytes.capacity(), 0);
    assert_eq!(bytes.debug_string(), "DownwardBytes([])");

    const N: usize = 100000;
    for i in 0..N {
        bytes.prepend(&[i as u8]);
    }

    bytes
        .as_slice()
        .iter()
        .rev()
        .enumerate()
        .for_each(|(idx, &value)| {
            assert_eq!(idx as u8, value);
        });

    assert_eq!(bytes.len(), N);
    assert_eq!(bytes.capacity(), N.next_power_of_two());

    assert!(!Serializer::is_empty(&bytes));

    bytes.clear();
    assert!(bytes.is_empty());
    assert_eq!(bytes.capacity(), N.next_power_of_two());

    bytes.clear_and_shrink_to(N.next_power_of_two());
    assert!(bytes.is_empty());
    assert_eq!(bytes.capacity(), N.next_power_of_two());

    bytes.clear_and_shrink_to(N);
    assert!(bytes.is_empty());
    assert_eq!(bytes.capacity(), N);

    bytes.clear_and_shrink_to(N.next_power_of_two());
    assert!(bytes.is_empty());
    assert_eq!(bytes.capacity(), N);
}

#[test]
fn test_error() {
    println!("{:?}", Error::InvalidBool(233));

    let ser = Error::DataIsShort {
        expect: 1,
        actual: 0,
    };
    let bytes = ser.serialize::<DownwardBytes>().unwrap();
    assert_eq!(bytes.len(), 1 + 1 + 11 + 8 + 8);

    let der = Error::deserialize(&bytes[..]).unwrap();
    assert_eq!(ser, der);

    let _ = Error::default().serialize::<DownwardBytes>().unwrap();
}

#[test]
fn test_result() {
    let ser = derse::Result::Ok(233i32);
    let bytes = ser.serialize::<DownwardBytes>().unwrap();
    assert_eq!(bytes.len(), 1 + 4);
    let der = derse::Result::deserialize(&bytes[..]).unwrap();
    assert_eq!(ser, der);

    let ser = derse::Result::<()>::Err(Error::VarintIsShort);
    let bytes = ser.serialize::<DownwardBytes>().unwrap();
    assert_eq!(bytes.len(), 1 + 1 + 1 + 13);
    let der = derse::Result::deserialize(&bytes[..]).unwrap();
    assert_eq!(ser, der);
}

#[test]
fn test_varint64() {
    for v in [u64::MIN, 1, 10, 127, 128, 255, 256, u64::MAX] {
        let ser = VarInt64(v);
        let bytes = ser.serialize::<DownwardBytes>().unwrap();
        let der = VarInt64::deserialize(&bytes[..]).unwrap();
        assert_eq!(ser, der);
    }

    assert!(VarInt64::deserialize(&[][..]).is_err());
    assert!(VarInt64::deserialize(&[128u8; 11][..]).is_err());
}

#[test]
fn test_phantom_data() {
    let ser = std::marker::PhantomData::<()>;
    let bytes = ser.serialize::<DownwardBytes>().unwrap();
    assert!(bytes.is_empty());
    let _ = std::marker::PhantomData::<()>::deserialize(&bytes[..]).unwrap();
}
