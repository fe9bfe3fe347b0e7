use std::borrow::Cow;
use std::collections::{BTreeMap, BTreeSet, HashMap, HashSet, VecDeque};
use std::time::Duration;

use derse::compact::CompactText;
use derse::ordered::{
    deserialize_btree_map, deserialize_btree_set, serialize_btree_map, serialize_btree_set,
};
use derse::record::{deserialize_field, deserialize_record, select_variant, serialize_len};
use derse::unordered::{
    deserialize_hash_map, deserialize_hash_set, serialize_hash_map, serialize_hash_set,
};
use derse::{
    BytesArray, Deserialize, Deserializer, DetailedDeserialize, DownwardBytes, Error, Result,
    Serialize, Serializer, VarInt64,
};

fn encode<T: Serialize + ?Sized>(value: &T) -> Vec<u8> {
    let bytes: DownwardBytes = value.serialize().unwrap();
    bytes.as_slice().to_vec()
}

#[test]
fn round_trip_of_integers() {
    for v in [u8::MIN, 1, 127, 128, u8::MAX] {
        assert_eq!(encode(&v), v.to_le_bytes());
        assert_eq!(u8::deserialize(&encode(&v)[..]).unwrap(), v);
    }
    for v in [i8::MIN, -1, 0, 1, i8::MAX] {
        assert_eq!(encode(&v), v.to_le_bytes());
        assert_eq!(i8::deserialize(&encode(&v)[..]).unwrap(), v);
    }
    for v in [u16::MIN, 255, 256, 0x1234, u16::MAX] {
        assert_eq!(encode(&v), v.to_le_bytes());
        assert_eq!(u16::deserialize(&encode(&v)[..]).unwrap(), v);
    }
    for v in [i16::MIN, -256, -1, 0, 0x1234, i16::MAX] {
        assert_eq!(encode(&v), v.to_le_bytes());
        assert_eq!(i16::deserialize(&encode(&v)[..]).unwrap(), v);
    }
    for v in [u32::MIN, 0x1234_5678, u32::MAX] {
        assert_eq!(encode(&v), v.to_le_bytes());
        assert_eq!(u32::deserialize(&encode(&v)[..]).unwrap(), v);
    }
    for v in [i32::MIN, -0x1234_5678, -1, 0, i32::MAX] {
        assert_eq!(encode(&v), v.to_le_bytes());
        assert_eq!(i32::deserialize(&encode(&v)[..]).unwrap(), v);
    }
    for v in [u64::MIN, 0x0123_4567_89ab_cdef, u64::MAX] {
        assert_eq!(encode(&v), v.to_le_bytes());
        assert_eq!(u64::deserialize(&encode(&v)[..]).unwrap(), v);
    }
    for v in [i64::MIN, -0x0123_4567_89ab_cdef, -1, 0, i64::MAX] {
        assert_eq!(encode(&v), v.to_le_bytes());
        assert_eq!(i64::deserialize(&encode(&v)[..]).unwrap(), v);
    }
    for v in [u128::MIN, 0x0123_4567_89ab_cdef_0011_2233_4455_6677, u128::MAX] {
        assert_eq!(encode(&v), v.to_le_bytes());
        assert_eq!(u128::deserialize(&encode(&v)[..]).unwrap(), v);
    }
    for v in [i128::MIN, -0x0123_4567_89ab_cdef_0011_2233_4455_6677, -1, 0, i128::MAX] {
        assert_eq!(encode(&v), v.to_le_bytes());
        assert_eq!(i128::deserialize(&encode(&v)[..]).unwrap(), v);
    }
    for v in [usize::MIN, 233, usize::MAX] {
        assert_eq!(encode(&v), (v as u64).to_le_bytes());
        assert_eq!(usize::deserialize(&encode(&v)[..]).unwrap(), v);
    }
    for v in [isize::MIN, -233, 0, isize::MAX] {
        assert_eq!(encode(&v), (v as i64).to_le_bytes());
        assert_eq!(isize::deserialize(&encode(&v)[..]).unwrap(), v);
    }
}

#[test]
fn round_trip_of_other_primitives() {
    assert_eq!(encode(&true), [1]);
    assert_eq!(encode(&false), [0]);
    assert!(bool::deserialize(&[1u8][..]).unwrap());
    assert!(!bool::deserialize(&[0u8][..]).unwrap());

    for c in ['\0', 'A', 'é', '\u{d7ff}', '\u{e000}', '😊', char::MAX] {
        assert_eq!(encode(&c), (c as u32).to_le_bytes());
        assert_eq!(char::deserialize(&encode(&c)[..]).unwrap(), c);
    }

    assert_eq!(encode(&()), [0u8; 0]);
    assert_eq!(encode("héllo"), [6, b'h', 0xc3, 0xa9, b'l', b'l', b'o']);
    assert_eq!(String::deserialize(&encode("héllo")[..]).unwrap(), "héllo");
    assert_eq!(<&str>::deserialize(&encode("héllo")[..]).unwrap(), "héllo");
    assert_eq!(encode(&[7u8, 8, 9][..]), [3, 7, 8, 9]);
    assert_eq!(<&[u8]>::deserialize(&[3u8, 7, 8, 9][..]).unwrap(), [7, 8, 9]);

    assert_eq!(encode(&Some(5u16)), [1, 5, 0]);
    assert_eq!(encode(&None::<u16>), [0]);
    assert_eq!(Option::<u16>::deserialize(&[1u8, 5, 0][..]).unwrap(), Some(5));
    assert_eq!(encode(&Ok::<u8, u16>(3)), [1, 3]);
    assert_eq!(encode(&Err::<u8, u16>(3)), [0, 3, 0]);
    let der: std::result::Result<u8, u16> = Deserialize::deserialize(&[0u8, 3, 0][..]).unwrap();
    assert_eq!(der, Err(3));
}

#[test]
fn varint_boundary() {
    assert_eq!(encode(&VarInt64(0)), [0x00]);
    assert_eq!(encode(&VarInt64(127)), [0x7f]);
    assert_eq!(encode(&VarInt64(128)), [0x81, 0x00]);
    assert_eq!(encode(&VarInt64(300)), [0x82, 0x2c]);
    assert_eq!(encode(&VarInt64(16383)), [0xff, 0x7f]);
    assert_eq!(encode(&VarInt64(16384)), [0x81, 0x80, 0x00]);
    assert_eq!(
        encode(&VarInt64(u64::MAX)),
        [0x81, 0xff, 0xff, 0xff, 0xff, 0xff, 0xff, 0xff, 0xff, 0x7f]
    );

    assert_eq!(VarInt64::deserialize(&[0x81u8, 0x00][..]).unwrap(), VarInt64(128));
    assert_eq!(VarInt64::deserialize(&[0x80u8, 0x01][..]).unwrap(), VarInt64(1));
    assert_eq!(
        VarInt64::deserialize(&[0xffu8, 0xff, 0xff, 0xff, 0xff, 0xff, 0xff, 0xff, 0xff, 0x7f][..])
            .unwrap(),
        VarInt64(u64::MAX)
    );

    assert_eq!(
        VarInt64::deserialize(&[0x80u8; 11][..]).unwrap_err(),
        Error::VarintIsShort
    );
    assert_eq!(
        VarInt64::deserialize(&[0x80u8; 10][..]).unwrap_err(),
        Error::VarintIsShort
    );
    assert_eq!(
        VarInt64::deserialize(&[0x80u8; 9][..]).unwrap_err(),
        Error::DataIsShort {
            expect: 1,
            actual: 0
        }
    );
    assert_eq!(
        VarInt64::deserialize(&[][..]).unwrap_err(),
        Error::DataIsShort {
            expect: 1,
            actual: 0
        }
    );

    let mut cursor = &[0x05u8, 0x06][..];
    assert_eq!(VarInt64::deserialize_from(&mut cursor).unwrap(), VarInt64(5));
    assert_eq!(cursor, [0x06]);
}

#[test]
fn length_accounting() {
    fn check<T: Serialize + ?Sized>(value: &T) {
        let bytes: DownwardBytes = value.serialize().unwrap();
        let count: usize = value.serialize().unwrap();
        assert_eq!(bytes.len(), count);
    }
    check(&0u8);
    check(&u128::MAX);
    check(&-5i64);
    check(&true);
    check(&'x');
    check("some text");
    check(&String::new());
    check(&vec![1u32, 2, 3]);
    check(&Some(vec!["a".to_string(), "bc".to_string()]));
    check(&(1u8, "two", 3u64));
    check(&VarInt64(u64::MAX));
    check(&Error::InvalidLength(3, "cause".to_string()));
    check(&[0u16; 9]);

    let mut count = 7usize;
    "abc".serialize_to(&mut count).unwrap();
    assert_eq!(count, 7 + 4);
    assert!(!Serializer::is_empty(&count));
    assert!(Serializer::is_empty(&0usize));
}

#[derive(Debug, PartialEq)]
struct Three(u32, String, Vec<u16>);

impl Serialize for Three {
    fn serialize_to<S: Serializer>(&self, serializer: &mut S) -> Result<()> {
        let start = serializer.len();
        self.2.serialize_to(serializer)?;
        self.1.serialize_to(serializer)?;
        self.0.serialize_to(serializer)?;
        serialize_len(serializer, start)
    }
}

impl<'a> DetailedDeserialize<'a> for Three {
    fn deserialize_fields<D: Deserializer<'a>>(buf: &mut D) -> Result<Self> {
        Ok(Self(
            deserialize_field(buf)?,
            deserialize_field(buf)?,
            deserialize_field(buf)?,
        ))
    }
}

impl<'a> Deserialize<'a> for Three {
    fn deserialize_from<D: Deserializer<'a>>(buf: &mut D) -> Result<Self> {
        deserialize_record(buf)
    }
}

#[derive(Debug, PartialEq)]
struct Two(u32, String);

impl Serialize for Two {
    fn serialize_to<S: Serializer>(&self, serializer: &mut S) -> Result<()> {
        let start = serializer.len();
        self.1.serialize_to(serializer)?;
        self.0.serialize_to(serializer)?;
        serialize_len(serializer, start)
    }
}

impl<'a> DetailedDeserialize<'a> for Two {
    fn deserialize_fields<D: Deserializer<'a>>(buf: &mut D) -> Result<Self> {
        Ok(Self(deserialize_field(buf)?, deserialize_field(buf)?))
    }
}

impl<'a> Deserialize<'a> for Two {
    fn deserialize_from<D: Deserializer<'a>>(buf: &mut D) -> Result<Self> {
        deserialize_record(buf)
    }
}

#[test]
fn record_wire_form() {
    let ser = Two(0x0403_0201, "ab".to_string());
    assert_eq!(encode(&ser), [7, 1, 2, 3, 4, 2, b'a', b'b']);
    assert_eq!(Two::deserialize(&encode(&ser)[..]).unwrap(), ser);

    let long = Two(1, "x".repeat(200));
    let bytes = encode(&long);
    assert_eq!(bytes.len(), 2 + 4 + 2 + 200);
    assert_eq!(&bytes[..2], [0x81, 0x4e]);
    assert_eq!(Two::deserialize(&bytes[..]).unwrap(), long);
}

#[test]
fn forward_compatibility() {
    let ser = Three(9, "nine".to_string(), vec![1, 2, 3]);
    let bytes = encode(&ser);

    // The reader that knows two fields passes over the third.
    let mut cursor = &bytes[..];
    let der = Two::deserialize_from(&mut cursor).unwrap();
    assert_eq!(der, Two(9, "nine".to_string()));
    assert!(cursor.is_empty());

    // Read in two steps, it is left with exactly the bytes of the third.
    let mut cursor = &bytes[..];
    let len = Two::deserialize_len(&mut cursor).unwrap();
    assert_eq!(len, bytes.len() - 1);
    let mut fields = cursor.advance(len).unwrap();
    let der = Two::deserialize_fields(&mut fields).unwrap();
    assert_eq!(der, Two(9, "nine".to_string()));
    assert_eq!(fields, &encode(&ser.2)[..]);
    assert_eq!(Vec::<u16>::deserialize(fields).unwrap(), ser.2);
}

#[test]
fn backward_compatibility() {
    let ser = Two(9, "nine".to_string());
    let der = Three::deserialize(&encode(&ser)[..]).unwrap();
    assert_eq!(der, Three(9, "nine".to_string(), Vec::new()));

    // A record without any field gives every field its default.
    let der = Three::deserialize(&[0u8][..]).unwrap();
    assert_eq!(der, Three(0, String::new(), Vec::new()));

    // A field that is cut short is a failure, not a default.
    let err = Three::deserialize(&[2u8, 1, 2][..]).unwrap_err();
    assert_eq!(
        err,
        Error::DataIsShort {
            expect: 4,
            actual: 2
        }
    );

    // The record ends where its length says, whatever follows.
    let mut bytes = encode(&ser);
    bytes.extend_from_slice(&[0xff; 4]);
    let mut cursor = &bytes[..];
    let der = Three::deserialize_from(&mut cursor).unwrap();
    assert_eq!(der, Three(9, "nine".to_string(), Vec::new()));
    assert_eq!(cursor, [0xff; 4]);

    let err = Three::deserialize(&bytes[..5]).unwrap_err();
    assert_eq!(
        err,
        Error::DataIsShort {
            expect: 9,
            actual: 4
        }
    );
}

fn in_pieces<'a>(bytes: &'a [u8], cuts: &[usize]) -> Vec<&'a [u8]> {
    let mut pieces = Vec::new();
    let mut start = 0;
    for &cut in cuts {
        pieces.push(&bytes[start..cut]);
        start = cut;
    }
    pieces.push(&bytes[start..]);
    pieces
}

#[test]
fn segmented_equivalence() {
    let value = (
        "hello world".to_string(),
        vec![1u32, 2, 3],
        Some(-7i64),
        Three(5, "five".to_string(), vec![5; 5]),
    );
    let bytes = encode(&value);
    type Value = (String, Vec<u32>, Option<i64>, Three);
    let whole = Value::deserialize(&bytes[..]).unwrap();
    assert_eq!(whole, value);

    for first in 1..bytes.len() {
        let pieces = in_pieces(&bytes, &[first]);
        assert_eq!(Value::deserialize(BytesArray::new(&pieces)).unwrap(), whole);
        for second in first + 1..bytes.len() {
            let pieces = in_pieces(&bytes, &[first, second]);
            assert_eq!(Value::deserialize(BytesArray::new(&pieces)).unwrap(), whole);
        }
    }
    let single: Vec<&[u8]> = bytes.chunks(1).collect();
    assert_eq!(Value::deserialize(BytesArray::new(&single)).unwrap(), whole);

    // Failures are the same too.
    let short = &bytes[..bytes.len() - 1];
    let expected = Value::deserialize(short).unwrap_err();
    for first in 1..short.len() {
        let pieces = in_pieces(short, &[first]);
        assert_eq!(
            Value::deserialize(BytesArray::new(&pieces)).unwrap_err(),
            expected
        );
    }
}

#[test]
fn lending_across_pieces() {
    let bytes = encode("hello");
    for cut in 1..bytes.len() {
        let pieces = in_pieces(&bytes, &[cut]);

        let text = Cow::<str>::deserialize(BytesArray::new(&pieces)).unwrap();
        assert_eq!(text, "hello");
        assert_eq!(matches!(text, Cow::Borrowed(_)), cut == 1);

        let span = Cow::<[u8]>::deserialize(BytesArray::new(&pieces)).unwrap();
        assert_eq!(span, &b"hello"[..]);
        assert_eq!(matches!(span, Cow::Borrowed(_)), cut == 1);

        let lent: Result<&str> = Deserialize::deserialize(BytesArray::new(&pieces));
        if cut == 1 {
            assert_eq!(lent.unwrap(), "hello");
        } else {
            assert_eq!(lent.unwrap_err(), Error::InvalidString(Vec::new()));
        }

        let lent: Result<&[u8]> = Deserialize::deserialize(BytesArray::new(&pieces));
        if cut == 1 {
            assert_eq!(lent.unwrap(), b"hello");
        } else {
            assert_eq!(lent.unwrap_err(), Error::InvalidString(Vec::new()));
        }
    }
}

#[test]
fn cursor_over_pieces() {
    let data: Vec<u8> = (0..20).collect();
    let empty: &[u8] = &[];
    let pieces = [empty, &data[..5], empty, empty, &data[5..12], &data[12..], empty];
    let mut arr = BytesArray::new(&pieces);
    assert_eq!(arr.len(), 20);
    assert!(!arr.is_empty());

    // Within a piece bytes are lent, across pieces they are copied.
    assert!(matches!(arr.pop(0).unwrap(), Cow::Borrowed(s) if s.is_empty()));
    assert!(matches!(arr.pop(3).unwrap(), Cow::Borrowed(s) if s == &data[..3]));
    assert!(matches!(arr.pop(2).unwrap(), Cow::Borrowed(s) if s == &data[3..5]));
    assert!(matches!(arr.pop(7).unwrap(), Cow::Borrowed(s) if s == &data[5..12]));
    assert_eq!(arr.len(), 8);
    assert!(matches!(arr.pop(9), Err(Error::DataIsShort { expect: 9, actual: 8 })));
    assert_eq!(arr.len(), 8);
    assert!(matches!(arr.pop(8).unwrap(), Cow::Borrowed(s) if s == &data[12..]));
    assert!(arr.is_empty());
    assert!(matches!(arr.pop(0).unwrap(), Cow::Borrowed(s) if s.is_empty()));
    assert!(matches!(arr.pop(1), Err(Error::DataIsShort { expect: 1, actual: 0 })));
    assert_eq!(arr.advance(0).unwrap().len(), 0);
    assert!(matches!(arr.advance(1), Err(Error::DataIsShort { expect: 1, actual: 0 })));

    let mut arr = BytesArray::new(&pieces);
    assert!(matches!(arr.pop(6).unwrap(), Cow::Owned(v) if v == data[..6]));
    assert!(matches!(arr.pop(14).unwrap(), Cow::Owned(v) if v == data[6..]));
    assert!(arr.is_empty());

    // A part that is split off is bounded, and the rest goes on behind it.
    let mut arr = BytesArray::new(&pieces);
    let mut front = arr.advance(8).unwrap();
    assert_eq!(front.len(), 8);
    assert_eq!(arr.len(), 12);
    assert!(matches!(front.advance(9), Err(Error::DataIsShort { expect: 9, actual: 8 })));
    assert!(matches!(front.pop(5).unwrap(), Cow::Borrowed(s) if s == &data[..5]));
    assert!(matches!(front.pop(4), Err(Error::DataIsShort { expect: 4, actual: 3 })));
    assert!(matches!(front.pop(3).unwrap(), Cow::Borrowed(s) if s == &data[5..8]));
    assert!(front.is_empty());
    assert!(matches!(arr.pop(12).unwrap(), Cow::Owned(v) if v == data[8..]));

    let none: [&[u8]; 0] = [];
    let mut arr = BytesArray::new(&none);
    assert!(arr.is_empty());
    assert!(arr.pop(0).unwrap().is_empty());
    assert!(arr.advance(0).unwrap().is_empty());
}

#[test]
fn cursor_over_one_slice() {
    let data = [1u8, 2, 3, 4, 5];
    let mut cursor = &data[..];
    let front = cursor.advance(2).unwrap();
    assert_eq!(front, [1, 2]);
    assert_eq!(cursor, [3, 4, 5]);
    assert!(matches!(cursor.pop(2).unwrap(), Cow::Borrowed(s) if s == [3, 4]));
    assert!(matches!(cursor.pop(2), Err(Error::DataIsShort { expect: 2, actual: 1 })));
    assert!(matches!(cursor.advance(2), Err(Error::DataIsShort { expect: 2, actual: 1 })));
    assert_eq!(cursor, [5]);
    assert!(cursor.pop(0).unwrap().is_empty());
    assert!(!Deserializer::is_empty(&cursor));
    cursor.pop(1).unwrap();
    assert!(Deserializer::is_empty(&cursor));
}

#[test]
fn buffer_growth() {
    let mut bytes = DownwardBytes::with_capacity(3);
    bytes.prepend(&[1, 2]);
    assert_eq!((bytes.len(), bytes.capacity()), (2, 3));
    bytes.prepend(&[3]);
    assert_eq!((bytes.len(), bytes.capacity()), (3, 3));
    bytes.prepend(&[4]);
    assert_eq!((bytes.len(), bytes.capacity()), (4, 6));
    assert_eq!(bytes.as_slice(), [4, 3, 1, 2]);
    bytes.prepend(&[0; 10]);
    assert_eq!((bytes.len(), bytes.capacity()), (14, 14));
    assert_eq!(&bytes[10..], [4, 3, 1, 2]);
    bytes.prepend(&[]);
    assert_eq!((bytes.len(), bytes.capacity()), (14, 14));

    bytes.reserve(14);
    assert_eq!(bytes.capacity(), 14);
    bytes.reserve(15);
    assert_eq!(bytes.capacity(), 28);
    bytes.reserve(100);
    assert_eq!(bytes.capacity(), 100);
    assert_eq!(&bytes[10..], [4, 3, 1, 2]);
    assert_eq!(bytes.len(), 14);

    bytes.clear();
    assert_eq!((bytes.len(), bytes.capacity()), (0, 100));
    bytes.prepend(&[9]);
    bytes.clear_and_shrink_to(100);
    assert_eq!((bytes.len(), bytes.capacity()), (0, 100));
    bytes.clear_and_shrink_to(200);
    assert_eq!((bytes.len(), bytes.capacity()), (0, 100));
    bytes.clear_and_shrink_to(10);
    assert_eq!((bytes.len(), bytes.capacity()), (0, 10));

    let mut a = DownwardBytes::with_capacity(1);
    let mut b = DownwardBytes::new();
    a.prepend(&[1, 2, 3]);
    b.prepend(&[3]);
    assert_ne!(a, b);
    b.prepend(&[1, 2]);
    assert_eq!(a, b);
    assert_eq!(a.debug_string(), "DownwardBytes([1, 2, 3])");
    assert_eq!(DownwardBytes::default().capacity(), 0);
}

#[test]
fn unordered_membership() {
    let mut forward = HashSet::new();
    let mut backward = HashSet::new();
    for i in 0..100u64 {
        forward.insert(i * i);
        backward.insert((99 - i) * (99 - i));
    }
    let mut first = DownwardBytes::new();
    serialize_hash_set(&forward, &mut first).unwrap();
    let mut second = DownwardBytes::new();
    serialize_hash_set(&backward, &mut second).unwrap();
    assert_eq!(first.len(), 1 + 100 * 8);
    assert_eq!(second.len(), 1 + 100 * 8);

    let a = deserialize_hash_set::<u64, _>(&mut &first[..]).unwrap();
    let b = deserialize_hash_set::<u64, _>(&mut &second[..]).unwrap();
    assert_eq!(a, forward);
    assert_eq!(b, forward);

    // Any order of the members gives the set.
    let listed: Vec<u64> = vec![3, 1, 2, 1];
    let set = deserialize_hash_set::<u64, _>(&mut &encode(&listed)[..]).unwrap();
    assert_eq!(set, HashSet::from([1, 2, 3]));

    let pairs = vec![(1u8, "one".to_string()), (2, "two".to_string()), (1, "uno".to_string())];
    let map = deserialize_hash_map::<u8, String, _>(&mut &encode(&pairs)[..]).unwrap();
    assert_eq!(
        map,
        HashMap::from([(1, "uno".to_string()), (2, "two".to_string())])
    );
    let mut bytes = DownwardBytes::new();
    serialize_hash_map(&map, &mut bytes).unwrap();
    assert_eq!(bytes.len(), 1 + (1 + 4) * 2);
    assert_eq!(
        deserialize_hash_map::<u8, String, _>(&mut &bytes[..]).unwrap(),
        map
    );
}

#[test]
fn ordered_sets_and_maps() {
    let set = BTreeSet::from([30u16, 10, 20]);
    let mut bytes = DownwardBytes::new();
    serialize_btree_set(&set, &mut bytes).unwrap();
    assert_eq!(bytes.as_slice(), [3, 10, 0, 20, 0, 30, 0]);
    assert_eq!(deserialize_btree_set::<u16, _>(&mut &bytes[..]).unwrap(), set);
    assert_eq!(
        deserialize_btree_set::<u16, _>(&mut &[3u8, 30, 0, 10, 0, 30, 0][..]).unwrap(),
        BTreeSet::from([10, 30])
    );

    let map = BTreeMap::from([(2u8, "two".to_string()), (1, "one".to_string())]);
    let mut bytes = DownwardBytes::new();
    serialize_btree_map(&map, &mut bytes).unwrap();
    assert_eq!(
        bytes.as_slice(),
        [2, 1, 3, b'o', b'n', b'e', 2, 3, b't', b'w', b'o']
    );
    assert_eq!(
        deserialize_btree_map::<u8, String, _>(&mut &bytes[..]).unwrap(),
        map
    );
    assert_eq!(
        deserialize_btree_map::<u8, String, _>(&mut &[1u8, 1][..]).unwrap_err(),
        Error::DataIsShort {
            expect: 1,
            actual: 0
        }
    );
}

#[derive(Debug, PartialEq)]
enum Shape {
    Dot,
    Circle(u32),
    Rect { w: u32, h: u32 },
}

impl Serialize for Shape {
    fn serialize_to<S: Serializer>(&self, serializer: &mut S) -> Result<()> {
        let start = serializer.len();
        match self {
            Self::Dot => {
                "Dot".serialize_to(serializer)?;
            }
            Self::Circle(v0) => {
                v0.serialize_to(serializer)?;
                "Circle".serialize_to(serializer)?;
            }
            Self::Rect { w, h } => {
                h.serialize_to(serializer)?;
                w.serialize_to(serializer)?;
                "Rect".serialize_to(serializer)?;
            }
        }
        serialize_len(serializer, start)
    }
}

impl<'a> DetailedDeserialize<'a> for Shape {
    fn deserialize_fields<D: Deserializer<'a>>(buf: &mut D) -> Result<Self> {
        let ty = <&str>::deserialize_from(buf)?;
        Ok(
            match select_variant("Shape", ty, &["Dot", "Circle", "Rect"])? {
                0 => Self::Dot,
                1 => Self::Circle(deserialize_field(buf)?),
                _ => Self::Rect {
                    w: deserialize_field(buf)?,
                    h: deserialize_field(buf)?,
                },
            },
        )
    }
}

impl<'a> Deserialize<'a> for Shape {
    fn deserialize_from<D: Deserializer<'a>>(buf: &mut D) -> Result<Self> {
        deserialize_record(buf)
    }
}

#[test]
fn tagged_union_wire_form() {
    assert_eq!(encode(&Shape::Dot), [4, 3, b'D', b'o', b't']);
    assert_eq!(
        encode(&Shape::Rect { w: 1, h: 2 }),
        [13, 4, b'R', b'e', b'c', b't', 1, 0, 0, 0, 2, 0, 0, 0]
    );
    for shape in [Shape::Dot, Shape::Circle(7), Shape::Rect { w: 1, h: 2 }] {
        assert_eq!(Shape::deserialize(&encode(&shape)[..]).unwrap(), shape);
    }
    // A variant whose fields are missing takes their defaults.
    assert_eq!(
        Shape::deserialize(&[5u8, 4, b'R', b'e', b'c', b't'][..]).unwrap(),
        Shape::Rect { w: 0, h: 0 }
    );
}

#[test]
fn tag_mismatch() {
    assert_eq!(select_variant("Shape", "Dot", &["Dot", "Circle"]).unwrap(), 0);
    assert_eq!(select_variant("Shape", "Circle", &["Dot", "Circle"]).unwrap(), 1);
    assert_eq!(select_variant("Shape", "Dot", &["Dot", "Dot"]).unwrap(), 0);
    for tag in ["Square", "dot", "Do", "Dot ", ""] {
        assert_eq!(
            select_variant("Shape", tag, &["Dot", "Circle"]).unwrap_err(),
            Error::InvalidType(format!("Shape::{}", tag))
        );
    }
    assert_eq!(
        select_variant("Shape", "Dot", &[]).unwrap_err(),
        Error::InvalidType("Shape::Dot".to_string())
    );

    let bytes = [7u8, 6, b'S', b'q', b'u', b'a', b'r', b'e'];
    let err = Shape::deserialize(&bytes[..]).unwrap_err();
    assert_eq!(err, Error::InvalidType("Shape::Square".to_string()));
    assert_eq!(err.to_string(), "invalid type: Shape::Square");

    let err = Error::deserialize(&[5u8, 4, b'N', b'o', b'n', b'e'][..]).unwrap_err();
    assert_eq!(err, Error::InvalidType("Error::None".to_string()));
}

#[test]
fn every_error() {
    assert_eq!(Error::default(), Error::Default);
    assert_eq!(
        u32::deserialize(&[1u8, 2, 3][..]).unwrap_err(),
        Error::DataIsShort {
            expect: 4,
            actual: 3
        }
    );
    assert_eq!(
        String::deserialize(&[5u8, b'a', b'b'][..]).unwrap_err(),
        Error::DataIsShort {
            expect: 5,
            actual: 2
        }
    );
    assert_eq!(bool::deserialize(&[2u8][..]).unwrap_err(), Error::InvalidBool(2));
    assert_eq!(
        Option::<u8>::deserialize(&[255u8, 1][..]).unwrap_err(),
        Error::InvalidBool(255)
    );
    assert_eq!(
        char::deserialize(&[0u8, 0, 0x11, 0][..]).unwrap_err(),
        Error::InvalidChar(0x110000)
    );
    assert_eq!(
        char::deserialize(&[0u8, 0xd8, 0, 0][..]).unwrap_err(),
        Error::InvalidChar(0xd800)
    );
    assert_eq!(
        String::deserialize(&[2u8, 0xc0, 0xaf][..]).unwrap_err(),
        Error::InvalidString(vec![0xc0, 0xaf])
    );
    assert_eq!(
        <&str>::deserialize(&[2u8, 0xc0, 0xaf][..]).unwrap_err(),
        Error::InvalidString(vec![0xc0, 0xaf])
    );
    let pieces: [&[u8]; 2] = [&[2, 0xc0], &[0xaf]];
    assert_eq!(
        String::deserialize(BytesArray::new(&pieces)).unwrap_err(),
        Error::InvalidString(vec![0xc0, 0xaf])
    );
    assert_eq!(
        <[bool; 3]>::deserialize(&[1u8, 2][..]).unwrap_err(),
        Error::InvalidLength(1, "invalid bool: 2".to_string())
    );
    assert_eq!(
        <[u16; 2]>::deserialize(&[1u8, 2, 3][..]).unwrap_err(),
        Error::InvalidLength(
            1,
            "data is short for deserialize: expect 2, actual 1".to_string()
        )
    );
    assert_eq!(
        <[[bool; 2]; 2]>::deserialize(&[1u8, 0, 1, 9][..]).unwrap_err(),
        Error::InvalidLength(1, "invalid length: 1, invalid bool: 9".to_string())
    );
    assert_eq!(
        Vec::<u8>::deserialize(&[0x80u8; 12][..]).unwrap_err(),
        Error::VarintIsShort
    );
    let mut secs = u64::MAX.to_le_bytes().to_vec();
    secs.extend_from_slice(&1_000_000_000u32.to_le_bytes());
    assert_eq!(
        Duration::deserialize(&secs[..]).unwrap_err(),
        Error::InvalidValue("duration overflows".to_string())
    );
}

#[test]
fn error_messages() {
    assert_eq!(Error::Default.to_string(), "default");
    assert_eq!(
        Error::DataIsShort {
            expect: 1234567890,
            actual: 0
        }
        .to_string(),
        "data is short for deserialize: expect 1234567890, actual 0"
    );
    assert_eq!(
        Error::DataIsShort {
            expect: usize::MAX,
            actual: 10
        }
        .to_string(),
        format!(
            "data is short for deserialize: expect {}, actual 10",
            usize::MAX
        )
    );
    assert_eq!(Error::InvalidBool(233).to_string(), "invalid bool: 233");
    assert_eq!(Error::InvalidChar(55296).to_string(), "invalid char: 55296");
    assert_eq!(Error::InvalidString(vec![]).to_string(), "invalid string: []");
    assert_eq!(Error::InvalidString(vec![7]).to_string(), "invalid string: [7]");
    assert_eq!(
        Error::InvalidString(vec![192, 0, 9]).to_string(),
        "invalid string: [192, 0, 9]"
    );
    assert_eq!(
        Error::InvalidLength(2, "why".into()).to_string(),
        "invalid length: 2, why"
    );
    assert_eq!(Error::VarintIsShort.to_string(), "varint is short");
    assert_eq!(Error::InvalidType("A::B".into()).to_string(), "invalid type: A::B");
    assert_eq!(Error::InvalidValue("bad".into()).to_string(), "invalid value: bad");
    assert_eq!(Error::InvalidLength(0, String::new()).name(), "InvalidLength");
}

#[test]
fn errors_as_tagged_unions() {
    let all = [
        Error::Default,
        Error::DataIsShort {
            expect: 3,
            actual: 2,
        },
        Error::InvalidBool(9),
        Error::InvalidChar(0xdfff),
        Error::InvalidString(vec![1, 2, 3]),
        Error::InvalidLength(4, "cause".into()),
        Error::VarintIsShort,
        Error::InvalidType("T::v".into()),
        Error::InvalidValue("text".into()),
    ];
    for error in all {
        let bytes = encode(&error);
        assert_eq!(bytes[0] as usize, bytes.len() - 1);
        assert_eq!(<&str>::deserialize(&bytes[1..]).unwrap(), error.name());
        assert_eq!(Error::deserialize(&bytes[..]).unwrap(), error);
    }
    assert_eq!(
        encode(&Error::InvalidBool(9)),
        [13, 11, b'I', b'n', b'v', b'a', b'l', b'i', b'd', b'B', b'o', b'o', b'l', 9]
    );
    // A variant without its fields takes their defaults.
    let mut bytes = encode("InvalidLength");
    bytes.insert(0, bytes.len() as u8);
    assert_eq!(
        Error::deserialize(&bytes[..]).unwrap(),
        Error::InvalidLength(0, String::new())
    );
}

#[test]
fn sequences_and_tuples() {
    assert_eq!(encode(&vec![1u16, 2, 3]), [3, 1, 0, 2, 0, 3, 0]);
    assert_eq!(encode(&[1u16, 2, 3]), [1, 0, 2, 0, 3, 0]);
    assert_eq!(encode(&(1u8, 2u16, 3u8)), [1, 2, 0, 3]);
    assert_eq!(<[u16; 3]>::deserialize(&[1u8, 0, 2, 0, 3, 0][..]).unwrap(), [1, 2, 3]);
    assert_eq!(<[u16; 0]>::deserialize(&[][..]).unwrap(), [0u16; 0]);

    let deque: VecDeque<i16> = VecDeque::from([-1, 0, 1]);
    assert_eq!(encode(&deque), [3, 0xff, 0xff, 0, 0, 1, 0]);
    assert_eq!(VecDeque::<i16>::deserialize(&encode(&deque)[..]).unwrap(), deque);

    let many = (
        1u8, 2u16, 3u32, 4u64, 5i8, 6i16, 7i32, 8i64, true, 'x', "s".to_string(), Some(1u8),
        vec![1u8], (), 15usize, -16isize,
    );
    let bytes = encode(&many);
    type Many = (
        u8, u16, u32, u64, i8, i16, i32, i64, bool, char, String, Option<u8>, Vec<u8>, (), usize,
        isize,
    );
    let der = Many::deserialize(&bytes[..]).unwrap();
    assert_eq!(
        (der.0, der.1, der.2, der.3, der.4, der.5, der.6, der.7),
        (many.0, many.1, many.2, many.3, many.4, many.5, many.6, many.7)
    );
    assert_eq!(
        (der.8, der.9, der.10, der.11, der.12, der.13, der.14, der.15),
        (many.8, many.9, many.10, many.11, many.12, many.13, many.14, many.15)
    );

    let nested = vec![Some(vec![(1u8, "a".to_string())]), None];
    type Nested = Vec<Option<Vec<(u8, String)>>>;
    assert_eq!(Nested::deserialize(&encode(&nested)[..]).unwrap(), nested);

    let lent = Cow::Borrowed(&7u32);
    assert_eq!(encode(&lent), [7, 0, 0, 0]);
    let owned = Cow::<u32>::deserialize(&[7u8, 0, 0, 0][..]).unwrap();
    assert!(matches!(owned, Cow::Owned(7)));
}

#[test]
fn outside_types() {
    let text = CompactText::new("a text that is longer than what is kept in place");
    assert_eq!(text.as_str(), "a text that is longer than what is kept in place");
    let bytes = encode(&text);
    assert_eq!(bytes, encode("a text that is longer than what is kept in place"));
    assert_eq!(
        CompactText::deserialize(&bytes[..]).unwrap().as_str(),
        text.as_str()
    );
    assert_eq!(CompactText::new("").as_str(), "");

    let span = Duration::new(5, 999_999_999);
    let bytes = encode(&span);
    assert_eq!(&bytes[..8], 5u64.to_le_bytes());
    assert_eq!(&bytes[8..], 999_999_999u32.to_le_bytes());
    assert_eq!(Duration::deserialize(&bytes[..]).unwrap(), span);

    // Whole seconds among the nanoseconds are carried over.
    let mut bytes = 5u64.to_le_bytes().to_vec();
    bytes.extend_from_slice(&2_500_000_000u32.to_le_bytes());
    assert_eq!(
        Duration::deserialize(&bytes[..]).unwrap(),
        Duration::new(7, 500_000_000)
    );
    assert_eq!(
        Duration::deserialize(&bytes[..11]).unwrap_err(),
        Error::DataIsShort {
            expect: 4,
            actual: 3
        }
    );
}
