use std::{borrow::Cow, marker::PhantomData};

use derse::record::{deserialize_field, deserialize_record, select_variant, serialize_len};
use derse::{
    BytesArray, Deserialize, Deserializer, DetailedDeserialize, DownwardBytes, Result, Serialize,
    Serializer,
};

#[test]
fn test_named_struct() {
    #[derive(Debug, PartialEq)]
    struct A {
        x: u64,
        y: String,
    }

    impl Serialize for A {
        fn serialize_to<S: Serializer>(&self, serializer: &mut S) -> Result<()> {
            let start = serializer.len();
            self.y.serialize_to(serializer)?;
            self.x.serialize_to(serializer)?;
            serialize_len(serializer, start)
        }
    }

    impl<'a> DetailedDeserialize<'a> for A {
        fn deserialize_fields<D: Deserializer<'a>>(buf: &mut D) -> Result<Self> {
            Ok(Self {
                x: deserialize_field(buf)?,
                y: deserialize_field(buf)?,
            })
        }
    }

    impl<'a> Deserialize<'a> for A {
        fn deserialize_from<D: Deserializer<'a>>(buf: &mut D) -> Result<Self> {
            deserialize_record(buf)
        }
    }

    let ser = A {
        x: u64::MAX,
        y: "hello derse!".to_owned(),
    };
    let bytes = ser.serialize::<DownwardBytes>().unwrap();
    assert_eq!(bytes.len(), 1 + 8 + 1 + 12);

    assert_eq!(ser.serialize::<usize>().unwrap(), bytes.len());

    let der = A::deserialize(&bytes[..]).unwrap();
    assert_eq!(ser, der);
}

#[test]
fn test_unnamed_struct() {
    #[derive(Debug, PartialEq)]
    struct A(u32, u64, String);

    impl Serialize for A {
        fn serialize_to<S: Serializer>(&self, serializer: &mut S) -> Result<()> {
            let start = serializer.len();
            self.2.serialize_to(serializer)?;
            self.1.serialize_to(serializer)?;
            self.0.serialize_to(serializer)?;
            serialize_len(serializer, start)
        }
    }

    impl<'a> DetailedDeserialize<'a> for A {
        fn deserialize_fields<D: Deserializer<'a>>(buf: &mut D) -> Result<Self> {
            Ok(Self(
                deserialize_field(buf)?,
                deserialize_field(buf)?,
                deserialize_field(buf)?,
            ))
        }
    }

    impl<'a> Deserialize<'a> for A {
        fn deserialize_from<D: Deserializer<'a>>(buf: &mut D) -> Result<Self> {
            deserialize_record(buf)
        }
    }

    let ser = A(u32::MAX, u64::MAX, "hello derse!".to_owned());
    let bytes = ser.serialize::<DownwardBytes>().unwrap();
    assert_eq!(bytes.len(), 1 + 4 + 8 + 1 + 12);

    let der = A::deserialize(&bytes[..]).unwrap();
    assert_eq!(ser, der);
}

#[test]
fn test_unit_struct() {
    #[derive(Debug, PartialEq)]
    struct A;

    impl Serialize for A {
        fn serialize_to<S: Serializer>(&self, serializer: &mut S) -> Result<()> {
            let start = serializer.len();
            serialize_len(serializer, start)
        }
    }

    impl<'a> DetailedDeserialize<'a> for A {
        fn deserialize_fields<D: Deserializer<'a>>(_: &mut D) -> Result<Self> {
            Ok(Self)
        }
    }

    impl<'a> Deserialize<'a> for A {
        fn deserialize_from<D: Deserializer<'a>>(buf: &mut D) -> Result<Self> {
            deserialize_record(buf)
        }
    }

    let ser = A;
    let bytes = ser.serialize::<DownwardBytes>().unwrap();
    assert_eq!(bytes.len(), 1);

    let der = A::deserialize(&bytes[..]).unwrap();
    assert_eq!(ser, der);
}

#[test]
fn test_compatibility() {
    #[derive(Debug, PartialEq)]
    struct A1(String, u64);

    #[derive(Debug, PartialEq)]
    struct A2(String, u64, String); // add a field.

    impl Serialize for A1 {
        fn serialize_to<S: Serializer>(&self, serializer: &mut S) -> Result<()> {
            let start = serializer.len();
            self.1.serialize_to(serializer)?;
            self.0.serialize_to(serializer)?;
            serialize_len(serializer, start)
        }
    }

    impl Serialize for A2 {
        fn serialize_to<S: Serializer>(&self, serializer: &mut S) -> Result<()> {
            let start = serializer.len();
            self.2.serialize_to(serializer)?;
            self.1.serialize_to(serializer)?;
            self.0.serialize_to(serializer)?;
            serialize_len(serializer, start)
        }
    }

    impl<'a> DetailedDeserialize<'a> for A2 {
        fn deserialize_fields<D: Deserializer<'a>>(buf: &mut D) -> Result<Self> {
            Ok(Self(
                deserialize_field(buf)?,
                deserialize_field(buf)?,
                deserialize_field(buf)?,
            ))
        }
    }

    impl<'a> Deserialize<'a> for A2 {
        fn deserialize_from<D: Deserializer<'a>>(buf: &mut D) -> Result<Self> {
            deserialize_record(buf)
        }
    }

    {
        let ser = A1("hello derse!".to_owned(), 12138);
        let bytes = ser.serialize::<DownwardBytes>().unwrap();
        assert_eq!(bytes.len(), 1 + 1 + 12 + 8);

        let der = A2::deserialize(&bytes[..]).unwrap();
        assert_eq!(ser.0, der.0);
        assert_eq!(ser.1, der.1);
        assert!(der.2.is_empty());
    }

    {
        let ser = A2("hello derse!".to_owned(), 12138, "more data".to_owned());
        let bytes = ser.serialize::<DownwardBytes>().unwrap();
        assert_eq!(bytes.len(), 1 + 1 + 12 + 8 + 1 + 9);

        let der = A2::deserialize(&bytes[..]).unwrap();
        assert_eq!(ser.0, der.0);
        assert_eq!(ser.1, der.1);
    }
}

#[test]
fn test_struct_with_lifetime() {
    #[derive(Debug, PartialEq)]
    struct A<'a>(Cow<'a, str>);

    impl Serialize for A<'_> {
        fn serialize_to<S: Serializer>(&self, serializer: &mut S) -> Result<()> {
            let start = serializer.len();
            self.0.serialize_to(serializer)?;
            serialize_len(serializer, start)
        }
    }

    impl<'a> DetailedDeserialize<'a> for A<'a> {
        fn deserialize_fields<D: Deserializer<'a>>(buf: &mut D) -> Result<Self> {
            Ok(Self(deserialize_field(buf)?))
        }
    }

    impl<'a> Deserialize<'a> for A<'a> {
        fn deserialize_from<D: Deserializer<'a>>(buf: &mut D) -> Result<Self> {
            deserialize_record(buf)
        }
    }

    {
        let ser = A(Cow::Owned("hello derse!".to_owned()));
        let bytes = ser.serialize::<DownwardBytes>().unwrap();
        assert_eq!(bytes.len(), 1 + 1 + 12);

        let der = A::deserialize(&bytes[..]).unwrap();
        assert!(matches!(der.0, Cow::Borrowed(_)));
        assert_eq!(ser.0, der.0);

        let c = [bytes.as_slice()];
        let mut vec = BytesArray::new(&c);
        let der = A::deserialize_from(&mut vec).unwrap();
        assert!(matches!(der.0, Cow::Borrowed(_)));
        assert_eq!(ser.0, der.0);
    }
}

#[test]
fn test_struct_with_generic() {
    #[derive(Debug, PartialEq)]
    struct A<'a, S: Default + Serialize + Deserialize<'a>>(i32, S, PhantomData<&'a ()>);

    impl<'a, S: Default + Serialize + Deserialize<'a>> Serialize for A<'a, S> {
        fn serialize_to<T: Serializer>(&self, serializer: &mut T) -> Result<()> {
            let start = serializer.len();
            self.2.serialize_to(serializer)?;
            self.1.serialize_to(serializer)?;
            self.0.serialize_to(serializer)?;
            serialize_len(serializer, start)
        }
    }

    impl<'a, S: Default + Serialize + Deserialize<'a>> DetailedDeserialize<'a> for A<'a, S> {
        fn deserialize_fields<D: Deserializer<'a>>(buf: &mut D) -> Result<Self> {
            Ok(Self(
                deserialize_field(buf)?,
                deserialize_field(buf)?,
                deserialize_field(buf)?,
            ))
        }
    }

    impl<'a, S: Default + Serialize + Deserialize<'a>> Deserialize<'a> for A<'a, S> {
        fn deserialize_from<D: Deserializer<'a>>(buf: &mut D) -> Result<Self> {
            deserialize_record(buf)
        }
    }

    {
        let ser = A(233, "hello".to_string(), Default::default());
        let bytes = ser.serialize::<DownwardBytes>().unwrap();
        assert_eq!(bytes.len(), 1 + 4 + 1 + 5);

        let der = A::<String>::deserialize(&bytes[..]).unwrap();
        assert_eq!(ser.0, der.0);
        assert_eq!(ser.1, der.1);

        let c = [bytes.as_slice()];
        let mut vec = BytesArray::new(&c);
        let der = A::<&str>::deserialize_from(&mut vec).unwrap();
        assert_eq!(ser.0, der.0);
        assert_eq!(ser.1, der.1);
    }
}

#[test]
fn test_struct_with_remain_buf() {
    #[derive(Debug, PartialEq)]
    struct V1 {
        x: u64,
    }

    #[derive(Debug, PartialEq)]
    struct V2 {
        x: u64,
        y: String,
    }

    impl Serialize for V1 {
        fn serialize_to<S: Serializer>(&self, serializer: &mut S) -> Result<()> {
            let start = serializer.len();
            self.x.serialize_to(serializer)?;
            serialize_len(serializer, start)
        }
    }

    impl<'a> DetailedDeserialize<'a> for V1 {
        fn deserialize_fields<D: Deserializer<'a>>(buf: &mut D) -> Result<Self> {
            Ok(Self {
                x: deserialize_field(buf)?,
            })
        }
    }

    impl Serialize for V2 {
        fn serialize_to<S: Serializer>(&self, serializer: &mut S) -> Result<()> {
            let start = serializer.len();
            self.y.serialize_to(serializer)?;
            self.x.serialize_to(serializer)?;
            serialize_len(serializer, start)
        }
    }

    let ser = V2 {
        x: 233,
        y: String::from("hello"),
    };
    let bytes = ser.serialize::<DownwardBytes>().unwrap();
    let mut buf = &bytes[..];

    let len = V1::deserialize_len(&mut buf).unwrap();
    let mut buf = buf.advance(len).unwrap();
    let der = V1::deserialize_fields(&mut buf).unwrap();
    assert_eq!(der.x, ser.x);
    let der = String::deserialize(buf).unwrap();
    assert_eq!(der, ser.y);
}

#[test]
fn test_enum() {
    #[derive(Debug, PartialEq)]
    enum Demo {
        A,
        B(i32),
        C { x: i32, y: String },
    }

    impl Serialize for Demo {
        fn serialize_to<S: Serializer>(&self, serializer: &mut S) -> Result<()> {
            let start = serializer.len();
            match self {
                Self::A => {
                    "A".serialize_to(serializer)?;
                }
                Self::B(v0) => {
                    v0.serialize_to(serializer)?;
                    "B".serialize_to(serializer)?;
                }
                Self::C { x, y } => {
                    y.serialize_to(serializer)?;
                    x.serialize_to(serializer)?;
                    "C".serialize_to(serializer)?;
                }
            }
            serialize_len(serializer, start)
        }
    }

    impl<'a> DetailedDeserialize<'a> for Demo {
        fn deserialize_fields<D: Deserializer<'a>>(buf: &mut D) -> Result<Self> {
            let ty = <&str>::deserialize_from(buf)?;
            let result = match select_variant("Demo", ty, &["A", "B", "C"])? {
                0 => Self::A,
                1 => Self::B(deserialize_field(buf)?),
                _ => Self::C {
                    x: deserialize_field(buf)?,
                    y: deserialize_field(buf)?,
                },
            };
            Ok(result)
        }
    }

    impl<'a> Deserialize<'a> for Demo {
        fn deserialize_from<D: Deserializer<'a>>(buf: &mut D) -> Result<Self> {
            deserialize_record(buf)
        }
    }

    let ser = Demo::A;
    let bytes = ser.serialize::<DownwardBytes>().unwrap();
    let ty = <&str>::deserialize(&bytes[1..]).unwrap();
    assert_eq!(ty, "A");
    let der = Demo::deserialize(&bytes[..]).unwrap();
    assert_eq!(ser, der);

    let ser = Demo::B(233);
    let bytes = ser.serialize::<DownwardBytes>().unwrap();
    let ty = <&str>::deserialize(&bytes[1..]).unwrap();
    assert_eq!(ty, "B");
    let value = i32::deserialize(&bytes[3..]).unwrap();
    assert_eq!(value, 233);
    let der = Demo::deserialize(&bytes[..]).unwrap();
    assert_eq!(ser, der);

    let ser = Demo::C {
        x: 233,
        y: "hello".into(),
    };
    let bytes = ser.serialize::<DownwardBytes>().unwrap();
    let ty = <&str>::deserialize(&bytes[1..]).unwrap();
    assert_eq!(ty, "C");
    let value = i32::deserialize(&bytes[3..]).unwrap();
    assert_eq!(value, 233);
    let str = <&str>::deserialize(&bytes[7..]).unwrap();
    assert_eq!(str, "hello");
    let der = Demo::deserialize(&bytes[..]).unwrap();
    assert_eq!(ser, der);

    let mut bytes = "D".serialize::<DownwardBytes>().unwrap();
    2u8.serialize_to(&mut bytes).unwrap();
    println!("{}", Demo::deserialize(&bytes[..]).unwrap_err().to_string());
}
