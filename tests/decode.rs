use serde_json::Value;
use yalm::{dtype_from_name, dtype_size, dtype_to_string, Container, DType, Descriptor, LoadError, Tensor};

fn entry(text: &str) -> Value {
    serde_json::from_str(text).unwrap()
}

fn decode_entry(text: &str, total_len: usize) -> Result<Tensor, LoadError> {
    Tensor::from_json("w".to_string(), &entry(text), total_len)
}

fn name(s: &str) -> String {
    s.to_string()
}

#[test]
fn dtype_names_and_widths() {
    let all = [
        (DType::F32, "F32", 4),
        (DType::F16, "F16", 2),
        (DType::BF16, "BF16", 2),
        (DType::F8E5M2, "F8_E5M2", 1),
        (DType::F8E4M3, "F8_E4M3", 1),
        (DType::I32, "I32", 4),
        (DType::I16, "I16", 2),
        (DType::I8, "I8", 1),
        (DType::U8, "U8", 1),
    ];
    for (d, n, w) in all {
        assert_eq!(dtype_to_string(d), n);
        assert_eq!(dtype_size(d), w);
        assert_eq!(dtype_from_name(n), Some(d));
    }
    assert_eq!(dtype_from_name("Q4_K"), None);
    assert_eq!(dtype_from_name("f32"), None);
    assert_eq!(dtype_from_name(""), None);
}

#[test]
fn f32_two_by_three_decodes() {
    let t = decode_entry(r#"{"dtype":"F32","shape":[2,3],"data_offsets":[0,24]}"#, 24).unwrap();
    assert_eq!(t.name(), "w");
    assert_eq!(t.dtype(), DType::F32);
    assert_eq!(t.shape(), &vec![2, 3]);
    assert_eq!(t.byte_len(), 24);
    assert_eq!(t.numel(), 6);
    assert_eq!((t.start(), t.end()), (0, 24));
}

#[test]
fn size_short_by_four_fails() {
    let r = decode_entry(r#"{"dtype":"F32","shape":[2,3],"data_offsets":[0,20]}"#, 24);
    assert_eq!(r.unwrap_err(), LoadError::SizeMismatch(name("w")));
}

#[test]
fn size_off_by_one_byte_fails() {
    let r = decode_entry(r#"{"dtype":"F32","shape":[2,3],"data_offsets":[0,23]}"#, 32);
    assert_eq!(r.unwrap_err(), LoadError::SizeMismatch(name("w")));
    let r = decode_entry(r#"{"dtype":"F32","shape":[2,3],"data_offsets":[0,25]}"#, 32);
    assert_eq!(r.unwrap_err(), LoadError::SizeMismatch(name("w")));
    let r = decode_entry(r#"{"dtype":"F32","shape":[2,3],"data_offsets":[1,24]}"#, 32);
    assert_eq!(r.unwrap_err(), LoadError::SizeMismatch(name("w")));
    assert!(decode_entry(r#"{"dtype":"F32","shape":[2,3],"data_offsets":[1,25]}"#, 32).is_ok());
}

#[test]
fn unknown_dtype_fails() {
    let r = decode_entry(r#"{"dtype":"Q4_K","shape":[2,3],"data_offsets":[0,24]}"#, 24);
    assert_eq!(r.unwrap_err(), LoadError::UnknownDType(name("w")));
}

#[test]
fn offsets_out_of_order_fail() {
    let r = decode_entry(r#"{"dtype":"U8","shape":[4],"data_offsets":[8,4]}"#, 16);
    assert_eq!(r.unwrap_err(), LoadError::InvalidOffsets(name("w")));
}

#[test]
fn offsets_past_buffer_fail() {
    let r = decode_entry(r#"{"dtype":"U8","shape":[4],"data_offsets":[14,18]}"#, 16);
    assert_eq!(r.unwrap_err(), LoadError::InvalidOffsets(name("w")));
    assert!(decode_entry(r#"{"dtype":"U8","shape":[4],"data_offsets":[12,16]}"#, 16).is_ok());
}

#[test]
fn offsets_malformed_fail() {
    for offs in ["[0]", "[0,4,8]", "[-1,3]", "[0,4.5]", "[\"0\",4]"] {
        let text = format!(r#"{{"dtype":"U8","shape":[4],"data_offsets":{}}}"#, offs);
        assert_eq!(decode_entry(&text, 16).unwrap_err(), LoadError::InvalidOffsets(name("w")));
    }
}

#[test]
fn rank_five_fails() {
    let r = decode_entry(r#"{"dtype":"U8","shape":[1,1,1,1,1],"data_offsets":[0,1]}"#, 1);
    assert_eq!(r.unwrap_err(), LoadError::ShapeRankExceeded(name("w")));
    let t = decode_entry(r#"{"dtype":"U8","shape":[1,1,1,1],"data_offsets":[0,1]}"#, 1).unwrap();
    assert_eq!(t.shape().len(), 4);
}

#[test]
fn bad_shape_value_fails() {
    for shape in ["[2,-3]", "[2.5]", "[\"2\"]", "[null]"] {
        let text = format!(r#"{{"dtype":"U8","shape":{},"data_offsets":[0,6]}}"#, shape);
        assert_eq!(decode_entry(&text, 6).unwrap_err(), LoadError::InvalidShapeValue(name("w")));
    }
}

#[test]
fn scalar_and_empty_tensors() {
    let t = decode_entry(r#"{"dtype":"I32","shape":[],"data_offsets":[0,4]}"#, 4).unwrap();
    assert_eq!(t.numel(), 1);
    let t = decode_entry(r#"{"dtype":"I32","shape":[3,0],"data_offsets":[4,4]}"#, 4).unwrap();
    assert_eq!(t.numel(), 0);
    assert_eq!(t.byte_len(), 0);
}

#[test]
fn huge_shape_is_size_mismatch() {
    let text = r#"{"dtype":"F32","shape":[4294967296,4294967296,16],"data_offsets":[0,16]}"#;
    assert_eq!(decode_entry(text, 16).unwrap_err(), LoadError::SizeMismatch(name("w")));
}

#[test]
fn missing_fields_are_malformed() {
    for text in [
        r#"{"shape":[1],"data_offsets":[0,1]}"#,
        r#"{"dtype":"U8","data_offsets":[0,1]}"#,
        r#"{"dtype":"U8","shape":[1]}"#,
        r#"{"dtype":8,"shape":[1],"data_offsets":[0,1]}"#,
        r#"{"dtype":"U8","shape":1,"data_offsets":[0,1]}"#,
        r#"[1,2]"#,
    ] {
        assert_eq!(decode_entry(text, 1).unwrap_err(), LoadError::MalformedHeader(Some(name("w"))));
    }
}

#[test]
fn checks_come_in_order() {
    let r = decode_entry(r#"{"dtype":"Q4_K","shape":[1,1,1,1,1],"data_offsets":[9,1]}"#, 1);
    assert_eq!(r.unwrap_err(), LoadError::UnknownDType(name("w")));
    let r = decode_entry(r#"{"dtype":"U8","shape":[1,1,1,1,-1],"data_offsets":[9,1]}"#, 1);
    assert_eq!(r.unwrap_err(), LoadError::ShapeRankExceeded(name("w")));
    let r = decode_entry(r#"{"dtype":"U8","shape":[-1],"data_offsets":[9,1]}"#, 1);
    assert_eq!(r.unwrap_err(), LoadError::InvalidShapeValue(name("w")));
}

#[test]
fn from_descriptor_matches_header_entry() {
    let d = Descriptor {
        dtype: Some("BF16".to_string()),
        shape: Some(vec![Some(3)]),
        data_offsets: Some(vec![Some(2), Some(8)]),
    };
    let t = Tensor::from_descriptor("b".to_string(), &d, 8).unwrap();
    assert_eq!(t.dtype(), DType::BF16);
    assert_eq!(t.byte_len(), 6);
    let back = t.descriptor();
    assert_eq!(back.dtype, Some("BF16".to_string()));
    assert_eq!(back.shape, Some(vec![Some(3)]));
    assert_eq!(back.data_offsets, Some(vec![Some(2), Some(8)]));
}

const HEADER: &str = r#"{
  "__metadata__": {"format": "pt"},
  "b": {"dtype": "U8", "shape": [2, 2], "data_offsets": [8, 12]},
  "a": {"dtype": "F32", "shape": [2], "data_offsets": [0, 8]}
}"#;

fn data() -> Vec<u8> {
    (0u8..12).collect()
}

#[test]
fn container_decodes_in_header_order() {
    let c = Container::decode(HEADER.as_bytes(), data()).unwrap();
    let ts = c.tensors();
    assert_eq!(ts.len(), 2);
    assert_eq!(ts[0].name(), "b");
    assert_eq!(ts[1].name(), "a");
    assert_eq!(c.bytes(&ts[0]), &[8u8, 9, 10, 11]);
    assert_eq!(c.bytes(&ts[1]), &[0u8, 1, 2, 3, 4, 5, 6, 7]);
    assert_eq!(c.find(&"a".to_string()), Some(1));
    assert_eq!(c.find(&"c".to_string()), None);
    assert_eq!(c.data().len(), 12);
    let meta = c.metadata().as_ref().unwrap();
    assert_eq!(meta["format"], "pt");
}

#[test]
fn container_without_metadata() {
    let header = r#"{"a": {"dtype": "U8", "shape": [3], "data_offsets": [0, 3]}}"#;
    let c = Container::decode(header.as_bytes(), vec![1, 2, 3]).unwrap();
    assert!(c.metadata().is_none());
    assert_eq!(c.tensors().len(), 1);
}

#[test]
fn container_fails_on_first_bad_entry() {
    let header = r#"{
      "a": {"dtype": "U8", "shape": [2], "data_offsets": [0, 2]},
      "b": {"dtype": "U8", "shape": [2], "data_offsets": [0, 3]},
      "c": {"dtype": "Q4_K", "shape": [2], "data_offsets": [0, 2]}
    }"#;
    let r = Container::decode(header.as_bytes(), vec![0; 4]);
    assert_eq!(r.err(), Some(LoadError::SizeMismatch(name("b"))));
}

#[test]
fn container_rejects_bad_header_text() {
    for header in ["not json", "[1, 2]", "7", "{\"a\": "] {
        let r = Container::decode(header.as_bytes(), vec![]);
        assert_eq!(r.err(), Some(LoadError::MalformedHeader(None)));
    }
    let r = Container::decode(br#"{"a": 5}"#, vec![]);
    assert_eq!(r.err(), Some(LoadError::MalformedHeader(Some(name("a")))));
}

#[test]
fn container_offsets_checked_against_buffer() {
    let header = r#"{"a": {"dtype": "U8", "shape": [4], "data_offsets": [0, 4]}}"#;
    let r = Container::decode(header.as_bytes(), vec![0; 3]);
    assert_eq!(r.err(), Some(LoadError::InvalidOffsets(name("a"))));
}

#[test]
fn from_descriptors_keeps_order() {
    let d = |t: &str, n: u64, s: u64, e: u64| Descriptor {
        dtype: Some(t.to_string()),
        shape: Some(vec![Some(n)]),
        data_offsets: Some(vec![Some(s), Some(e)]),
    };
    let entries = vec![("x".to_string(), d("I16", 2, 0, 4)), ("y".to_string(), d("U8", 4, 4, 8))];
    let c = Container::from_descriptors(entries, None, vec![0; 8]).unwrap();
    assert_eq!(c.tensors()[0].name(), "x");
    assert_eq!(c.tensors()[1].dtype(), DType::U8);
    let entries = vec![("x".to_string(), d("I16", 2, 0, 4)), ("y".to_string(), d("U8", 4, 4, 9))];
    let r = Container::from_descriptors(entries, None, vec![0; 8]);
    assert_eq!(r.err(), Some(LoadError::InvalidOffsets(name("y"))));
}

fn header_of(c: &Container) -> String {
    let mut parts = Vec::new();
    for t in c.tensors() {
        let d = t.descriptor();
        let shape: Vec<String> = d.shape.unwrap().iter().map(|x| x.unwrap().to_string()).collect();
        let offs: Vec<String> = d.data_offsets.unwrap().iter().map(|x| x.unwrap().to_string()).collect();
        parts.push(format!(
            "\"{}\": {{\"dtype\": \"{}\", \"shape\": [{}], \"data_offsets\": [{}]}}",
            t.name(),
            d.dtype.unwrap(),
            shape.join(", "),
            offs.join(", ")
        ));
    }
    format!("{{{}}}", parts.join(", "))
}

#[test]
fn header_round_trip() {
    let c = Container::decode(HEADER.as_bytes(), data()).unwrap();
    let text = header_of(&c);
    let again = Container::decode(text.as_bytes(), data()).unwrap();
    assert_eq!(c.tensors().len(), again.tensors().len());
    for (t, u) in c.tensors().iter().zip(again.tensors().iter()) {
        assert_eq!(t.name(), u.name());
        assert_eq!(t.dtype(), u.dtype());
        assert_eq!(t.shape(), u.shape());
        assert_eq!((t.start(), t.end()), (u.start(), u.end()));
    }
}

#[test]
fn decoding_twice_gives_equal_tensors() {
    let c1 = Container::decode(HEADER.as_bytes(), data()).unwrap();
    let c2 = Container::decode(HEADER.as_bytes(), data()).unwrap();
    assert_eq!(c1.tensors().len(), c2.tensors().len());
    for (t, u) in c1.tensors().iter().zip(c2.tensors().iter()) {
        assert_eq!(t.name(), u.name());
        assert_eq!(t.dtype(), u.dtype());
        assert_eq!(t.shape(), u.shape());
        assert_eq!(c1.bytes(t), c2.bytes(u));
        assert_ne!(c1.bytes(t).as_ptr(), c2.bytes(u).as_ptr());
    }
}

#[test]
fn header_entries_decode_back() {
    let c = Container::decode(HEADER.as_bytes(), data()).unwrap();
    let entries = c.header_entries();
    assert_eq!(entries.len(), 2);
    assert_eq!(entries[0].0, "b");
    assert_eq!(entries[0].1.dtype, Some("U8".to_string()));
    assert_eq!(entries[0].1.shape, Some(vec![Some(2), Some(2)]));
    assert_eq!(entries[0].1.data_offsets, Some(vec![Some(8), Some(12)]));
    let again = Container::from_descriptors(entries, None, data()).unwrap();
    for (t, u) in c.tensors().iter().zip(again.tensors().iter()) {
        assert_eq!(t.name(), u.name());
        assert_eq!(t.dtype(), u.dtype());
        assert_eq!(t.shape(), u.shape());
        assert_eq!((t.start(), t.end()), (u.start(), u.end()));
    }
}
