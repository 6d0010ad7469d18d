use nereon::decode::{
    decode_children, decode_node, refers_to_text, TAG_ARRAY, TAG_BOOL, TAG_FLOAT, TAG_INT,
    TAG_IP_PORT, TAG_OBJECT, TAG_STRING,
};
use nereon::{decode_tree, Cfg, CfgData, Fault, RawRecord, RawTree};

fn key_buffer(name: &str) -> Vec<u8> {
    let mut k = vec![0u8; 128];
    k[..name.len()].copy_from_slice(name.as_bytes());
    k
}

fn rec(name: &str, tag: i32, child: Option<usize>, next: Option<usize>, payload: [u8; 8]) -> RawRecord {
    RawRecord {
        key: key_buffer(name),
        type_tag: tag,
        first_child: child,
        next_sibling: next,
        payload,
        text: None,
    }
}

fn int_rec(name: &str, v: i64, next: Option<usize>) -> RawRecord {
    rec(name, TAG_INT, None, next, v.to_le_bytes())
}

fn str_rec(name: &str, text: &[u8], next: Option<usize>) -> RawRecord {
    let mut r = rec(name, TAG_STRING, None, next, [0; 8]);
    let mut t = text.to_vec();
    t.push(0);
    r.text = Some(t);
    r
}

/// A snapshot whose wrapper (record 0) holds `root` (record 1) and the rest.
fn wrapped(root: RawRecord, rest: Vec<RawRecord>) -> RawTree {
    let mut records = vec![rec("", TAG_OBJECT, Some(1), None, [0; 8]), root];
    records.extend(rest);
    RawTree { records, handle: Some(0) }
}

fn single(r: RawRecord) -> Result<Option<Cfg>, Fault> {
    decode_tree(&wrapped(r, vec![]))
}

#[test]
fn port_example_end_to_end() {
    let t = wrapped(
        rec("", TAG_OBJECT, Some(2), None, [0; 8]),
        vec![int_rec("port", 8080, None)],
    );
    let expected = Cfg {
        key: String::new(),
        data: CfgData::Object(vec![Cfg { key: "port".to_string(), data: CfgData::Int(8080) }]),
    };
    assert_eq!(decode_tree(&t), Ok(Some(expected)));
}

#[test]
fn no_tree_is_no_configuration() {
    let t = RawTree { records: vec![], handle: None };
    assert_eq!(decode_tree(&t), Ok(None));
}

#[test]
fn wrapper_without_child_is_no_configuration() {
    let t = RawTree { records: vec![rec("", TAG_OBJECT, None, None, [0; 8])], handle: Some(0) };
    assert_eq!(decode_tree(&t), Ok(None));
}

#[test]
fn siblings_keep_their_order() {
    let t = wrapped(
        rec("list", TAG_ARRAY, Some(2), None, [0; 8]),
        vec![int_rec("a", 1, Some(3)), int_rec("b", 2, Some(4)), int_rec("c", 3, None)],
    );
    let keys_and_values: Vec<(String, i64)> = match decode_tree(&t) {
        Ok(Some(Cfg { data: CfgData::Array(v), .. })) => v
            .into_iter()
            .map(|c| match c.data {
                CfgData::Int(i) => (c.key, i),
                other => panic!("unexpected {:?}", other),
            })
            .collect(),
        other => panic!("unexpected {:?}", other),
    };
    assert_eq!(
        keys_and_values,
        vec![("a".to_string(), 1), ("b".to_string(), 2), ("c".to_string(), 3)]
    );
}

#[test]
fn object_children_keep_their_order() {
    let t = wrapped(
        rec("obj", TAG_OBJECT, Some(2), None, [0; 8]),
        vec![str_rec("z", b"last", Some(3)), int_rec("a", 5, None)],
    );
    let expected = Cfg {
        key: "obj".to_string(),
        data: CfgData::Object(vec![
            Cfg { key: "z".to_string(), data: CfgData::String("last".to_string()) },
            Cfg { key: "a".to_string(), data: CfgData::Int(5) },
        ]),
    };
    assert_eq!(decode_tree(&t), Ok(Some(expected)));
}

#[test]
fn integer_payloads_round_trip() {
    for v in [0i64, 1, -1, 8080, i64::MAX, i64::MIN, 0x0102_0304_0506_0708] {
        assert_eq!(
            single(int_rec("n", v, None)),
            Ok(Some(Cfg { key: "n".to_string(), data: CfgData::Int(v) }))
        );
    }
}

#[test]
fn integer_payload_is_little_endian() {
    let r = rec("n", TAG_INT, None, None, [0x90, 0x1f, 0, 0, 0, 0, 0, 0]);
    assert_eq!(single(r), Ok(Some(Cfg { key: "n".to_string(), data: CfgData::Int(8080) })));
}

#[test]
fn float_payloads_round_trip() {
    for x in [1.5f32, -0.25, 0.0, f32::MAX] {
        let mut p = [0xaau8; 8];
        p[..4].copy_from_slice(&x.to_bits().to_le_bytes());
        let got = single(rec("f", TAG_FLOAT, None, None, p));
        match got {
            Ok(Some(Cfg { data: CfgData::Float(bits), .. })) => {
                assert_eq!(bits, x.to_bits());
                assert_eq!(f32::from_bits(bits), x);
            }
            other => panic!("unexpected {:?}", other),
        }
    }
}

#[test]
fn bool_and_ip_port_payloads() {
    let b = rec("b", TAG_BOOL, None, None, [1, 0, 0, 0, 0, 0, 0, 0]);
    assert_eq!(single(b), Ok(Some(Cfg { key: "b".to_string(), data: CfgData::Bool(true) })));
    let b = rec("b", TAG_BOOL, None, None, [0, 7, 0, 0, 0, 0, 0, 0]);
    assert_eq!(single(b), Ok(Some(Cfg { key: "b".to_string(), data: CfgData::Bool(false) })));
    let mut p = [0u8; 8];
    p[..4].copy_from_slice(&(-2i32).to_le_bytes());
    let ip = rec("ip", TAG_IP_PORT, None, None, p);
    assert_eq!(single(ip), Ok(Some(Cfg { key: "ip".to_string(), data: CfgData::IpPort(-2) })));
}

#[test]
fn strings_of_length_zero_one_and_long() {
    let long: Vec<u8> = (0..150).map(|i| b'a' + (i % 26) as u8).collect();
    for text in [&b""[..], &b"x"[..], &long[..]] {
        let expected = String::from_utf8(text.to_vec()).unwrap();
        assert_eq!(
            single(str_rec("s", text, None)),
            Ok(Some(Cfg { key: "s".to_string(), data: CfgData::String(expected) }))
        );
    }
}

#[test]
fn string_stops_at_first_nul() {
    let mut r = rec("s", TAG_STRING, None, None, [0; 8]);
    r.text = Some(b"ab\0cd\0".to_vec());
    assert_eq!(single(r), Ok(Some(Cfg { key: "s".to_string(), data: CfgData::String("ab".to_string()) })));
}

#[test]
fn unknown_tag_is_a_fault() {
    assert_eq!(single(rec("x", 99, None, None, [0; 8])), Err(Fault::UnknownTag(99)));
}

#[test]
fn unknown_tag_deep_in_the_tree_aborts_the_whole_decode() {
    let t = wrapped(
        rec("root", TAG_OBJECT, Some(2), None, [0; 8]),
        vec![
            int_rec("ok", 1, Some(3)),
            rec("inner", TAG_ARRAY, Some(4), None, [0; 8]),
            rec("bad", 99, None, None, [0; 8]),
        ],
    );
    assert_eq!(decode_tree(&t), Err(Fault::UnknownTag(99)));
}

#[test]
fn negative_tag_is_unknown() {
    assert_eq!(single(rec("x", -3, None, None, [0; 8])), Err(Fault::UnknownTag(-3)));
}

#[test]
fn key_without_nul_is_invalid_text() {
    let mut r = int_rec("k", 1, None);
    r.key = vec![b'k'; 128];
    assert_eq!(single(r), Err(Fault::InvalidText));
}

#[test]
fn key_that_is_not_utf8_is_invalid_text() {
    let mut r = int_rec("k", 1, None);
    r.key[0] = 0xff;
    assert_eq!(single(r), Err(Fault::InvalidText));
}

#[test]
fn string_without_buffer_is_invalid_text() {
    assert_eq!(single(rec("s", TAG_STRING, None, None, [0; 8])), Err(Fault::InvalidText));
}

#[test]
fn string_that_is_not_utf8_is_invalid_text() {
    assert_eq!(single(str_rec("s", &[0xc3, 0x28], None)), Err(Fault::InvalidText));
}

#[test]
fn non_ascii_text_is_kept() {
    assert_eq!(
        single(str_rec("clé", "héllo".as_bytes(), None)),
        Ok(Some(Cfg { key: "clé".to_string(), data: CfgData::String("héllo".to_string()) }))
    );
}

#[test]
fn backward_link_is_a_malformed_tree() {
    let t = wrapped(rec("list", TAG_ARRAY, Some(2), None, [0; 8]), vec![int_rec("a", 1, Some(1))]);
    assert!(!t.is_well_formed());
    assert_eq!(decode_tree(&t), Err(Fault::MalformedTree));
}

#[test]
fn handle_out_of_range_is_a_malformed_tree() {
    let t = RawTree { records: vec![], handle: Some(0) };
    assert_eq!(decode_tree(&t), Err(Fault::MalformedTree));
}

#[test]
fn decoding_twice_gives_the_same_tree() {
    let t = wrapped(
        rec("", TAG_OBJECT, Some(2), None, [0; 8]),
        vec![str_rec("name", b"svc", Some(3)), int_rec("port", 443, None)],
    );
    let first = decode_tree(&t);
    let second = decode_tree(&t);
    assert!(first.is_ok());
    assert_eq!(first, second);
}

#[test]
fn children_and_nodes_decode_directly() {
    let t = wrapped(
        rec("list", TAG_ARRAY, Some(2), None, [0; 8]),
        vec![int_rec("a", 1, Some(3)), int_rec("b", 2, None)],
    );
    assert_eq!(
        decode_node(&t, 3),
        Ok(Cfg { key: "b".to_string(), data: CfgData::Int(2) })
    );
    assert_eq!(decode_children(&t, None), Ok(vec![]));
    assert_eq!(decode_children(&t, Some(2)).map(|v| v.len()), Ok(2));
}

#[test]
fn only_string_tags_refer_to_text() {
    assert!(refers_to_text(TAG_STRING));
    for tag in [TAG_INT, TAG_BOOL, TAG_ARRAY, TAG_IP_PORT, TAG_FLOAT, TAG_OBJECT, 99] {
        assert!(!refers_to_text(tag));
    }
}
