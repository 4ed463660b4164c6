use growtopia_proxy::variant::{DecodeError, Variant, VariantList};

fn sample() -> VariantList {
    VariantList::new(vec![
        Variant::String("OnConsoleMessage".to_string()),
        Variant::Float(1.5f32.to_bits()),
        Variant::Vec2(2.0f32.to_bits(), (-3.25f32).to_bits()),
        Variant::Vec3(1, 2, 3),
        Variant::Unsigned(4_000_000_000),
        Variant::Signed(-17),
        Variant::String(String::new()),
    ])
}

fn same(a: &VariantList, b: &VariantList) -> bool {
    if a.len() != b.len() {
        return false;
    }
    for i in 0..a.len() {
        let (x, y) = (a.get(i).unwrap(), b.get(i).unwrap());
        let eq = match (x, y) {
            (Variant::Float(p), Variant::Float(q)) => p == q,
            (Variant::String(p), Variant::String(q)) => p == q,
            (Variant::Vec2(p, q), Variant::Vec2(r, s)) => p == r && q == s,
            (Variant::Vec3(p, q, r), Variant::Vec3(s, t, u)) => p == s && q == t && r == u,
            (Variant::Unsigned(p), Variant::Unsigned(q)) => p == q,
            (Variant::Signed(p), Variant::Signed(q)) => p == q,
            (Variant::Unknown, Variant::Unknown) => true,
            _ => false,
        };
        if !eq {
            return false;
        }
    }
    true
}

#[test]
fn round_trip_of_every_kind() {
    let list = sample();
    let bytes = list.serialize();
    let back = VariantList::deserialize(&bytes).unwrap();
    assert!(same(&list, &back));
}

#[test]
fn serialized_length_is_one_plus_headers_and_bodies() {
    let list = sample();
    // 2 + (4 + 16), 2 + 4, 2 + 8, 2 + 12, 2 + 4, 2 + 4, 2 + (4 + 0)
    let expected = 1 + 22 + 6 + 10 + 14 + 6 + 6 + 6;
    assert_eq!(list.serialize().len(), expected);
}

#[test]
fn exact_bytes_of_a_small_list() {
    let list = VariantList::new(vec![Variant::String("ab".to_string()), Variant::Signed(-2)]);
    assert_eq!(
        list.serialize(),
        vec![2, 0, 2, 2, 0, 0, 0, b'a', b'b', 1, 9, 0xfe, 0xff, 0xff, 0xff]
    );
}

#[test]
fn unknown_elements_are_skipped_but_keep_positions() {
    let list = VariantList::new(vec![
        Variant::Unknown,
        Variant::Unsigned(7),
        Variant::Unknown,
        Variant::Unsigned(8),
    ]);
    let bytes = list.serialize();
    assert_eq!(bytes, vec![2, 1, 5, 7, 0, 0, 0, 3, 5, 8, 0, 0, 0]);
    let back = VariantList::deserialize(&bytes).unwrap();
    assert_eq!(back.len(), 2);
    assert_eq!(back.get(0).unwrap().as_uint32(), 7);
    assert_eq!(back.get(1).unwrap().as_uint32(), 8);
}

#[test]
fn empty_list() {
    let list = VariantList::new(vec![]);
    assert_eq!(list.serialize(), vec![0]);
    assert_eq!(VariantList::deserialize(&[0]).unwrap().len(), 0);
}

#[test]
fn empty_input_is_rejected() {
    assert_eq!(VariantList::deserialize(&[]).unwrap_err(), DecodeError::Malformed);
}

#[test]
fn truncated_input_is_rejected() {
    let bytes = VariantList::new(vec![Variant::String("hello".to_string())]).serialize();
    for cut in 1..bytes.len() {
        assert!(VariantList::deserialize(&bytes[..cut]).is_err(), "cut at {}", cut);
    }
    assert!(VariantList::deserialize(&[1, 0, 5, 1, 2]).is_err());
}

#[test]
fn string_longer_than_its_bytes_is_rejected() {
    assert!(VariantList::deserialize(&[1, 0, 2, 0xff, 0xff, 0xff, 0xff, b'a']).is_err());
}

#[test]
fn invalid_utf8_is_rejected() {
    assert!(VariantList::deserialize(&[1, 0, 2, 2, 0, 0, 0, 0xc3, 0x28]).is_err());
}

#[test]
fn unrecognised_type_reads_as_unknown_without_body() {
    let back = VariantList::deserialize(&[2, 0, 7, 1, 5, 9, 0, 0, 0]).unwrap();
    assert_eq!(back.len(), 2);
    assert!(matches!(back.get(0).unwrap(), Variant::Unknown));
    assert_eq!(back.get(1).unwrap().as_uint32(), 9);
}

#[test]
fn trailing_bytes_are_ignored() {
    let back = VariantList::deserialize(&[1, 0, 9, 1, 0, 0, 0, 42, 42]).unwrap();
    assert_eq!(back.len(), 1);
    assert_eq!(back.get(0).unwrap().as_int32(), 1);
}

#[test]
fn text_of_each_kind() {
    assert_eq!(Variant::String("x|y".to_string()).as_string(), "x|y");
    assert_eq!(Variant::Signed(-42).as_string(), "-42");
    assert_eq!(Variant::Unsigned(17242).as_string(), "17242");
    assert_eq!(Variant::Unknown.as_string(), "Unknown");
    assert_eq!(Variant::Vec2(1, 2).as_string(), "1, 2");
    assert_eq!(Variant::Vec3(1, 2, 3).as_string(), "1, 2, 3");
    assert_eq!(Variant::Float(7).as_string(), "7");
}

#[test]
fn accessors_give_zero_for_other_kinds() {
    assert_eq!(Variant::Signed(5).as_int32(), 5);
    assert_eq!(Variant::Unsigned(5).as_int32(), 0);
    assert_eq!(Variant::Unsigned(5).as_uint32(), 5);
    assert_eq!(Variant::Signed(5).as_uint32(), 0);
    assert_eq!(Variant::Vec2(3, 4).as_vec2(), (3, 4));
    assert_eq!(Variant::Unknown.as_vec2(), (0, 0));
}

#[test]
fn get_and_set() {
    let mut list = VariantList::new(vec![Variant::Signed(1)]);
    assert!(list.get(1).is_none());
    list.set(0, Variant::Signed(2));
    assert_eq!(list.get(0).unwrap().as_int32(), 2);
    list.set(5, Variant::Signed(3));
    assert_eq!(list.len(), 1);
}
