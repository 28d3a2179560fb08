use vec_or_one::option_vec_or_one;
use vec_or_one::vec_or_one::{collect_members, deserialize, deserialize_field, serialize};
use vec_or_one::vec_or_one::{DecodeError, VecOrOne};

#[derive(Debug, Clone, PartialEq)]
struct Inner {
    pub item: String,
}

fn inner(s: &str) -> Inner {
    Inner {
        item: s.to_string(),
    }
}

fn one_of<T>(shape: VecOrOne<T>) -> Option<T> {
    match shape {
        VecOrOne::One(t) => Some(t),
        VecOrOne::Vec(_) => None,
    }
}

fn vec_of<T>(shape: VecOrOne<T>) -> Option<Vec<T>> {
    match shape {
        VecOrOne::Vec(v) => Some(v),
        VecOrOne::One(_) => None,
    }
}

#[test]
fn deserialize_none_test() {
    let result = option_vec_or_one::deserialize::<Inner>(None);
    assert_eq!(result, None);
}

#[test]
fn serialize_none_test() {
    let result = option_vec_or_one::serialize::<Inner>(None);
    assert!(result.is_none());
}

#[test]
fn deserialize_vec_or_one_single() {
    let items = vec![inner("value")];
    let result = deserialize(VecOrOne::One(inner("value")));
    assert_eq!(items, result);
}

#[test]
fn deserialize_vec_or_one_multple() {
    let items = vec![inner("value"), inner("value")];
    let result = deserialize(VecOrOne::Vec(vec![inner("value"), inner("value")]));
    assert_eq!(items, result);
}

#[test]
fn serialize_vec_or_one() {
    let items = vec![inner("value 1")];
    let result = one_of(serialize(items));
    assert!(result.is_some());
    assert_eq!(result.unwrap(), inner("value 1"));
}

#[test]
fn serialize_vec_or_one_multiple() {
    let items = vec![inner("value 1"), inner("value 2"), inner("value 3")];
    let result = vec_of(serialize(items));
    assert!(result.is_some());
    assert_eq!(
        result.unwrap(),
        vec![inner("value 1"), inner("value 2"), inner("value 3")]
    );
}

#[test]
fn serialize_empty_stays_array() {
    let result = vec_of(serialize(Vec::<Inner>::new()));
    assert_eq!(result, Some(vec![]));
}

#[test]
fn deserialize_empty_array_is_empty() {
    let result = deserialize(VecOrOne::Vec(Vec::<u32>::new()));
    assert!(result.is_empty());
}

#[test]
fn one_element_array_collapses_on_encode() {
    let decoded = deserialize(VecOrOne::Vec(vec![inner("x")]));
    assert_eq!(decoded, vec![inner("x")]);
    assert_eq!(one_of(serialize(decoded)), Some(inner("x")));
}

#[test]
fn two_elements_keep_order_on_encode() {
    assert_eq!(vec_of(serialize(vec![2u8, 1u8])), Some(vec![2u8, 1u8]));
}

#[test]
fn reencode_gives_same_values() {
    for node in [VecOrOne::One(5u32), VecOrOne::Vec(vec![5u32]), VecOrOne::Vec(vec![]), VecOrOne::Vec(vec![1, 2, 3])] {
        let first = deserialize(node);
        let again = deserialize(serialize(first.clone()));
        assert_eq!(again, first);
    }
}

#[test]
fn field_scalar_decodes_to_one_value() {
    let r = deserialize_field::<u32, String>(Some(VecOrOne::One(Ok(4))));
    assert!(matches!(r, Ok(ref v) if v == &vec![4]));
}

#[test]
fn field_array_decodes_in_order() {
    let r = deserialize_field::<u32, String>(Some(VecOrOne::Vec(vec![Ok(3), Ok(1), Ok(2)])));
    assert!(matches!(r, Ok(ref v) if v == &vec![3, 1, 2]));
}

#[test]
fn field_missing_is_missing_field() {
    let r = deserialize_field::<u32, String>(None);
    assert!(matches!(r, Err(DecodeError::MissingField)));
}

#[test]
fn field_scalar_failure_propagates() {
    let r = deserialize_field::<u32, String>(Some(VecOrOne::One(Err("bad".to_string()))));
    assert!(matches!(r, Err(DecodeError::Element(ref e)) if e == "bad"));
}

#[test]
fn field_first_member_failure_wins() {
    let members = vec![Ok(1u32), Err("second".to_string()), Err("third".to_string())];
    let r = deserialize_field(Some(VecOrOne::Vec(members)));
    assert!(matches!(r, Err(DecodeError::Element(ref e)) if e == "second"));
}

#[test]
fn collect_members_empty_is_ok() {
    let r = collect_members::<u8, u8>(vec![]);
    assert_eq!(r, Ok(vec![]));
}

#[test]
fn optional_absent_decodes_to_none() {
    let r = option_vec_or_one::deserialize_field::<u32, String>(None);
    assert!(matches!(r, Ok(None)));
}

#[test]
fn optional_empty_array_is_present_and_empty() {
    let r = option_vec_or_one::deserialize_field::<u32, String>(Some(VecOrOne::Vec(vec![])));
    assert!(matches!(r, Ok(Some(ref v)) if v.is_empty()));
    assert_eq!(option_vec_or_one::deserialize(Some(VecOrOne::Vec(Vec::<u8>::new()))), Some(vec![]));
}

#[test]
fn optional_present_delegates() {
    let r = option_vec_or_one::deserialize_field::<u32, String>(Some(VecOrOne::One(Ok(9))));
    assert!(matches!(r, Ok(Some(ref v)) if v == &vec![9]));
    let bad = option_vec_or_one::deserialize_field::<u32, String>(Some(VecOrOne::Vec(vec![Err("e".to_string())])));
    assert!(matches!(bad, Err(DecodeError::Element(ref e)) if e == "e"));
    assert_eq!(option_vec_or_one::deserialize(Some(VecOrOne::One(7u8))), Some(vec![7u8]));
}

#[test]
fn optional_present_encodes_like_mandatory() {
    let single = option_vec_or_one::serialize(Some(vec![inner("a")])).map(one_of);
    assert_eq!(single, Some(Some(inner("a"))));
    let many = option_vec_or_one::serialize(Some(vec![1u8, 2u8])).map(vec_of);
    assert_eq!(many, Some(Some(vec![1u8, 2u8])));
    let empty = option_vec_or_one::serialize(Some(Vec::<u8>::new())).map(vec_of);
    assert_eq!(empty, Some(Some(vec![])));
}
