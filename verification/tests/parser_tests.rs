use onto_turtle::parser::{
    parse_raw, parse_to_predicate, ExtractResult, Individual, ParseError, RawObj, RawType,
};

fn individual(data: Vec<u8>) -> Individual {
    Individual {
        raw: RawObj { data, raw_type: RawType::Unknown },
        uri: String::new(),
    }
}

#[test]
fn magic_byte_selects_msgpack() {
    let mut i = individual(vec![146, 1, 2]);
    let r = parse_raw(&mut i, Some("u:1".to_string()));
    assert_eq!(r, Ok(()));
    assert_eq!(i.raw.raw_type, RawType::Msgpack);
    assert_eq!(i.uri, "u:1");
}

#[test]
fn any_other_byte_selects_cbor() {
    let mut i = individual(vec![0, 1, 2]);
    let r = parse_raw(&mut i, Some("u:2".to_string()));
    assert_eq!(r, Ok(()));
    assert_eq!(i.raw.raw_type, RawType::Cbor);
    assert_eq!(i.uri, "u:2");

    let mut j = individual(vec![77]);
    assert_eq!(parse_raw(&mut j, Some("u:3".to_string())), Ok(()));
    assert_eq!(j.raw.raw_type, RawType::Cbor);
}

#[test]
fn empty_buffer_is_empty_input_and_tag_stays_unset() {
    let mut i = individual(Vec::new());
    let r = parse_raw(&mut i, Some("u:4".to_string()));
    assert_eq!(r, Err(ParseError::EmptyInput));
    assert_eq!(i.raw.raw_type, RawType::Unknown);
    assert_eq!(i.uri, "");
}

#[test]
fn failed_decode_is_decode_error() {
    let mut i = individual(vec![146]);
    let r = parse_raw(&mut i, None);
    assert_eq!(r, Err(ParseError::DecodeError));
    assert_eq!(i.raw.raw_type, RawType::Msgpack);
    assert_eq!(i.uri, "");
}

#[test]
fn msgpack_extraction_success_is_found() {
    let mut i = individual(vec![146]);
    parse_raw(&mut i, Some("u".to_string())).unwrap();
    let (found, diag) = parse_to_predicate("p", &i, ExtractResult::Msgpack(Ok(())));
    assert!(found);
    assert_eq!(diag, None);
}

#[test]
fn msgpack_empty_message_is_silent_absence() {
    let mut i = individual(vec![146]);
    parse_raw(&mut i, Some("u".to_string())).unwrap();
    let (found, diag) =
        parse_to_predicate("p", &i, ExtractResult::Msgpack(Err(String::new())));
    assert!(!found);
    assert_eq!(diag, None);
}

#[test]
fn msgpack_nonempty_message_is_reported() {
    let mut i = individual(vec![146]);
    parse_raw(&mut i, Some("u".to_string())).unwrap();
    let (found, diag) =
        parse_to_predicate("p", &i, ExtractResult::Msgpack(Err("boom".to_string())));
    assert!(!found);
    assert_eq!(diag, Some("parse for [p], err=boom".to_string()));
}

#[test]
fn cbor_boolean_passes_straight_through() {
    let mut i = individual(vec![0]);
    parse_raw(&mut i, Some("u".to_string())).unwrap();
    let (found, diag) = parse_to_predicate("p", &i, ExtractResult::Cbor(true));
    assert!(found);
    assert_eq!(diag, None);
    let (found2, diag2) = parse_to_predicate("p", &i, ExtractResult::Cbor(false));
    assert!(!found2);
    assert_eq!(diag2, None);
}

#[test]
fn unset_tag_never_finds() {
    let i = individual(vec![146]);
    // parse_raw was never run: the tag is still Unknown
    let (found, diag) = parse_to_predicate("p", &i, ExtractResult::Msgpack(Ok(())));
    assert!(!found);
    assert_eq!(diag, None);
    let (found2, _) = parse_to_predicate("p", &i, ExtractResult::Cbor(true));
    assert!(!found2);
}

#[test]
fn mismatched_outcome_shape_never_finds() {
    let mut i = individual(vec![146]);
    parse_raw(&mut i, Some("u".to_string())).unwrap();
    // the record is tagged MessagePack, but a CBOR outcome is handed in
    let (found, diag) = parse_to_predicate("p", &i, ExtractResult::Cbor(true));
    assert!(!found);
    assert_eq!(diag, None);
}
