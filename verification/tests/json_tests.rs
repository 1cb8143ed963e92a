use azure_attest::{bytes_eq, find_field, parse_json_fields, JsonScalar};

#[test]
fn parses_flat_object_scalars() {
    let fields =
        parse_json_fields(b" { \"a\" : 1 , \"b\" : \"x\" , \"c\" : true , \"d\" : null } ")
            .unwrap();
    assert_eq!(fields.len(), 4);
    assert_eq!(fields[0].key, b"a".to_vec());
    assert!(matches!(fields[0].value, Some(JsonScalar::Uint(1))));
    assert!(matches!(fields[1].value, Some(JsonScalar::Str(ref s)) if s == b"x"));
    assert!(matches!(fields[2].value, Some(JsonScalar::Bool(true))));
    assert!(matches!(fields[3].value, Some(JsonScalar::Null)));
}

#[test]
fn parses_empty_object() {
    assert_eq!(parse_json_fields(b"{}").unwrap().len(), 0);
    assert_eq!(parse_json_fields(b" { } ").unwrap().len(), 0);
}

#[test]
fn skips_nested_values() {
    let fields =
        parse_json_fields(b"{\"a\":{\"x\":[1,{\"y\":\"}]\"}]},\"b\":[[],[1.5,-2,\"]\"]],\"c\":7}")
            .unwrap();
    assert_eq!(fields.len(), 3);
    assert!(fields[0].value.is_none());
    assert!(fields[1].value.is_none());
    assert!(matches!(fields[2].value, Some(JsonScalar::Uint(7))));
}

#[test]
fn skips_unsupported_scalars() {
    let fields = parse_json_fields(b"{\"a\":-1,\"b\":1.5,\"c\":1e3,\"d\":18446744073709551616}")
        .unwrap();
    assert!(fields.iter().all(|f| f.value.is_none()));
    let fields = parse_json_fields(b"{\"m\":18446744073709551615}").unwrap();
    assert!(matches!(fields[0].value, Some(JsonScalar::Uint(u64::MAX))));
}

#[test]
fn decodes_simple_string_escapes() {
    let fields = parse_json_fields(b"{\"a\":\"x\\n\\t\\\"\\\\\\/y\"}").unwrap();
    assert!(matches!(fields[0].value, Some(JsonScalar::Str(ref s)) if s == b"x\n\t\"\\/y"));
}

#[test]
fn rejects_malformed_documents() {
    assert!(parse_json_fields(b"").is_none());
    assert!(parse_json_fields(b"{").is_none());
    assert!(parse_json_fields(b"{\"a\":}").is_none());
    assert!(parse_json_fields(b"{\"a\":1,}").is_none());
    assert!(parse_json_fields(b"{\"a\" 1}").is_none());
    assert!(parse_json_fields(b"{\"a\":1}x").is_none());
    assert!(parse_json_fields(b"{\"a\":tru}").is_none());
    assert!(parse_json_fields(b"{\"a\":\"unterminated}").is_none());
    assert!(parse_json_fields(b"[1,2]").is_none());
    // a key holding a unicode escape, or a bad unicode escape in a value
    assert!(parse_json_fields(b"{\"\\u0041\":1}").is_none());
    assert!(parse_json_fields(b"{\"a\":\"\\uZZZZ\"}").is_none());
}

#[test]
fn skips_string_values_with_unicode_escapes() {
    let fields = parse_json_fields(b"{\"a\":\"\\u0041\",\"b\":7}").unwrap();
    assert_eq!(fields.len(), 2);
    assert!(fields[0].value.is_none());
    assert!(matches!(fields[1].value, Some(JsonScalar::Uint(7))));
}

#[test]
fn lookup_finds_first_member() {
    let fields = parse_json_fields(b"{\"a\":1,\"b\":2,\"a\":3}").unwrap();
    let idx = find_field(&fields, b"a").unwrap();
    assert_eq!(idx, 0);
    assert!(matches!(fields[idx].value, Some(JsonScalar::Uint(1))));
    assert!(find_field(&fields, b"missing").is_none());
}

#[test]
fn byte_string_equality() {
    assert!(bytes_eq(b"abc", b"abc"));
    assert!(!bytes_eq(b"abc", b"abd"));
    assert!(!bytes_eq(b"abc", b"ab"));
    assert!(bytes_eq(b"", b""));
}
