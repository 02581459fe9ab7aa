use eclip::{
    ArgumentMeta, FieldKind, FieldSpec, OptionMeta, ParseError, Scalar, ScalarValue, Schema,
    SchemaError, Value, ValueType,
};

fn s(t: &str) -> String {
    t.to_string()
}

fn toks(ts: &[&str]) -> Vec<String> {
    ts.iter().map(|t| s(t)).collect()
}

fn opt(name: &str, short: Option<&str>, vt: ValueType) -> FieldSpec {
    FieldSpec {
        name: s(name),
        kind: FieldKind::Opt(OptionMeta {
            short: short.map(s),
            long: None,
            default: None,
            help: None,
        }),
        vt,
    }
}

fn arg(name: &str, vt: ValueType) -> FieldSpec {
    FieldSpec {
        name: s(name),
        kind: FieldKind::Arg(ArgumentMeta::new()),
        vt,
    }
}

fn schema(fields: Vec<FieldSpec>) -> Schema {
    Schema::new(fields).expect("schema should validate")
}

fn as_int(v: &Value) -> i64 {
    match v {
        Value::Single(ScalarValue::Int(i)) => *i,
        _ => panic!("expected a single signed integer"),
    }
}

fn as_uint(v: &Value) -> u64 {
    match v {
        Value::Single(ScalarValue::Uint(u)) => *u,
        _ => panic!("expected a single unsigned integer"),
    }
}

fn as_bool(v: &Value) -> bool {
    match v {
        Value::Single(ScalarValue::Bool(b)) => *b,
        _ => panic!("expected a single boolean"),
    }
}

fn as_str(v: &Value) -> String {
    match v {
        Value::Single(ScalarValue::Str(t)) => t.clone(),
        _ => panic!("expected a single string"),
    }
}

#[test]
fn option_meta_keys_carry_their_dashes() {
    let bare = OptionMeta::new();
    assert!(bare.short.is_none());
    assert!(bare.long.is_none());
    assert!(bare.default.is_none());
    assert!(bare.help.is_none());
    assert!(bare.short_key().is_none());
    assert!(bare.long_key(&s("quite")).is_none());

    let m = OptionMeta {
        short: Some(s("q")),
        long: Some(None),
        ..OptionMeta::new()
    };
    assert_eq!(m.short_key().as_deref(), Some("-q"));
    assert_eq!(m.long_key(&s("quite")).as_deref(), Some("--quite"));

    let named = OptionMeta {
        long: Some(Some(s("quiet-mode"))),
        ..OptionMeta::new()
    };
    assert_eq!(named.long_key(&s("quite")).as_deref(), Some("--quiet-mode"));
    assert!(ArgumentMeta::new().help.is_none());
}

#[test]
fn num_args_counts_the_argument_fields() {
    let sch = schema(vec![
        opt("q", Some("q"), ValueType::Single(Scalar::Bool)),
        arg("a", ValueType::Single(Scalar::Int)),
        arg("b", ValueType::Single(Scalar::Uint)),
    ]);
    assert_eq!(sch.num_args(), 2);
}

#[test]
fn positional_tokens_bind_in_declaration_order() {
    let sch = schema(vec![
        arg("a", ValueType::Single(Scalar::Int)),
        arg("b", ValueType::Single(Scalar::Uint)),
    ]);
    let vals = sch.parse_args(&toks(&["5", "7"])).expect("parse should succeed");
    assert_eq!(as_int(&vals[0]), 5);
    assert_eq!(as_uint(&vals[1]), 7);
}

#[test]
fn option_key_precedes_positional_matching() {
    let sch = schema(vec![
        opt("quite", Some("q"), ValueType::Single(Scalar::Bool)),
        arg("a", ValueType::Single(Scalar::Int)),
    ]);
    let vals = sch.parse_args(&toks(&["-q", "5"])).expect("parse should succeed");
    assert!(as_bool(&vals[0]));
    assert_eq!(as_int(&vals[1]), 5);
}

#[test]
fn boolean_option_consumes_no_following_token() {
    let sch = schema(vec![opt("quite", Some("q"), ValueType::Single(Scalar::Bool))]);
    let vals = sch.parse_args(&toks(&["-q", "5"])).expect("parse should succeed");
    assert!(as_bool(&vals[0]));
    assert_eq!(vals.len(), 1);
}

#[test]
fn missing_positional_input_is_fatal() {
    let sch = schema(vec![arg("a", ValueType::Single(Scalar::Int))]);
    let err = sch.parse_args(&toks(&[])).expect_err("parse should fail");
    assert!(matches!(err, ParseError::MissingArgument));
    assert_eq!(eclip::PARSE_FAILURE_EXIT_CODE, 128);
}

#[test]
fn option_missing_its_value_is_fatal() {
    let sch = schema(vec![opt("c", Some("c"), ValueType::Single(Scalar::Int))]);
    let err = sch.parse_args(&toks(&["-c"])).expect_err("parse should fail");
    match err {
        ParseError::MissingOptionValue(k) => assert_eq!(k, "-c"),
        _ => panic!("expected the missing-option-value fault"),
    }
}

#[test]
fn repeated_option_accumulates_in_encounter_order() {
    let sch = schema(vec![opt("v", Some("v"), ValueType::Repeated(Scalar::Bool))]);
    let vals = sch.parse_args(&toks(&["-v", "-v", "-v"])).expect("parse should succeed");
    match &vals[0] {
        Value::Repeated(l) => {
            assert_eq!(l.len(), 3);
            for item in l {
                assert!(matches!(item, ScalarValue::Bool(true)));
            }
        },
        _ => panic!("expected a repeated value"),
    }
}

#[test]
fn repeated_int_option_keeps_encounter_order() {
    let sch = schema(vec![opt("n", Some("n"), ValueType::Repeated(Scalar::Int))]);
    let vals = sch.parse_args(&toks(&["-n", "3", "-n", "1", "-n", "2"])).expect("parse");
    match &vals[0] {
        Value::Repeated(l) => {
            let got: Vec<i64> = l
                .iter()
                .map(|v| match v {
                    ScalarValue::Int(i) => *i,
                    _ => panic!("expected signed integers"),
                })
                .collect();
            assert_eq!(got, vec![3, 1, 2]);
        },
        _ => panic!("expected a repeated value"),
    }
}

#[test]
fn optional_option_overwrites_on_repeat() {
    let sch = schema(vec![opt("o", Some("o"), ValueType::Optional(Scalar::Int))]);
    let vals = sch.parse_args(&toks(&["-o", "1", "-o", "2"])).expect("parse should succeed");
    match &vals[0] {
        Value::Optional(Some(ScalarValue::Int(i))) => assert_eq!(*i, 2),
        _ => panic!("expected a present optional integer"),
    }
}

#[test]
fn optional_option_absent_stays_none() {
    let sch = schema(vec![opt("o", Some("o"), ValueType::Optional(Scalar::Int))]);
    let vals = sch.parse_args(&toks(&[])).expect("parse should succeed");
    assert!(matches!(&vals[0], Value::Optional(None)));
}

#[test]
fn declared_default_applies_when_option_is_absent() {
    let sch = schema(vec![FieldSpec {
        name: s("c"),
        kind: FieldKind::Opt(OptionMeta {
            short: Some(s("c")),
            long: None,
            default: Some(ScalarValue::Int(10)),
            help: None,
        }),
        vt: ValueType::Single(Scalar::Int),
    }]);
    let vals = sch.parse_args(&toks(&[])).expect("parse should succeed");
    assert_eq!(as_int(&vals[0]), 10);
    let vals = sch.parse_args(&toks(&["-c", "3"])).expect("parse should succeed");
    assert_eq!(as_int(&vals[0]), 3);
}

#[test]
fn default_applies_when_the_flag_is_absent_from_a_busy_stream() {
    let sch = schema(vec![
        FieldSpec {
            name: s("c"),
            kind: FieldKind::Opt(OptionMeta {
                short: Some(s("c")),
                long: None,
                default: Some(ScalarValue::Int(10)),
                help: None,
            }),
            vt: ValueType::Single(Scalar::Int),
        },
        arg("a", ValueType::Single(Scalar::Int)),
    ]);
    let vals = sch.parse_args(&toks(&["5"])).expect("parse should succeed");
    assert_eq!(as_int(&vals[0]), 10);
    assert_eq!(as_int(&vals[1]), 5);
}

#[test]
fn zero_values_apply_without_declared_default() {
    let sch = schema(vec![
        opt("b", Some("b"), ValueType::Single(Scalar::Bool)),
        opt("i", Some("i"), ValueType::Single(Scalar::Int)),
        opt("u", Some("u"), ValueType::Single(Scalar::Uint)),
        opt("s", Some("s"), ValueType::Single(Scalar::Str)),
        opt("r", Some("r"), ValueType::Repeated(Scalar::Int)),
    ]);
    let vals = sch.parse_args(&toks(&[])).expect("parse should succeed");
    assert!(!as_bool(&vals[0]));
    assert_eq!(as_int(&vals[1]), 0);
    assert_eq!(as_uint(&vals[2]), 0);
    assert_eq!(as_str(&vals[3]), "");
    assert!(matches!(&vals[4], Value::Repeated(l) if l.is_empty()));
}

#[test]
fn invalid_integer_value_is_fatal() {
    let sch = schema(vec![opt("c", Some("c"), ValueType::Single(Scalar::Int))]);
    let err = sch.parse_args(&toks(&["-c", "abc"])).expect_err("parse should fail");
    assert!(matches!(err, ParseError::InvalidValue));
}

#[test]
fn invalid_boolean_positional_is_fatal() {
    let sch = schema(vec![arg("flag", ValueType::Single(Scalar::Bool))]);
    let err = sch.parse_args(&toks(&["yes"])).expect_err("parse should fail");
    assert!(matches!(err, ParseError::InvalidValue));
    let vals = sch.parse_args(&toks(&["true"])).expect("parse should succeed");
    assert!(as_bool(&vals[0]));
    let vals = sch.parse_args(&toks(&["false"])).expect("parse should succeed");
    assert!(!as_bool(&vals[0]));
}

#[test]
fn excess_positional_tokens_are_ignored() {
    // The scanner drops positional tokens beyond the declared argument
    // fields instead of failing.
    let sch = schema(vec![arg("a", ValueType::Single(Scalar::Int))]);
    let vals = sch.parse_args(&toks(&["1", "2"])).expect("parse should succeed");
    assert_eq!(vals.len(), 1);
    assert_eq!(as_int(&vals[0]), 1);
}

#[test]
fn derived_long_key_matches_field_name() {
    let sch = schema(vec![opt("verbose", None, ValueType::Single(Scalar::Bool))]);
    let vals = sch.parse_args(&toks(&["--verbose"])).expect("parse should succeed");
    assert!(as_bool(&vals[0]));
}

#[test]
fn declared_short_and_long_keys_resolve_to_the_same_field() {
    let sch = schema(vec![FieldSpec {
        name: s("num"),
        kind: FieldKind::Opt(OptionMeta {
            short: Some(s("n")),
            long: Some(Some(s("number"))),
            default: None,
            help: None,
        }),
        vt: ValueType::Single(Scalar::Int),
    }]);
    let vals = sch.parse_args(&toks(&["-n", "3"])).expect("parse should succeed");
    assert_eq!(as_int(&vals[0]), 3);
    let vals = sch.parse_args(&toks(&["--number", "4"])).expect("parse should succeed");
    assert_eq!(as_int(&vals[0]), 4);
}

#[test]
fn bare_long_declaration_uses_the_field_name() {
    let sch = schema(vec![FieldSpec {
        name: s("count"),
        kind: FieldKind::Opt(OptionMeta {
            short: None,
            long: Some(None),
            default: None,
            help: None,
        }),
        vt: ValueType::Single(Scalar::Uint),
    }]);
    let vals = sch.parse_args(&toks(&["--count", "8"])).expect("parse should succeed");
    assert_eq!(as_uint(&vals[0]), 8);
}

#[test]
fn unrecognized_key_shaped_token_is_positional() {
    let sch = schema(vec![arg("a", ValueType::Single(Scalar::Str))]);
    let vals = sch.parse_args(&toks(&["-x"])).expect("parse should succeed");
    assert_eq!(as_str(&vals[0]), "-x");
}

#[test]
fn integer_edge_values_parse_exactly() {
    let sch = schema(vec![
        opt("i", Some("i"), ValueType::Single(Scalar::Int)),
        opt("u", Some("u"), ValueType::Single(Scalar::Uint)),
    ]);
    let vals = sch
        .parse_args(&toks(&["-i", "-9223372036854775808", "-u", "18446744073709551615"]))
        .expect("parse should succeed");
    assert_eq!(as_int(&vals[0]), i64::MIN);
    assert_eq!(as_uint(&vals[1]), u64::MAX);

    let vals = sch
        .parse_args(&toks(&["-i", "+42", "-u", "+7"]))
        .expect("parse should succeed");
    assert_eq!(as_int(&vals[0]), 42);
    assert_eq!(as_uint(&vals[1]), 7);

    let err = sch
        .parse_args(&toks(&["-i", "9223372036854775808"]))
        .expect_err("overflow should fail");
    assert!(matches!(err, ParseError::InvalidValue));
    let err = sch
        .parse_args(&toks(&["-u", "18446744073709551616"]))
        .expect_err("overflow should fail");
    assert!(matches!(err, ParseError::InvalidValue));
    let err = sch.parse_args(&toks(&["-u", "-1"])).expect_err("sign should fail");
    assert!(matches!(err, ParseError::InvalidValue));
    let err = sch.parse_args(&toks(&["-i", "+"])).expect_err("bare sign should fail");
    assert!(matches!(err, ParseError::InvalidValue));
    let err = sch.parse_args(&toks(&["-i", ""])).expect_err("empty should fail");
    assert!(matches!(err, ParseError::InvalidValue));
}

#[test]
fn string_option_passes_its_token_through() {
    let sch = schema(vec![opt("s", Some("s"), ValueType::Single(Scalar::Str))]);
    let vals = sch.parse_args(&toks(&["-s", "hello world"])).expect("parse should succeed");
    assert_eq!(as_str(&vals[0]), "hello world");
}

#[test]
fn schema_rejects_colliding_keys() {
    let err = Schema::new(vec![
        opt("x", Some("x"), ValueType::Single(Scalar::Bool)),
        opt("other", Some("x"), ValueType::Single(Scalar::Int)),
    ])
    .expect_err("validation should fail");
    match err {
        SchemaError::DuplicateKey(k) => assert_eq!(k, "-x"),
        _ => panic!("expected the duplicate-key fault"),
    }
}

#[test]
fn schema_rejects_collision_of_declared_and_derived_keys() {
    let err = Schema::new(vec![
        opt("q", None, ValueType::Single(Scalar::Bool)),
        FieldSpec {
            name: s("quiet"),
            kind: FieldKind::Opt(OptionMeta {
                short: None,
                long: Some(Some(s("q"))),
                default: None,
                help: None,
            }),
            vt: ValueType::Single(Scalar::Bool),
        },
    ])
    .expect_err("validation should fail");
    match err {
        SchemaError::DuplicateKey(k) => assert_eq!(k, "--q"),
        _ => panic!("expected the duplicate-key fault"),
    }
}

#[test]
fn schema_rejects_default_of_the_wrong_kind() {
    let err = Schema::new(vec![FieldSpec {
        name: s("c"),
        kind: FieldKind::Opt(OptionMeta {
            short: Some(s("c")),
            long: None,
            default: Some(ScalarValue::Bool(true)),
            help: None,
        }),
        vt: ValueType::Single(Scalar::Int),
    }])
    .expect_err("validation should fail");
    match err {
        SchemaError::InvalidDefault(n) => assert_eq!(n, "c"),
        _ => panic!("expected the invalid-default fault"),
    }
}
