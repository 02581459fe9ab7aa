use eclip::{
    help_message, render_commands_help, render_help, ArgumentMeta, FieldKind, FieldSpec,
    OptionMeta, Scalar, Schema, ValueType,
};

fn s(t: &str) -> String {
    t.to_string()
}

fn schema(fields: Vec<FieldSpec>) -> Schema {
    Schema::new(fields).expect("schema should validate")
}

fn demo_schema() -> Schema {
    schema(vec![
        FieldSpec {
            name: s("quite"),
            kind: FieldKind::Opt(OptionMeta {
                short: Some(s("q")),
                long: None,
                default: None,
                help: Some(s("Quiet mode")),
            }),
            vt: ValueType::Single(Scalar::Bool),
        },
        FieldSpec {
            name: s("a"),
            kind: FieldKind::Arg(ArgumentMeta { help: Some(s("First number")) }),
            vt: ValueType::Single(Scalar::Int),
        },
        FieldSpec {
            name: s("b"),
            kind: FieldKind::Arg(ArgumentMeta { help: None }),
            vt: ValueType::Single(Scalar::Uint),
        },
    ])
}

#[test]
fn help_message_lists_the_two_universal_options() {
    let expected = format!(
        "  {:<30} {}\n  {:<30} {}",
        "--help", "Show this message.", "--version", "Show this version.",
    );
    assert_eq!(help_message(30), expected);
}

#[test]
fn help_message_keeps_long_labels_whole() {
    let expected = format!(
        "  {:<4} {}\n  {:<4} {}",
        "--help", "Show this message.", "--version", "Show this version.",
    );
    assert_eq!(help_message(4), expected);
}

#[test]
fn render_help_lays_out_usage_arguments_and_options() {
    let sch = demo_schema();
    let expected = format!(
        "USAGE:\n  ex cmd1 [OPTIONS] <a> <b>\n\nARGS:\n{}\n{}\n\nOPTIONS:\n{}\n{}",
        format!("  {:<30} {}", "<a>", "First number"),
        "  <b>",
        format!("  {:<30} {}", "-q", "Quiet mode"),
        help_message(30),
    );
    assert_eq!(render_help(&sch, &s("ex cmd1"), 30), expected);
}

#[test]
fn render_help_of_an_empty_schema_shows_options_alone() {
    let sch = schema(vec![]);
    let expected = format!("USAGE:\n  ex [OPTIONS]\n\nOPTIONS:\n{}", help_message(30));
    assert_eq!(render_help(&sch, &s("ex"), 30), expected);
}

#[test]
fn render_help_appends_an_uppercase_value_hint() {
    let sch = schema(vec![FieldSpec {
        name: s("count2"),
        kind: FieldKind::Opt(OptionMeta {
            short: Some(s("c")),
            long: Some(None),
            default: None,
            help: None,
        }),
        vt: ValueType::Single(Scalar::Uint),
    }]);
    let expected = format!(
        "USAGE:\n  ex [OPTIONS]\n\nOPTIONS:\n{}\n{}",
        "  -c --count2 <COUNT2>",
        help_message(30),
    );
    assert_eq!(render_help(&sch, &s("ex"), 30), expected);
}

#[test]
fn render_help_wraps_labels_at_the_padding_width() {
    let sch = schema(vec![FieldSpec {
        name: s("abc"),
        kind: FieldKind::Arg(ArgumentMeta { help: Some(s("H")) }),
        vt: ValueType::Single(Scalar::Str),
    }]);
    let expected = format!(
        "USAGE:\n  ex [OPTIONS] <abc>\n\nARGS:\n  <abc>\n  {:<4} H\n\nOPTIONS:\n{}",
        "",
        help_message(4),
    );
    assert_eq!(render_help(&sch, &s("ex"), 4), expected);
}

#[test]
fn rendering_twice_is_byte_identical() {
    let sch = demo_schema();
    let first = render_help(&sch, &s("ex"), 30);
    let second = render_help(&sch, &s("ex"), 30);
    assert_eq!(first, second);
    // Rendering consults no argument stream and no parse state: a parse in
    // between changes nothing.
    let _ = sch.parse_args(&vec![s("-q"), s("1"), s("2")]);
    let third = render_help(&sch, &s("ex"), 30);
    assert_eq!(first, third);
}

#[test]
fn render_commands_help_lists_the_commands() {
    let expected = format!(
        "USAGE:\n  ex COMMAND [OPTIONS] [ARGS]...\n\nOPTIONS:\n{}\n\nCOMMANDS:\n  cmd1\n  cmd2\n",
        help_message(30),
    );
    let got = render_commands_help(&s("ex"), 30, &vec![s("cmd1"), s("cmd2")]);
    assert_eq!(got, expected);
}
