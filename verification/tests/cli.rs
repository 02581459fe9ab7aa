use eclip::{
    contains_token, entry_point, error_message, plan_dispatch, render_help, ArgumentMeta,
    DispatchPlan, EntryOutcome, FieldKind, FieldSpec, Helper, OptionMeta, ParseError, Scalar,
    ScalarValue, Schema, Value, ValueType, PARSE_FAILURE_EXIT_CODE,
};

fn s(t: &str) -> String {
    t.to_string()
}

fn toks(ts: &[&str]) -> Vec<String> {
    ts.iter().map(|t| s(t)).collect()
}

fn demo_schema() -> Schema {
    Schema::new(vec![
        FieldSpec {
            name: s("quite"),
            kind: FieldKind::Opt(OptionMeta {
                short: Some(s("q")),
                long: None,
                default: None,
                help: None,
            }),
            vt: ValueType::Single(Scalar::Bool),
        },
        FieldSpec {
            name: s("a"),
            kind: FieldKind::Arg(ArgumentMeta { help: None }),
            vt: ValueType::Single(Scalar::Int),
        },
    ])
    .expect("schema should validate")
}

#[test]
fn helper_command_joins_the_command_path() {
    let mut helper = Helper::new(toks(&[]), s("ex"), s("1.0"), false, 30);
    assert_eq!(helper.command(), "ex");
    helper.cmds.push(s("sub"));
    helper.cmds.push(s("cmd3"));
    assert_eq!(helper.command(), "ex sub cmd3");
}

#[test]
fn entry_point_renders_help_when_requested() {
    let sch = demo_schema();
    let mut helper = Helper::new(toks(&["-q", "5"]), s("ex"), s(""), true, 30);
    helper.cmds.push(s("cmd1"));
    match entry_point(&sch, &helper) {
        EntryOutcome::HelpText(h) => {
            assert_eq!(h, render_help(&sch, &s("ex cmd1"), 30));
        },
        _ => panic!("expected help text"),
    }
}

#[test]
fn entry_point_parses_when_help_is_not_requested() {
    let sch = demo_schema();
    let helper = Helper::new(toks(&["-q", "5"]), s("ex"), s(""), false, 30);
    match entry_point(&sch, &helper) {
        EntryOutcome::Parsed(vals) => {
            assert!(matches!(&vals[0], Value::Single(ScalarValue::Bool(true))));
            assert!(matches!(&vals[1], Value::Single(ScalarValue::Int(5))));
        },
        _ => panic!("expected a parsed record"),
    }
}

#[test]
fn entry_point_reports_the_parse_fault() {
    let sch = demo_schema();
    let helper = Helper::new(toks(&[]), s("ex"), s(""), false, 30);
    match entry_point(&sch, &helper) {
        EntryOutcome::Failed(e) => {
            assert!(matches!(e, ParseError::MissingArgument));
            assert_eq!(error_message(&e), "More arguments are needed.");
            assert_eq!(PARSE_FAILURE_EXIT_CODE, 128);
        },
        _ => panic!("expected a parse fault"),
    }
}

#[test]
fn error_messages_match_the_boundary_wording() {
    assert_eq!(
        error_message(&ParseError::MissingOptionValue(s("-c"))),
        "\"-c\" requires one argument",
    );
    assert_eq!(error_message(&ParseError::InvalidValue), "Invalid a value");
    assert_eq!(error_message(&ParseError::MissingArgument), "More arguments are needed.");
}

#[test]
fn contains_token_finds_exact_tokens() {
    let args = toks(&["prog", "--help", "x"]);
    assert!(contains_token(&args, &s("--help")));
    assert!(!contains_token(&args, &s("--version")));
    assert!(!contains_token(&toks(&[]), &s("--help")));
}

#[test]
fn a_single_command_runs_without_naming_it() {
    let names = toks(&["only"]);
    let args = toks(&["prog", "5"]);
    match plan_dispatch(&names, &args, 1) {
        DispatchPlan::Chosen { index, next_pos, consumed } => {
            assert_eq!(index, 0);
            assert_eq!(next_pos, 1);
            assert!(consumed.is_none());
        },
        _ => panic!("expected the single command to be chosen"),
    }
}

#[test]
fn a_named_command_is_chosen_and_consumed() {
    let names = toks(&["cmd1", "cmd2"]);
    let args = toks(&["prog", "cmd2", "5"]);
    match plan_dispatch(&names, &args, 1) {
        DispatchPlan::Chosen { index, next_pos, consumed } => {
            assert_eq!(index, 1);
            assert_eq!(next_pos, 2);
            assert_eq!(consumed.as_deref(), Some("cmd2"));
        },
        _ => panic!("expected the named command to be chosen"),
    }
}

#[test]
fn an_unknown_or_absent_command_owes_the_commands_help() {
    let names = toks(&["cmd1", "cmd2"]);
    assert!(matches!(
        plan_dispatch(&names, &toks(&["prog", "nope"]), 1),
        DispatchPlan::NoCommand
    ));
    assert!(matches!(plan_dispatch(&names, &toks(&["prog"]), 1), DispatchPlan::NoCommand));
}
