//! The help renderer: usage text as a pure function of the schema.
//!
//! Rendering reads only the schema, the command path, and the padding
//! width — never the argument stream and never any parse state — so its
//! output is the same on every call. Labels shorter than the padding are
//! padded to it and followed by their help text; a label at least as long
//! as the padding keeps its line and the help text wraps to an indented
//! continuation line.

use vstd::prelude::*;

use crate::schema::{spec_keys, FieldKind, FieldSpec, Schema, SpecField, SpecFieldKind};
use crate::value::{Scalar, ValueType};

verus! {

/// A run of `n` spaces.
pub open spec fn spaces(n: nat) -> Seq<char>
    decreases n,
{
    if n == 0 {
        Seq::empty()
    } else {
        spaces((n - 1) as nat).push(' ')
    }
}

/// A label left-aligned in a column of the given width: padded with
/// trailing spaces when shorter, kept whole when not.
pub open spec fn spec_padded(label: Seq<char>, padding: nat) -> Seq<char> {
    if label.len() < padding {
        label + spaces((padding - label.len()) as nat)
    } else {
        label
    }
}

/// The given items joined by the separator.
pub open spec fn spec_join(items: Seq<Seq<char>>, sep: Seq<char>) -> Seq<char>
    decreases items.len(),
{
    if items.len() == 0 {
        Seq::empty()
    } else if items.len() == 1 {
        items[0]
    } else {
        spec_join(items.drop_last(), sep) + sep + items.last()
    }
}

/// A lowercase ASCII letter mapped to its uppercase form; any other
/// character kept as it is.
pub open spec fn spec_upper_char(c: char) -> char {
    if 'a' as int <= c as int && c as int <= 'z' as int {
        (c as int - 32) as char
    } else {
        c
    }
}

/// The string with each lowercase ASCII letter uppercased.
pub open spec fn spec_upper(s: Seq<char>) -> Seq<char> {
    s.map_values(|c: char| spec_upper_char(c))
}

/// One detail line of a help block: two leading spaces and the label; with
/// help text, the label is padded to the column width, or, where it fills
/// the column, the help text wraps to an indented continuation line.
pub open spec fn spec_detail_line(label: Seq<char>, help: Option<Seq<char>>, padding: nat) -> Seq<
    char,
> {
    match help {
        None => seq![' ', ' '] + label,
        Some(h) => if label.len() >= padding {
            seq![' ', ' '] + label + seq!['\n', ' ', ' '] + spaces(padding) + seq![' '] + h
        } else {
            seq![' ', ' '] + spec_padded(label, padding) + seq![' '] + h
        },
    }
}

/// The two universal option lines, `--help` and `--version`, aligned to
/// the given column width.
pub open spec fn spec_help_message(padding: nat) -> Seq<char> {
    seq![' ', ' '] + spec_padded("--help"@, padding) + seq![' '] + "Show this message."@ + seq![
        '\n',
        ' ',
        ' ',
    ] + spec_padded("--version"@, padding) + seq![' '] + "Show this version."@
}

/// Appends `n` spaces.
fn append_spaces(out: &mut String, n: usize)
    ensures
        final(out)@ == old(out)@ + spaces(n as nat),
{
    let mut i: usize = 0;
    while i < n
        invariant
            i <= n,
            out@ == old(out)@ + spaces(i as nat),
        decreases n - i,
    {
        out.append(" ");
        proof {
            reveal_strlit(" ");
            assert(out@ =~= old(out)@ + spaces((i + 1) as nat));
        }
        i += 1;
    }
}

/// Appends the label left-aligned in a column of the given width.
fn append_padded(out: &mut String, label: &String, padding: usize)
    ensures
        final(out)@ == old(out)@ + spec_padded(label@, padding as nat),
{
    let len = label.as_str().unicode_len();
    out.append(label.as_str());
    if len < padding {
        append_spaces(out, padding - len);
        proof {
            assert(out@ =~= old(out)@ + spec_padded(label@, padding as nat));
        }
    }
}

/// Builds one detail line of a help block.
fn detail_line(label: &String, help: &Option<String>, padding: usize) -> (r: String)
    ensures
        r@ == spec_detail_line(
            label@,
            match help {
                Some(h) => Some(h@),
                None => None,
            },
            padding as nat,
        ),
{
    let mut out = String::from_str("  ");
    proof {
        reveal_strlit("  ");
        assert(out@ =~= seq![' ', ' ']);
    }
    match help {
        None => {
            out.append(label.as_str());
        },
        Some(h) => {
            let len = label.as_str().unicode_len();
            if len >= padding {
                out.append(label.as_str());
                out.append("\n  ");
                proof {
                    reveal_strlit("\n  ");
                    assert("\n  "@ =~= seq!['\n', ' ', ' ']);
                }
                append_spaces(&mut out, padding);
                out.append(" ");
                proof {
                    reveal_strlit(" ");
                    assert(" "@ =~= seq![' ']);
                }
                out.append(h.as_str());
                proof {
                    assert(out@ =~= seq![' ', ' '] + label@ + seq!['\n', ' ', ' '] + spaces(
                        padding as nat,
                    ) + seq![' '] + h@);
                }
            } else {
                append_padded(&mut out, label, padding);
                out.append(" ");
                proof {
                    reveal_strlit(" ");
                    assert(" "@ =~= seq![' ']);
                }
                out.append(h.as_str());
                proof {
                    assert(out@ =~= seq![' ', ' '] + spec_padded(label@, padding as nat) + seq![' ']
                        + h@);
                }
            }
        },
    }
    out
}

/// The two universal option lines every help text ends with: `--help` and
/// `--version`, aligned to the given column width.
pub fn help_message(padding: usize) -> (r: String)
    ensures
        r@ == spec_help_message(padding as nat),
{
    let mut out = String::from_str("  ");
    proof {
        reveal_strlit("  ");
        assert(out@ =~= seq![' ', ' ']);
    }
    append_padded(&mut out, &String::from_str("--help"), padding);
    out.append(" Show this message.\n  ");
    proof {
        reveal_strlit(" Show this message.\n  ");
        reveal_strlit("Show this message.");
        reveal_strlit(" ");
        assert(" Show this message.\n  "@ =~= seq![' '] + "Show this message."@ + seq![
            '\n',
            ' ',
            ' ',
        ]);
    }
    append_padded(&mut out, &String::from_str("--version"), padding);
    out.append(" Show this version.");
    proof {
        reveal_strlit(" Show this version.");
        reveal_strlit("Show this version.");
        assert(" Show this version."@ =~= seq![' '] + "Show this version."@);
        assert(out@ =~= spec_help_message(padding as nat));
    }
    out
}

/// Joins the items with the separator.
fn join_strings(items: &Vec<String>, sep: &String) -> (r: String)
    ensures
        r@ == spec_join(items.deep_view(), sep@),
{
    let mut out = String::new();
    let mut i: usize = 0;
    while i < items.len()
        invariant
            i <= items@.len(),
            out@ == spec_join(items.deep_view().take(i as int), sep@),
        decreases items@.len() - i,
    {
        proof {
            assert(items.deep_view()[i as int] == items@[i as int]@);
        }
        if i > 0 {
            out.append(sep.as_str());
        }
        out.append(items[i].as_str());
        proof {
            let pre = items.deep_view().take(i as int);
            let post = items.deep_view().take(i + 1);
            assert(post.drop_last() =~= pre);
            assert(post.last() == items.deep_view()[i as int]);
            if i == 0 {
                assert(out@ =~= spec_join(post, sep@));
            } else {
                assert(out@ =~= spec_join(post, sep@));
            }
        }
        i += 1;
    }
    proof {
        assert(items.deep_view().take(items@.len() as int) =~= items.deep_view());
    }
    out
}

/// Uppercases each lowercase ASCII letter of the string.
fn upper_string(s: &String) -> (r: String)
    ensures
        r@ == spec_upper(s@),
{
    let mut out = String::new();
    let len = s.as_str().unicode_len();
    let mut i: usize = 0;
    while i < len
        invariant
            i <= len,
            len == s@.len(),
            out@ == spec_upper(s@.take(i as int)),
        decreases len - i,
    {
        let c = s.as_str().get_char(i);
        let u = c as u32;
        let up: char = if u >= 97 && u <= 122 {
            ((u - 32) as u8) as char
        } else {
            c
        };
        proof {
            assert(up == spec_upper_char(s@[i as int]));
        }
        push_char(&mut out, up);
        proof {
            assert(out@ =~= spec_upper(s@.take(i + 1))) by {
                assert(s@.take(i + 1).map_values(|ch: char| spec_upper_char(ch)) =~= s@.take(
                    i as int,
                ).map_values(|ch: char| spec_upper_char(ch)).push(spec_upper_char(s@[i as int])));
            }
        }
        i += 1;
    }
    proof {
        assert(s@.take(s@.len() as int) =~= s@);
    }
    out
}

/// Relies on `String::push`: appends exactly the one given character.
#[verifier::external_body]
fn push_char(s: &mut String, c: char)
    ensures
        final(s)@ == old(s)@.push(c),
{
    s.push(c)
}

/// The label of an argument field: the field name in angle brackets.
pub open spec fn spec_arg_label(name: Seq<char>) -> Seq<char> {
    seq!['<'] + name + seq!['>']
}

/// The value hint shown after a non-boolean option's keys: the field name
/// uppercased, in angle brackets.
pub open spec fn spec_value_hint(name: Seq<char>) -> Seq<char> {
    seq!['<'] + spec_upper(name) + seq!['>']
}

/// The label of an option's help line: its keys joined by spaces, followed
/// by a value hint unless the field is a plain boolean flag.
pub open spec fn spec_opt_label(f: SpecField) -> Seq<char> {
    let keys = spec_keys(f);
    let items = if f.vt == ValueType::Single(Scalar::Bool) {
        keys
    } else {
        keys.push(spec_value_hint(f.name))
    };
    spec_join(items, seq![' '])
}

/// The positional summary of the usage line: one ` <name>` per argument
/// field, in declaration order; empty without argument fields.
pub open spec fn spec_args_summary(fields: Seq<SpecField>) -> Seq<char>
    decreases fields.len(),
{
    if fields.len() == 0 {
        Seq::empty()
    } else {
        spec_args_summary(fields.drop_last()) + (
        if fields.last().kind is Arg {
            seq![' '] + spec_arg_label(fields.last().name)
        } else {
            Seq::empty()
        })
    }
}

/// The detail lines of the argument fields, in declaration order.
pub open spec fn spec_arg_lines(fields: Seq<SpecField>, padding: nat) -> Seq<Seq<char>>
    decreases fields.len(),
{
    if fields.len() == 0 {
        Seq::empty()
    } else {
        let p = spec_arg_lines(fields.drop_last(), padding);
        match fields.last().kind {
            SpecFieldKind::Arg(m) => p.push(
                spec_detail_line(spec_arg_label(fields.last().name), m.help, padding),
            ),
            SpecFieldKind::Opt(_) => p,
        }
    }
}

/// The detail lines of the option fields, in declaration order.
pub open spec fn spec_opt_lines(fields: Seq<SpecField>, padding: nat) -> Seq<Seq<char>>
    decreases fields.len(),
{
    if fields.len() == 0 {
        Seq::empty()
    } else {
        let p = spec_opt_lines(fields.drop_last(), padding);
        match fields.last().kind {
            SpecFieldKind::Opt(m) => p.push(
                spec_detail_line(spec_opt_label(fields.last()), m.help, padding),
            ),
            SpecFieldKind::Arg(_) => p,
        }
    }
}

/// The block listing the argument fields; empty without argument fields.
pub open spec fn spec_args_block(fields: Seq<SpecField>, padding: nat) -> Seq<char> {
    let lines = spec_arg_lines(fields, padding);
    if lines.len() == 0 {
        Seq::empty()
    } else {
        "\n\nARGS:\n"@ + spec_join(lines, seq!['\n'])
    }
}

/// The block listing the option fields; always present, since the two
/// universal options follow it.
pub open spec fn spec_opts_block(fields: Seq<SpecField>, padding: nat) -> Seq<char> {
    let lines = spec_opt_lines(fields, padding);
    if lines.len() == 0 {
        "\n\nOPTIONS:\n"@
    } else {
        "\n\nOPTIONS:\n"@ + spec_join(lines, seq!['\n']) + seq!['\n']
    }
}

/// The whole help text of a command: the usage line with the positional
/// summary, the argument block, the option block, and the two universal
/// option lines. A function of the schema, the command path, and the
/// padding width alone.
pub open spec fn spec_help(fields: Seq<SpecField>, command: Seq<char>, padding: nat) -> Seq<char> {
    "USAGE:\n  "@ + command + " [OPTIONS]"@ + spec_args_summary(fields) + spec_args_block(
        fields,
        padding,
    ) + spec_opts_block(fields, padding) + spec_help_message(padding)
}

/// Builds the label of an argument field.
fn arg_label(name: &String) -> (r: String)
    ensures
        r@ == spec_arg_label(name@),
{
    let mut out = String::from_str("<");
    proof {
        reveal_strlit("<");
        assert(out@ =~= seq!['<']);
    }
    out.append(name.as_str());
    out.append(">");
    proof {
        reveal_strlit(">");
        assert(">"@ =~= seq!['>']);
        assert(out@ =~= spec_arg_label(name@));
    }
    out
}

/// Builds the label of an option's help line.
fn opt_label(f: &FieldSpec) -> (r: String)
    ensures
        r@ == spec_opt_label(f@),
{
    let mut items = f.key_strings();
    let plain_flag = match f.vt {
        ValueType::Single(Scalar::Bool) => true,
        _ => false,
    };
    if !plain_flag {
        let mut hint = String::from_str("<");
        proof {
            reveal_strlit("<");
            assert(hint@ =~= seq!['<']);
        }
        let upper = upper_string(&f.name);
        hint.append(upper.as_str());
        hint.append(">");
        proof {
            reveal_strlit(">");
            assert(">"@ =~= seq!['>']);
            assert(hint@ =~= spec_value_hint(f@.name));
        }
        let ghost pre = items.deep_view();
        items.push(hint);
        proof {
            assert(items.deep_view() =~= pre.push(spec_value_hint(f@.name)));
        }
    }
    let sep = String::from_str(" ");
    proof {
        reveal_strlit(" ");
        assert(sep@ =~= seq![' ']);
    }
    join_strings(&items, &sep)
}

/// The help text of one field, whatever its role.
fn field_help(f: &FieldSpec) -> (r: &Option<String>)
    ensures
        match r {
            Some(h) => match f@.kind {
                SpecFieldKind::Opt(m) => m.help == Some(h@),
                SpecFieldKind::Arg(m) => m.help == Some(h@),
            },
            None => match f@.kind {
                SpecFieldKind::Opt(m) => m.help is None,
                SpecFieldKind::Arg(m) => m.help is None,
            },
        },
{
    match &f.kind {
        FieldKind::Opt(m) => &m.help,
        FieldKind::Arg(m) => &m.help,
    }
}

/// Renders the whole help text of a command with the given schema.
///
/// A pure function of the schema, the command path, and the padding width:
/// it never reads an argument stream and never touches parse state, so two
/// renderings of the same inputs are the same text.
pub fn render_help(schema: &Schema, command: &String, padding: usize) -> (r: String)
    ensures
        r@ == spec_help(schema@, command@, padding as nat),
{
    let ghost sf = schema@;
    let fields = &schema.fields;
    let mut out = String::from_str("USAGE:\n  ");
    proof {
        reveal_strlit("USAGE:\n  ");
    }
    out.append(command.as_str());
    out.append(" [OPTIONS]");
    proof {
        reveal_strlit(" [OPTIONS]");
    }
    let ghost usage = "USAGE:\n  "@ + command@ + " [OPTIONS]"@;

    // Positional summary: one ` <name>` per argument field.
    let mut i: usize = 0;
    while i < fields.len()
        invariant
            i <= fields@.len(),
            sf == schema@,
            fields == &schema.fields,
            out@ == usage + spec_args_summary(sf.take(i as int)),
        decreases fields@.len() - i,
    {
        proof {
            assert(sf[i as int] == fields@[i as int].deep_view());
            assert(sf.take(i + 1).drop_last() =~= sf.take(i as int));
        }
        match &fields[i].kind {
            FieldKind::Arg(_) => {
                out.append(" ");
                proof {
                    reveal_strlit(" ");
                    assert(" "@ =~= seq![' ']);
                }
                let label = arg_label(&fields[i].name);
                out.append(label.as_str());
                proof {
                    assert(out@ =~= usage + spec_args_summary(sf.take(i + 1)));
                }
            },
            FieldKind::Opt(_) => {
                proof {
                    assert(out@ =~= usage + spec_args_summary(sf.take(i + 1)));
                }
            },
        }
        i += 1;
    }
    proof {
        assert(sf.take(sf.len() as int) =~= sf);
    }

    // Argument and option detail lines, in declaration order.
    let mut arg_lines: Vec<String> = Vec::new();
    let mut opt_lines: Vec<String> = Vec::new();
    let mut i: usize = 0;
    while i < fields.len()
        invariant
            i <= fields@.len(),
            sf == schema@,
            fields == &schema.fields,
            arg_lines@.len() == spec_arg_lines(sf.take(i as int), padding as nat).len(),
            forall|k: int|
                0 <= k < arg_lines@.len() ==> #[trigger] arg_lines@[k]@ == spec_arg_lines(
                    sf.take(i as int),
                    padding as nat,
                )[k],
            opt_lines@.len() == spec_opt_lines(sf.take(i as int), padding as nat).len(),
            forall|k: int|
                0 <= k < opt_lines@.len() ==> #[trigger] opt_lines@[k]@ == spec_opt_lines(
                    sf.take(i as int),
                    padding as nat,
                )[k],
        decreases fields@.len() - i,
    {
        proof {
            assert(sf[i as int] == fields@[i as int].deep_view());
            assert(sf.take(i + 1).drop_last() =~= sf.take(i as int));
        }
        let f = &fields[i];
        let help = field_help(f);
        match &f.kind {
            FieldKind::Arg(_) => {
                let label = arg_label(&f.name);
                arg_lines.push(detail_line(&label, help, padding));
            },
            FieldKind::Opt(_) => {
                let label = opt_label(f);
                opt_lines.push(detail_line(&label, help, padding));
            },
        }
        i += 1;
    }
    proof {
        assert(sf.take(sf.len() as int) =~= sf);
        assert(arg_lines.deep_view() =~= spec_arg_lines(sf, padding as nat));
        assert(opt_lines.deep_view() =~= spec_opt_lines(sf, padding as nat));
    }

    let newline = String::from_str("\n");
    proof {
        reveal_strlit("\n");
        assert(newline@ =~= seq!['\n']);
    }
    let ghost with_summary = out@;
    if arg_lines.len() > 0 {
        out.append("\n\nARGS:\n");
        proof {
            reveal_strlit("\n\nARGS:\n");
        }
        let joined = join_strings(&arg_lines, &newline);
        out.append(joined.as_str());
    }
    proof {
        assert(out@ =~= with_summary + spec_args_block(sf, padding as nat));
    }
    let ghost with_args = out@;
    out.append("\n\nOPTIONS:\n");
    proof {
        reveal_strlit("\n\nOPTIONS:\n");
    }
    if opt_lines.len() > 0 {
        let joined = join_strings(&opt_lines, &newline);
        out.append(joined.as_str());
        out.append("\n");
    }
    proof {
        assert(out@ =~= with_args + spec_opts_block(sf, padding as nat));
    }
    let tail = help_message(padding);
    out.append(tail.as_str());
    proof {
        assert(out@ =~= spec_help(sf, command@, padding as nat));
    }
    out
}

/// The command list of a dispatcher's help text: one indented line per
/// command name, each ended by a newline.
pub open spec fn spec_command_lines(cmds: Seq<Seq<char>>) -> Seq<char>
    decreases cmds.len(),
{
    if cmds.len() == 0 {
        Seq::empty()
    } else {
        spec_command_lines(cmds.drop_last()) + seq![' ', ' '] + cmds.last() + seq!['\n']
    }
}

/// The help text a dispatcher shows when no command was named: a generic
/// usage line, the two universal option lines, and the list of its
/// commands.
pub open spec fn spec_commands_help(name: Seq<char>, padding: nat, cmds: Seq<Seq<char>>) -> Seq<
    char,
> {
    "USAGE:\n  "@ + name + " COMMAND [OPTIONS] [ARGS]...\n\nOPTIONS:\n"@ + spec_help_message(
        padding,
    ) + "\n\nCOMMANDS:\n"@ + spec_command_lines(cmds)
}

/// Renders the dispatcher's help text: usage, the universal options, and
/// one line per command name, ended by a newline.
pub fn render_commands_help(name: &String, padding: usize, cmds: &Vec<String>) -> (r: String)
    ensures
        r@ == spec_commands_help(name@, padding as nat, cmds.deep_view()),
{
    let mut out = String::from_str("USAGE:\n  ");
    proof {
        reveal_strlit("USAGE:\n  ");
    }
    out.append(name.as_str());
    out.append(" COMMAND [OPTIONS] [ARGS]...\n\nOPTIONS:\n");
    proof {
        reveal_strlit(" COMMAND [OPTIONS] [ARGS]...\n\nOPTIONS:\n");
    }
    let tail = help_message(padding);
    out.append(tail.as_str());
    out.append("\n\nCOMMANDS:\n");
    proof {
        reveal_strlit("\n\nCOMMANDS:\n");
    }
    let ghost header = out@;
    let mut i: usize = 0;
    while i < cmds.len()
        invariant
            i <= cmds@.len(),
            out@ == header + spec_command_lines(cmds.deep_view().take(i as int)),
        decreases cmds@.len() - i,
    {
        proof {
            assert(cmds.deep_view()[i as int] == cmds@[i as int]@);
            assert(cmds.deep_view().take(i + 1).drop_last() =~= cmds.deep_view().take(i as int));
        }
        out.append("  ");
        proof {
            reveal_strlit("  ");
            assert("  "@ =~= seq![' ', ' ']);
        }
        out.append(cmds[i].as_str());
        out.append("\n");
        proof {
            reveal_strlit("\n");
            assert("\n"@ =~= seq!['\n']);
            assert(out@ =~= header + spec_command_lines(cmds.deep_view().take(i + 1)));
        }
        i += 1;
    }
    proof {
        assert(cmds.deep_view().take(cmds@.len() as int) =~= cmds.deep_view());
        assert(out@ =~= spec_commands_help(name@, padding as nat, cmds.deep_view()));
    }
    out
}

} // verus!
