//! The command-line boundary: per-invocation context and dispatch rules.
//!
//! A [`Helper`] carries what one command invocation needs: the unconsumed
//! argument stream, whether help was requested upstream, the command path
//! for the usage line, the version string, and the help padding width.
//! [`entry_point`] is the two-way switch of a command: render help, or scan
//! the stream. [`plan_dispatch`] is the rule by which a dispatcher picks
//! the command an argument stream names. Process I/O and exiting stay
//! outside the library; [`error_message`] and [`PARSE_FAILURE_EXIT_CODE`]
//! say what the boundary reports when a parse fails.

use vstd::prelude::*;

use crate::coerce::{ParseError, SpecParseError};
use crate::help::{render_help, spec_help};
use crate::scan::spec_parse;
use crate::schema::Schema;
use crate::value::{SpecValue, Value};

verus! {

/// The process exit code of every parse fault.
pub const PARSE_FAILURE_EXIT_CODE: i32 = 128;

/// The command path shown in a usage line: the program name followed by
/// each consumed command name, space-separated.
pub open spec fn spec_command_path(name: Seq<char>, cmds: Seq<Seq<char>>) -> Seq<char>
    decreases cmds.len(),
{
    if cmds.len() == 0 {
        name
    } else {
        spec_command_path(name, cmds.drop_last()) + seq![' '] + cmds.last()
    }
}

/// Read-only context of one command invocation.
#[derive(Debug)]
pub struct Helper {
    /// The unconsumed argument stream handed to the command.
    pub args: Vec<String>,
    /// Whether help was requested upstream; when set, the scanner is
    /// bypassed.
    pub help: bool,
    /// The program name.
    pub name: String,
    /// The command names consumed on the way to this command.
    pub cmds: Vec<String>,
    /// The version string shown by `--version`.
    pub version: String,
    /// The column width for help alignment.
    pub padding: usize,
}

impl Helper {
    /// A fresh context with an empty command path.
    pub fn new(args: Vec<String>, name: String, version: String, help: bool, padding: usize) -> (r:
        Self)
        ensures
            r.args == args,
            r.help == help,
            r.name == name,
            r.cmds@.len() == 0,
            r.version == version,
            r.padding == padding,
    {
        Self { args, help, name, cmds: Vec::new(), version, padding }
    }

    /// The full command path: the program name followed by each consumed
    /// command name.
    pub fn command(&self) -> (r: String)
        ensures
            r@ == spec_command_path(self.name@, self.cmds.deep_view()),
    {
        let mut out = self.name.clone();
        let mut i: usize = 0;
        while i < self.cmds.len()
            invariant
                i <= self.cmds@.len(),
                out@ == spec_command_path(self.name@, self.cmds.deep_view().take(i as int)),
            decreases self.cmds@.len() - i,
        {
            proof {
                assert(self.cmds.deep_view()[i as int] == self.cmds@[i as int]@);
                assert(self.cmds.deep_view().take(i + 1).drop_last() =~= self.cmds.deep_view().take(
                    i as int,
                ));
            }
            out.append(" ");
            proof {
                reveal_strlit(" ");
                assert(" "@ =~= seq![' ']);
            }
            out.append(self.cmds[i].as_str());
            proof {
                assert(out@ =~= spec_command_path(
                    self.name@,
                    self.cmds.deep_view().take(i + 1),
                ));
            }
            i += 1;
        }
        proof {
            assert(self.cmds.deep_view().take(self.cmds@.len() as int) =~= self.cmds.deep_view());
        }
        out
    }
}

/// What one command invocation comes to.
#[derive(Debug)]
pub enum EntryOutcome {
    /// Help was requested: the rendered help text, to be printed.
    HelpText(String),
    /// The stream parsed: one value per declared field.
    Parsed(Vec<Value>),
    /// The parse failed: the fault, to be reported with exit code
    /// [`PARSE_FAILURE_EXIT_CODE`].
    Failed(ParseError),
}

/// The two-way switch of a command invocation: with help requested the
/// help text is rendered from the schema and the command path, and the
/// argument stream is never consulted; otherwise the stream is scanned
/// against the schema.
pub fn entry_point(schema: &Schema, helper: &Helper) -> (r: EntryOutcome)
    ensures
        helper.help ==> (r matches EntryOutcome::HelpText(h) && h@ == spec_help(
            schema@,
            spec_command_path(helper.name@, helper.cmds.deep_view()),
            helper.padding as nat,
        )),
        !helper.help ==> match r {
            EntryOutcome::Parsed(vals) => spec_parse(schema@, helper.args.deep_view()) == Ok::<
                Seq<SpecValue>,
                SpecParseError,
            >(vals.deep_view()),
            EntryOutcome::Failed(e) => spec_parse(schema@, helper.args.deep_view()) == Err::<
                Seq<SpecValue>,
                SpecParseError,
            >(e@),
            EntryOutcome::HelpText(_) => false,
        },
{
    if helper.help {
        let command = helper.command();
        EntryOutcome::HelpText(render_help(schema, &command, helper.padding))
    } else {
        match schema.parse_args(&helper.args) {
            Ok(vals) => EntryOutcome::Parsed(vals),
            Err(e) => EntryOutcome::Failed(e),
        }
    }
}

/// Whether some token of the stream equals the given one.
pub fn contains_token(args: &Vec<String>, tok: &String) -> (r: bool)
    ensures
        r == args.deep_view().contains(tok@),
{
    let mut i: usize = 0;
    while i < args.len()
        invariant
            i <= args@.len(),
            forall|k: int| 0 <= k < i ==> args.deep_view()[k] != tok@,
        decreases args@.len() - i,
    {
        if args[i] == *tok {
            proof {
                assert(args.deep_view()[i as int] == tok@);
            }
            return true;
        }
        i += 1;
    }
    proof {
        assert(forall|k: int| 0 <= k < args.deep_view().len() ==> args.deep_view()[k] != tok@);
    }
    false
}

/// The first name of the list equal to the token, from position `i` on.
pub open spec fn spec_find_name_from(names: Seq<Seq<char>>, tok: Seq<char>, i: nat) -> Option<int>
    decreases names.len() - i,
{
    if i >= names.len() {
        None
    } else if names[i as int] == tok {
        Some(i as int)
    } else {
        spec_find_name_from(names, tok, i + 1)
    }
}

/// The first name of the list equal to the token.
pub open spec fn spec_find_name(names: Seq<Seq<char>>, tok: Seq<char>) -> Option<int> {
    spec_find_name_from(names, tok, 0)
}

/// Finds the first name of the list equal to the token.
fn find_name(names: &Vec<String>, tok: &String) -> (r: Option<usize>)
    ensures
        match r {
            Some(i) => i < names.len() && spec_find_name(names.deep_view(), tok@) == Some(i as int),
            None => spec_find_name(names.deep_view(), tok@) is None,
        },
{
    let mut i: usize = 0;
    while i < names.len()
        invariant
            i <= names@.len(),
            spec_find_name(names.deep_view(), tok@) == spec_find_name_from(
                names.deep_view(),
                tok@,
                i as nat,
            ),
        decreases names@.len() - i,
    {
        proof {
            assert(names.deep_view()[i as int] == names@[i as int]@);
        }
        if names[i] == *tok {
            return Some(i);
        }
        i += 1;
    }
    None
}

/// What a dispatcher does with its argument stream.
#[derive(Debug)]
pub enum DispatchPlan {
    /// Run the command at this index of the dispatcher's name list. The
    /// cursor stands after any name consumed; `consumed` carries the name
    /// where one was, to be appended to the command path.
    Chosen { index: usize, next_pos: usize, consumed: Option<String> },
    /// The stream named no declared command: show the commands help.
    NoCommand,
}

/// Mathematical model of a [`DispatchPlan`].
pub enum SpecDispatchPlan {
    Chosen { index: int, next_pos: int, consumed: Option<Seq<char>> },
    NoCommand,
}

impl View for DispatchPlan {
    type V = SpecDispatchPlan;

    open spec fn view(&self) -> SpecDispatchPlan {
        match self {
            DispatchPlan::Chosen { index, next_pos, consumed } => SpecDispatchPlan::Chosen {
                index: *index as int,
                next_pos: *next_pos as int,
                consumed: match consumed {
                    Some(c) => Some(c@),
                    None => None,
                },
            },
            DispatchPlan::NoCommand => SpecDispatchPlan::NoCommand,
        }
    }
}

/// The dispatch rule over a name list, an argument stream, and a cursor
/// into it: a dispatcher with exactly one command runs it without reading
/// a token; otherwise the token under the cursor names the command to run
/// and is consumed, and with no token or no declared name the commands
/// help is owed.
pub open spec fn spec_plan_dispatch(
    names: Seq<Seq<char>>,
    args: Seq<Seq<char>>,
    pos: int,
) -> SpecDispatchPlan {
    if names.len() == 1 {
        SpecDispatchPlan::Chosen { index: 0, next_pos: pos, consumed: None }
    } else if 0 <= pos < args.len() && spec_find_name(names, args[pos]) is Some {
        SpecDispatchPlan::Chosen {
            index: spec_find_name(names, args[pos])->Some_0,
            next_pos: pos + 1,
            consumed: Some(args[pos]),
        }
    } else {
        SpecDispatchPlan::NoCommand
    }
}

/// Decides which command of a dispatcher an argument stream names.
///
/// `names` are the dispatcher's command names; `args` is the full stream
/// and `pos` the cursor into it (past the process name and any names
/// consumed upstream).
pub fn plan_dispatch(names: &Vec<String>, args: &Vec<String>, pos: usize) -> (r: DispatchPlan)
    requires
        pos <= args@.len(),
    ensures
        r@ == spec_plan_dispatch(names.deep_view(), args.deep_view(), pos as int),
        r matches DispatchPlan::Chosen { index, next_pos, .. } ==> index < names@.len() && next_pos
            <= args@.len(),
{
    if names.len() == 1 {
        DispatchPlan::Chosen { index: 0, next_pos: pos, consumed: None }
    } else if pos < args.len() {
        let tok = &args[pos];
        proof {
            assert(args.deep_view()[pos as int] == args@[pos as int]@);
        }
        match find_name(names, tok) {
            Some(i) => DispatchPlan::Chosen {
                index: i,
                next_pos: pos + 1,
                consumed: Some(tok.clone()),
            },
            None => DispatchPlan::NoCommand,
        }
    } else {
        DispatchPlan::NoCommand
    }
}

/// The message reported for a parse fault.
pub open spec fn spec_error_message(e: SpecParseError) -> Seq<char> {
    match e {
        SpecParseError::MissingOptionValue(k) => seq!['"'] + k + "\" requires one argument"@,
        SpecParseError::InvalidValue => "Invalid a value"@,
        SpecParseError::MissingArgument => "More arguments are needed."@,
    }
}

/// Renders the message reported for a parse fault.
pub fn error_message(e: &ParseError) -> (r: String)
    ensures
        r@ == spec_error_message(e@),
{
    match e {
        ParseError::MissingOptionValue(k) => {
            let mut out = String::from_str("\"");
            proof {
                reveal_strlit("\"");
                assert(out@ =~= seq!['"']);
            }
            out.append(k.as_str());
            out.append("\" requires one argument");
            proof {
                reveal_strlit("\" requires one argument");
                assert(out@ =~= spec_error_message(e@));
            }
            out
        },
        ParseError::InvalidValue => String::from_str("Invalid a value"),
        ParseError::MissingArgument => String::from_str("More arguments are needed."),
    }
}

} // verus!
