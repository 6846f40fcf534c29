//! What the shell around the machine decides: which command a line of
//! input is, where sources and tests lie by default, and how the name of a
//! test is shown.
use vstd::prelude::*;
use vstd::string::{StrSliceExecFns, StringExecFns};
use crate::pool::{Function, Visibility};
use crate::text::push_char;

verus! {

/// A command of the shell.
#[derive(Debug, Clone, PartialEq, Eq)]
pub enum Command<'inp> {
    RunMain,
    Run(&'inp str),
    Test(&'inp str),
    Help,
    Exit,
}

/// What a command says.
pub enum CommandView {
    RunMain,
    Run(Seq<char>),
    Test(Seq<char>),
    Help,
    Exit,
}

impl<'inp> View for Command<'inp> {
    type V = CommandView;

    open spec fn view(&self) -> CommandView {
        match *self {
            Command::RunMain => CommandView::RunMain,
            Command::Run(name) => CommandView::Run(name@),
            Command::Test(suite) => CommandView::Test(suite@),
            Command::Help => CommandView::Help,
            Command::Exit => CommandView::Exit,
        }
    }
}

/// The place of the first space of `text` at or after `from`, or the length
/// of `text` where there is none.
pub open spec fn first_space(text: Seq<char>, from: int) -> int
    decreases text.len() - from,
{
    if from < 0 || from >= text.len() {
        text.len() as int
    } else if text[from] == ' ' {
        from
    } else {
        first_space(text, from + 1)
    }
}

/// The command that the line `input` is: one of the words `runMain`, `help`
/// and `exit`, or the word `run` or `test`, one space and what is run or
/// tested, which holds no space.
pub open spec fn parsed(input: Seq<char>) -> Option<CommandView> {
    let first = first_space(input, 0);
    if first == input.len() {
        if input == "runMain"@ {
            Some(CommandView::RunMain)
        } else if input == "help"@ {
            Some(CommandView::Help)
        } else if input == "exit"@ {
            Some(CommandView::Exit)
        } else {
            None
        }
    } else if first_space(input, first + 1) == input.len() {
        if input.subrange(0, first) == "run"@ {
            Some(CommandView::Run(input.subrange(first + 1, input.len() as int)))
        } else if input.subrange(0, first) == "test"@ {
            Some(CommandView::Test(input.subrange(first + 1, input.len() as int)))
        } else {
            None
        }
    } else {
        None
    }
}

fn find_space(input: &str, from: usize) -> (r: usize)
    requires
        from <= input@.len(),
    ensures
        r == first_space(input@, from as int),
        from <= r <= input@.len(),
{
    let len = input.unicode_len();
    let mut i = from;
    while i < len
        invariant
            from <= i <= len,
            len == input@.len(),
            first_space(input@, from as int) == first_space(input@, i as int),
        decreases len - i,
    {
        if input.get_char(i) == ' ' {
            return i;
        }
        i += 1;
    }
    i
}

fn same_text(a: &str, b: &str) -> (r: bool)
    ensures
        r == (a@ == b@),
{
    String::from_str(a) == String::from_str(b)
}

impl<'inp> Command<'inp> {
    pub fn parse(input: &'inp str) -> (r: Result<Command<'inp>, &'static str>)
        ensures
            match r {
                Ok(command) => parsed(input@) == Some(command@),
                Err(message) => parsed(input@) is None && message@
                    == "Invalid command, enter 'help' for more information"@,
            },
    {
        let len = input.unicode_len();
        let first = find_space(input, 0);
        if first == len {
            if same_text(input, "runMain") {
                return Ok(Command::RunMain);
            } else if same_text(input, "help") {
                return Ok(Command::Help);
            } else if same_text(input, "exit") {
                return Ok(Command::Exit);
            }
        } else if find_space(input, first + 1) == len {
            let word = input.substring_char(0, first);
            let rest = input.substring_char(first + 1, len);
            if same_text(word, "run") {
                return Ok(Command::Run(rest));
            } else if same_text(word, "test") {
                return Ok(Command::Test(rest));
            }
        }
        Err("Invalid command, enter 'help' for more information")
    }
}

/// Where the shell finds the bundle, the sources and the tests.
#[derive(Debug, Clone, PartialEq, Eq)]
pub struct ShellConfig {
    pub bundle_path: String,
    pub source_dir: String,
    pub test_dir: String,
}

impl ShellConfig {
    /// A configuration with the given bundle; a directory that is not given
    /// is the default one.
    pub fn new(bundle_path: String, source_dir: Option<String>, test_dir: Option<String>) -> (r:
        ShellConfig)
        ensures
            r.bundle_path@ == bundle_path@,
            r.source_dir@ == (match source_dir {
                Some(dir) => dir@,
                None => "src"@,
            }),
            r.test_dir@ == (match test_dir {
                Some(dir) => dir@,
                None => "test"@,
            }),
    {
        ShellConfig {
            bundle_path,
            source_dir: match source_dir {
                Some(dir) => dir,
                None => Self::default_source_dir(),
            },
            test_dir: match test_dir {
                Some(dir) => dir,
                None => Self::default_test_dir(),
            },
        }
    }

    pub fn default_source_dir() -> (r: String)
        ensures
            r@ == "src"@,
    {
        String::from_str("src")
    }

    pub fn default_test_dir() -> (r: String)
        ensures
            r@ == "test"@,
    {
        String::from_str("test")
    }
}

/// Whether `c` is one of the letters `A` to `Z`.
pub open spec fn is_upper(c: char) -> bool {
    'A' <= c <= 'Z'
}

/// The small letter of a letter from `A` to `Z`.
pub open spec fn lowered(c: char) -> char {
    ((c as u8) + 32) as char
}

/// The name of a test as the shell shows it, from place `from` of `name`
/// on: each capital letter becomes a space and the small letter, but the
/// first letter of the name gets no space; the name ends before the first
/// semicolon.
pub open spec fn pretty_from(name: Seq<char>, from: int) -> Seq<char>
    decreases name.len() - from,
{
    if from < 0 || from >= name.len() || name[from] == ';' {
        Seq::empty()
    } else if is_upper(name[from]) {
        (if from == 0 {
            seq![lowered(name[from])]
        } else {
            seq![' ', lowered(name[from])]
        }) + pretty_from(name, from + 1)
    } else {
        seq![name[from]] + pretty_from(name, from + 1)
    }
}

/// The name of a test as the shell shows it.
pub open spec fn pretty(name: Seq<char>) -> Seq<char> {
    pretty_from(name, 0)
}

pub fn pretty_test_name(name: &str) -> (r: String)
    ensures
        r@ == pretty(name@),
{
    let len = name.unicode_len();
    let mut text = String::new();
    let mut i: usize = 0;
    while i < len
        invariant
            i <= len,
            len == name@.len(),
            pretty(name@) == text@ + pretty_from(name@, i as int),
        decreases len - i,
    {
        let c = name.get_char(i);
        if c == ';' {
            assert(text@ + Seq::<char>::empty() =~= text@);
            return text;
        }
        let ghost before = text@;
        if 'A' <= c && c <= 'Z' {
            if i > 0 {
                push_char(&mut text, ' ');
            }
            let small = ((c as u8) + 32) as char;
            push_char(&mut text, small);
        } else {
            push_char(&mut text, c);
        }
        proof {
            assert(text@ + pretty_from(name@, i + 1) =~= before + pretty_from(name@, i as int));
        }
        i += 1;
    }
    assert(text@ + Seq::<char>::empty() =~= text@);
    text
}

/// Whether a method of a test suite is a test: it is public and takes no
/// arguments.
pub fn is_test(function: &Function) -> (r: bool)
    ensures
        r == (function.parameters@.len() == 0 && function.visibility == Visibility::Public),
{
    let public = match function.visibility {
        Visibility::Public => true,
        _ => false,
    };
    function.parameters.len() == 0 && public
}

/// A line of the report of a test: whether it is good news, and its text.
#[derive(Debug, Clone, PartialEq, Eq)]
pub struct ReportLine {
    pub passed: bool,
    pub text: String,
}

/// What a report line says.
pub open spec fn line_view(line: ReportLine) -> (bool, Seq<char>) {
    (line.passed, line.text@)
}

/// The report of the test of the name `name` that left the errors `errors`:
/// one good line with the name where there are none, else one bad line for
/// each error, with the name and the error.
pub open spec fn reported(name: Seq<char>, errors: Seq<Seq<char>>) -> Seq<(bool, Seq<char>)> {
    if errors.len() == 0 {
        seq![(true, "+ "@ + pretty(name))]
    } else {
        errors.map_values(|error: Seq<char>| (false, "- "@ + pretty(name) + ": "@ + error))
    }
}

pub fn report(name: &str, errors: &Vec<String>) -> (r: Vec<ReportLine>)
    ensures
        r@.map_values(|l: ReportLine| line_view(l)) == reported(
            name@,
            errors@.map_values(|e: String| e@),
        ),
{
    let pretty_name = pretty_test_name(name);
    let mut lines: Vec<ReportLine> = Vec::new();
    if errors.len() == 0 {
        let mut text = String::from_str("+ ");
        text.append(pretty_name.as_str());
        lines.push(ReportLine { passed: true, text });
        assert(lines@.map_values(|l: ReportLine| line_view(l)) =~= reported(
            name@,
            errors@.map_values(|e: String| e@),
        ));
        return lines;
    }
    let ghost texts = errors@.map_values(|e: String| e@);
    assert(lines@.map_values(|l: ReportLine| line_view(l)) =~= Seq::empty());
    let mut i: usize = 0;
    while i < errors.len()
        invariant
            i <= errors@.len(),
            pretty_name@ == pretty(name@),
            texts == errors@.map_values(|e: String| e@),
            lines@.map_values(|l: ReportLine| line_view(l)) == texts.take(i as int).map_values(
                |error: Seq<char>| (false, "- "@ + pretty(name@) + ": "@ + error),
            ),
        decreases errors@.len() - i,
    {
        let ghost before = lines@.map_values(|l: ReportLine| line_view(l));
        let mut text = String::from_str("- ");
        text.append(pretty_name.as_str());
        text.append(": ");
        text.append(errors[i].as_str());
        lines.push(ReportLine { passed: false, text });
        proof {
            assert(lines@.map_values(|l: ReportLine| line_view(l)) =~= before.push(
                (false, "- "@ + pretty(name@) + ": "@ + texts[i as int]),
            ));
            assert(texts.take(i + 1).map_values(
                |error: Seq<char>| (false, "- "@ + pretty(name@) + ": "@ + error),
            ) =~= texts.take(i as int).map_values(
                |error: Seq<char>| (false, "- "@ + pretty(name@) + ": "@ + error),
            ).push((false, "- "@ + pretty(name@) + ": "@ + texts[i as int])));
        }
        i += 1;
    }
    proof {
        assert(texts.take(i as int) =~= texts);
    }
    lines
}

/// What is reported where two values that should be equal are not.
pub fn equality_failure(a: &str, b: &str) -> (r: String)
    ensures
        r@ == a@ + " is not equal to "@ + b@,
{
    let mut text = String::from_str(a);
    text.append(" is not equal to ");
    text.append(b);
    text
}

/// What is reported where two values that should differ are equal.
pub fn inequality_failure(a: &str, b: &str) -> (r: String)
    ensures
        r@ == a@ + " is equal to "@ + b@,
{
    let mut text = String::from_str(a);
    text.append(" is equal to ");
    text.append(b);
    text
}

/// What is reported where an assertion does not hold.
pub fn assertion_failure() -> (r: String)
    ensures
        r@ == "Assertion failed"@,
{
    String::from_str("Assertion failed")
}

} // verus!
