//! One invocation, from its arguments to printed lines or a failure with
//! its exit status.

use vstd::prelude::*;
use crate::document::ParseError;
use crate::render::{lines_of, render, RenderError};
use crate::resolve::{resolve, resolve_path, resolution_of, split_key, split_on, views, walk, Resolution, ResolveError};
use crate::value::{lookup, DocValue};

verus! {

/// Required arguments that were not given.
#[derive(Debug, PartialEq, Eq, Structural)]
pub enum UsageError {
    MissingInputAndKey,
    MissingInput,
    MissingKey,
}

/// Why the input document could not be had.
#[derive(Debug)]
pub enum IoError {
    /// The path names no file.
    Missing,
    /// The file could not be opened; the system's description.
    Open(String),
    /// The file could not be read as text; the system's description.
    Read(String),
}

/// Every way an invocation can fail.
#[derive(Debug)]
pub enum Failure {
    Usage(UsageError),
    Io(IoError),
    Parse(ParseError),
    Navigation(ResolveError),
    Render(RenderError),
}

/// What an invocation does once its arguments are read.
#[derive(Debug, PartialEq, Eq, Structural)]
pub enum Action {
    /// Print the name, version, author and source of the tool.
    ShowVersion,
    /// Read the document and print the value under the key.
    Lookup,
}

/// The exit status that reports `f`.
pub open spec fn exit_status(f: Failure) -> i32 {
    match f {
        Failure::Usage(_) => 2,
        Failure::Io(_) => 5,
        Failure::Parse(_) => 5,
        Failure::Navigation(_) => 1,
        Failure::Render(_) => 6,
    }
}

/// The exit status of a successful invocation.
pub const SUCCESS: i32 = 0;

/// The exit status that reports `f`.
pub fn exit_code(f: &Failure) -> (r: i32)
    ensures
        r == exit_status(*f),
{
    match f {
        Failure::Usage(_) => 2,
        Failure::Io(_) => 5,
        Failure::Parse(_) => 5,
        Failure::Navigation(_) => 1,
        Failure::Render(_) => 6,
    }
}

/// Decides what an invocation does. Asking for the version wins over
/// everything else; otherwise both the input path and the key must be given.
pub fn choose_action(version: bool, input_file: &str, key: &str) -> (r: Result<Action, UsageError>)
    ensures
        version ==> r == Ok::<Action, UsageError>(Action::ShowVersion),
        !version ==> r == (if input_file@.len() == 0 && key@.len() == 0 {
            Err::<Action, UsageError>(UsageError::MissingInputAndKey)
        } else if input_file@.len() == 0 {
            Err(UsageError::MissingInput)
        } else if key@.len() == 0 {
            Err(UsageError::MissingKey)
        } else {
            Ok(Action::Lookup)
        }),
{
    if version {
        return Ok(Action::ShowVersion);
    }
    let no_input = input_file.unicode_len() == 0;
    let no_key = key.unicode_len() == 0;
    if no_input && no_key {
        Err(UsageError::MissingInputAndKey)
    } else if no_input {
        Err(UsageError::MissingInput)
    } else if no_key {
        Err(UsageError::MissingKey)
    } else {
        Ok(Action::Lookup)
    }
}

/// What looking `key` up in `doc` and rendering it comes to: the printed
/// lines, or the failure.
pub open spec fn extract_ok(doc: DocValue, key: Seq<char>, lines: Seq<Seq<char>>) -> bool {
    match resolve_path(doc, split_on(key, '.')) {
        Resolution::Found(v) => lines_of(v) == Some(lines),
        _ => false,
    }
}

/// Looks the dotted `key` up in `doc` and renders what it names at the top
/// level.
pub fn extract(doc: &DocValue, key: &str) -> (r: Result<Vec<String>, Failure>)
    ensures
        match r {
            Ok(lines) => extract_ok(*doc, key@, views(lines@)),
            Err(Failure::Navigation(e)) => resolution_of(Err(e)) == resolve_path(
                *doc,
                split_on(key@, '.'),
            ),
            Err(Failure::Render(e)) => match resolve_path(*doc, split_on(key@, '.')) {
                Resolution::Found(v) => lines_of(v) is None && e == (RenderError::UnprintableTable {
                    within_array: v is Array,
                }),
                _ => false,
            },
            Err(_) => false,
        },
{
    let segs = split_key(key);
    match resolve(doc, &segs) {
        Ok(v) => match render(v, false) {
            Ok(lines) => {
                assert(lines@.map_values(|s: String| s@) == views(lines@));
                Ok(lines)
            },
            Err(e) => Err(Failure::Render(e)),
        },
        Err(e) => Err(Failure::Navigation(e)),
    }
}

/// The diagnostic that reports `f` for the document at `path`; `repo` is
/// where the tool's source and issues live.
pub open spec fn message_text(f: Failure, path: Seq<char>, repo: Seq<char>) -> Seq<char> {
    match f {
        Failure::Usage(UsageError::MissingInputAndKey) => "input file and key are required"@,
        Failure::Usage(UsageError::MissingInput) => "input file is required"@,
        Failure::Usage(UsageError::MissingKey) => "key is required"@,
        Failure::Io(IoError::Missing) => path + " file does not exist"@,
        Failure::Io(IoError::Open(d)) => "error opening "@ + path + ": "@ + d@,
        Failure::Io(IoError::Read(d)) => "error reading "@ + path + ": "@ + d@,
        Failure::Parse(e) => "error parsing "@ + path + ": "@ + e.detail@,
        Failure::Navigation(ResolveError::EmptyKey) => "key has no segment"@,
        Failure::Navigation(ResolveError::NotATable) => "value does not seem to be a TOML table"@,
        Failure::Navigation(ResolveError::KeyNotFound(k)) => "key not found: "@ + k@,
        Failure::Render(RenderError::UnprintableTable { within_array: false }) => "value is a table"@,
        Failure::Render(RenderError::UnprintableTable { within_array: true }) =>
            "table in an array? how did you do this?\nplease open an issue at "@ + repo,
    }
}

fn joined(parts: &Vec<&str>) -> (r: String)
    ensures
        r@ == parts@.fold_left(Seq::<char>::empty(), |acc: Seq<char>, p: &str| acc + p@),
{
    let mut out = String::new();
    let mut i: usize = 0;
    while i < parts.len()
        invariant
            i <= parts@.len(),
            out@ == parts@.subrange(0, i as int).fold_left(
                Seq::<char>::empty(),
                |acc: Seq<char>, p: &str| acc + p@,
            ),
        decreases parts@.len() - i,
    {
        proof {
            let pre = parts@.subrange(0, i + 1);
            assert(pre.drop_last() =~= parts@.subrange(0, i as int));
        }
        out.append(parts[i]);
        i = i + 1;
    }
    assert(parts@.subrange(0, parts@.len() as int) =~= parts@);
    out
}

impl Failure {
    /// The diagnostic that reports this failure for the document at `path`;
    /// `repo` is where the tool's source and issues live.
    pub fn message(&self, path: &str, repo: &str) -> (r: String)
        ensures
            r@ == message_text(*self, path@, repo@),
    {
        let parts: Vec<&str> = match self {
            Failure::Usage(UsageError::MissingInputAndKey) => vec!["input file and key are required"],
            Failure::Usage(UsageError::MissingInput) => vec!["input file is required"],
            Failure::Usage(UsageError::MissingKey) => vec!["key is required"],
            Failure::Io(IoError::Missing) => vec![path, " file does not exist"],
            Failure::Io(IoError::Open(d)) => vec!["error opening ", path, ": ", d.as_str()],
            Failure::Io(IoError::Read(d)) => vec!["error reading ", path, ": ", d.as_str()],
            Failure::Parse(e) => vec!["error parsing ", path, ": ", e.detail.as_str()],
            Failure::Navigation(ResolveError::EmptyKey) => vec!["key has no segment"],
            Failure::Navigation(ResolveError::NotATable) => vec!["value does not seem to be a TOML table"],
            Failure::Navigation(ResolveError::KeyNotFound(k)) => vec!["key not found: ", k.as_str()],
            Failure::Render(RenderError::UnprintableTable { within_array }) => {
                if *within_array {
                    vec!["table in an array? how did you do this?\nplease open an issue at ", repo]
                } else {
                    vec!["value is a table"]
                }
            },
        };
        let r = joined(&parts);
        proof {
            reveal_with_fuel(Seq::fold_left, 5);
        }
        r
    }
}

/// A missing document and a missing key are told apart by their exit
/// status, and neither reads as success.
pub proof fn io_and_navigation_statuses_differ(io: IoError, nav: ResolveError)
    ensures
        exit_status(Failure::Io(io)) != exit_status(Failure::Navigation(nav)),
        exit_status(Failure::Io(io)) != SUCCESS,
        exit_status(Failure::Navigation(nav)) != SUCCESS,
{
}

/// Under a root whose `a` is a table whose `b` is the integer 5, the key
/// `a.b` leads to that integer, and the key `a` leads to the table itself,
/// which cannot be printed.
pub proof fn nested_key_reaches_the_leaf(root: DocValue, inner: DocValue)
    requires
        root matches DocValue::Table(entries) && lookup(entries@, seq!['a']) == Some(inner),
        inner matches DocValue::Table(entries) && lookup(entries@, seq!['b']) == Some(
            DocValue::Integer(5),
        ),
    ensures
        resolve_path(root, split_on(seq!['a', '.', 'b'], '.')) == Resolution::Found(
            DocValue::Integer(5),
        ),
        resolve_path(root, split_on(seq!['a'], '.')) == Resolution::Found(inner),
        lines_of(inner) is None,
{
    let e = Seq::<char>::empty();
    let ab = seq!['a', '.', 'b'];
    let a_dot = seq!['a', '.'];
    let a = seq!['a'];
    assert(a.drop_last() =~= e);
    assert(a_dot.drop_last() =~= a);
    assert(ab.drop_last() =~= a_dot);
    assert(split_on(e, '.') == seq![e]);
    assert(split_on(a, '.') =~= seq![a]);
    assert(split_on(a_dot, '.') =~= seq![a, e]);
    assert(split_on(ab, '.') =~= seq![a, seq!['b']]);
    let two = seq![a, seq!['b']];
    assert(two.subrange(1, 2) =~= seq![seq!['b']]);
    assert(seq![seq!['b']].subrange(1, 1) =~= Seq::<Seq<char>>::empty());
    assert(seq![a].subrange(1, 1) =~= Seq::<Seq<char>>::empty());
    assert(walk(inner, Seq::<Seq<char>>::empty()) == Resolution::Found(inner));
    let five = DocValue::Integer(5);
    assert(walk(five, Seq::<Seq<char>>::empty()) == Resolution::Found(five));
    assert(walk(inner, seq![seq!['b']]) == Resolution::Found(five));
    assert(walk(root, two) == Resolution::Found(five));
}

} // verus!
