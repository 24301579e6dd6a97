//! The records that the git-annex batch workers write back, and the errors
//! they carry.
use crate::filepath::FilePath;
use std::fmt::Write;
use vstd::prelude::*;

verus! {

/// The texts of a list of strings.
pub open spec fn texts(v: Seq<String>) -> Seq<Seq<char>> {
    v.map_values(|s: String| s@)
}

/// `s` with four spaces in front of each line that holds text.  `at_start`
/// says whether `s` begins a line.
pub open spec fn indent_from(s: Seq<char>, at_start: bool) -> Seq<char>
    decreases s.len(),
{
    if s.len() == 0 {
        Seq::empty()
    } else if s[0] == '\n' {
        seq!['\n'] + indent_from(s.drop_first(), true)
    } else if at_start {
        seq![' ', ' ', ' ', ' ', s[0]] + indent_from(s.drop_first(), false)
    } else {
        seq![s[0]] + indent_from(s.drop_first(), false)
    }
}

/// A message that ends its line.
pub open spec fn ended(m: Seq<char>) -> Seq<char> {
    if m.len() > 0 && m.last() == '\n' {
        m
    } else {
        m.push('\n')
    }
}

/// The messages one after the other, each ending its line.
pub open spec fn lines_of(ms: Seq<Seq<char>>) -> Seq<char>
    decreases ms.len(),
{
    if ms.len() == 0 {
        Seq::empty()
    } else {
        lines_of(ms.drop_last()) + ended(ms.last())
    }
}

/// How the messages of a failed operation read after the word that
/// introduces them: a placeholder for none, one message on the same line,
/// or an indented block below.
pub open spec fn error_text(ms: Seq<Seq<char>>) -> Seq<char> {
    if ms.len() == 0 {
        " <no error message>"@
    } else if ms.len() == 1 {
        seq![' '] + ms[0]
    } else {
        indent_from(seq!['\n', '\n'] + lines_of(ms) + seq!['\n'], true)
    }
}

/// The error messages that a worker gave for a failed operation.
#[derive(Clone, Debug, Eq, PartialEq)]
pub struct AnnexError(Vec<String>);

impl View for AnnexError {
    type V = Seq<String>;

    closed spec fn view(&self) -> Seq<String> {
        self.0@
    }
}

impl AnnexError {
    /// An error with the given messages.
    pub fn new(messages: Vec<String>) -> (r: AnnexError)
        ensures
            r@ == messages@,
    {
        AnnexError(messages)
    }

    /// The messages.
    pub fn messages(&self) -> (r: &Vec<String>)
        ensures
            r@ == self@,
    {
        &self.0
    }

    /// The messages as they are shown after the words that introduce them.
    pub fn message(&self) -> (r: String)
        ensures
            r@ == error_text(texts(self@)),
    {
        proof {
            reveal_strlit(" ");
            reveal_strlit("\n");
            reveal_strlit("\n\n");
        }
        let n = self.0.len();
        if n == 0 {
            String::from_str(" <no error message>")
        } else if n == 1 {
            let mut s = String::from_str(" ");
            s.append(self.0[0].as_str());
            s
        } else {
            let ghost ms = texts(self@);
            let mut body = String::from_str("\n\n");
            let mut i: usize = 0;
            while i < n
                invariant
                    n == self@.len() == ms.len(),
                    ms == texts(self@),
                    "\n"@ == seq!['\n'],
                    i <= n,
                    body@ == seq!['\n', '\n'] + lines_of(ms.take(i as int)),
                decreases n - i,
            {
                let m = self.0[i].as_str();
                body.append(m);
                if !ends_line(m) {
                    body.append("\n");
                }
                proof {
                    assert(ms.take(i + 1).drop_last() =~= ms.take(i as int));
                    assert(ms[i as int] == self@[i as int]@);
                }
                i = i + 1;
            }
            body.append("\n");
            proof {
                assert(ms.take(n as int) =~= ms);
            }
            indent(body.as_str())
        }
    }
}

/// Whether `m` ends with a newline.
fn ends_line(m: &str) -> (r: bool)
    ensures
        r == (m@.len() > 0 && m@.last() == '\n'),
{
    let n = m.unicode_len();
    n > 0 && m.get_char(n - 1) == '\n'
}

/// Relies on indenter's `indented(..).with_str("    ")`, which puts four
/// spaces in front of each line that holds text.
#[verifier::external_body]
fn indent(text: &str) -> (r: String)
    ensures
        r@ == indent_from(text@, true),
{
    let mut out = String::new();
    let _ = write!(indenter::indented(&mut out).with_str("    "), "{text}");
    out
}

/// Whether an operation succeeded, and the messages of a failure.
#[derive(Clone, Debug, Eq, PartialEq)]
pub struct AnnexResult {
    pub success: bool,
    pub error_messages: Vec<String>,
}

/// What an output record is about.
#[derive(Clone, Debug, Eq, PartialEq)]
pub struct Action {
    pub command: String,
    /// `None` for an in-progress download requested without an explicit
    /// download path.
    pub file: Option<FilePath>,
    pub input: Vec<String>,
}

/// A record from `git-annex addurl`: download progress, or the outcome.
#[derive(Clone, Debug, Eq, PartialEq)]
pub enum AddURLOutput {
    Progress {
        byte_progress: usize,
        total_size: Option<usize>,
        percent_progress: Option<String>,
        action: Action,
    },
    Completion {
        /// Absent when the file was committed to git rather than annexed.
        key: Option<String>,
        action: Action,
        result: AnnexResult,
        note: Option<String>,
    },
}

impl AddURLOutput {
    /// The action that the record is about.
    pub open spec fn action(&self) -> Action {
        match self {
            AddURLOutput::Progress { action, .. } => *action,
            AddURLOutput::Completion { action, .. } => *action,
        }
    }

    /// The file that the record is about.
    pub fn file(&self) -> (r: &Option<FilePath>)
        ensures
            *r == self.action().file,
    {
        match self {
            AddURLOutput::Progress { action, .. } => &action.file,
            AddURLOutput::Completion { action, .. } => &action.file,
        }
    }

    /// The record itself, or the error messages of a failed download.
    pub fn check(self) -> (r: Result<Self, AnnexError>)
        ensures
            match self {
                AddURLOutput::Completion { result, .. } if !result.success => {
                    &&& r is Err
                    &&& r->Err_0@ == result.error_messages@
                },
                _ => r == Ok::<AddURLOutput, AnnexError>(self),
            },
    {
        match self {
            AddURLOutput::Progress { byte_progress, total_size, percent_progress, action } => Ok(
                AddURLOutput::Progress { byte_progress, total_size, percent_progress, action },
            ),
            AddURLOutput::Completion { key, action, result, note } => {
                if result.success {
                    Ok(AddURLOutput::Completion { key, action, result, note })
                } else {
                    Err(AnnexError(result.error_messages))
                }
            },
        }
    }
}

/// A record from `git-annex metadata`.
#[derive(Clone, Debug, Eq, PartialEq)]
pub struct MetadataOutput {
    /// The fields of the key after the change.
    pub fields: Vec<(String, Vec<String>)>,
    pub action: Action,
    pub result: AnnexResult,
    pub note: Option<String>,
}

impl MetadataOutput {
    /// The record itself, or the error messages of a failure.
    pub fn check(self) -> (r: Result<Self, AnnexError>)
        ensures
            self.result.success ==> r == Ok::<MetadataOutput, AnnexError>(self),
            !self.result.success ==> r is Err && r->Err_0@ == self.result.error_messages@,
    {
        if self.result.success {
            Ok(self)
        } else {
            Err(AnnexError(self.result.error_messages))
        }
    }
}

/// A record from `git-annex registerurl`.
#[derive(Clone, Debug, Eq, PartialEq)]
pub struct RegisterURLOutput {
    pub action: Action,
    pub result: AnnexResult,
}

impl RegisterURLOutput {
    /// The record itself, or the error messages of a failure.
    pub fn check(self) -> (r: Result<Self, AnnexError>)
        ensures
            self.result.success ==> r == Ok::<RegisterURLOutput, AnnexError>(self),
            !self.result.success ==> r is Err && r->Err_0@ == self.result.error_messages@,
    {
        if self.result.success {
            Ok(self)
        } else {
            Err(AnnexError(self.result.error_messages))
        }
    }
}

} // verus!
