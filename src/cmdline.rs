//! Command lines as they are shown in logs and error messages.
use crate::annex::texts;
use vstd::prelude::*;

verus! {

/// `s` quoted for a POSIX shell, left bare where that is safe.
pub uninterp spec fn shell_quoted(s: Seq<char>) -> Seq<char>;

/// The words quoted for a POSIX shell and separated by single spaces.
pub open spec fn shell_joined(words: Seq<Seq<char>>) -> Seq<char>
    decreases words.len(),
{
    if words.len() == 0 {
        Seq::empty()
    } else if words.len() == 1 {
        shell_quoted(words[0])
    } else {
        shell_joined(words.drop_last()) + seq![' '] + shell_quoted(words.last())
    }
}

/// Relies on `shell_words::quote`, which quotes a word for a POSIX shell.
#[verifier::external_body]
fn quote(s: &str) -> (r: String)
    ensures
        r@ == shell_quoted(s@),
{
    shell_words::quote(s).into_owned()
}

/// Relies on `shell_words::join`, which quotes each word with
/// `shell_words::quote` and puts one space between them.
#[verifier::external_body]
fn join(words: &Vec<String>) -> (r: String)
    ensures
        r@ == shell_joined(texts(words@)),
{
    shell_words::join(words)
}

/// How a command is shown: the program and its arguments, each quoted for
/// a shell, with a space after the program.
pub open spec fn command_text(program: Seq<char>, args: Seq<Seq<char>>) -> Seq<char> {
    shell_quoted(program) + seq![' '] + shell_joined(args)
}

/// How the command `program args...` is shown.
pub fn command_line(program: &str, args: &Vec<String>) -> (r: String)
    ensures
        r@ == command_text(program@, texts(args@)),
{
    proof {
        reveal_strlit(" ");
    }
    let mut s = quote(program);
    s.append(" ");
    s.append(join(args).as_str());
    s
}

/// How the git-annex command `name args...` is shown.
pub fn annex_command_line(name: &str, args: &Vec<String>) -> (r: String)
    ensures
        r@ == "git-annex "@ + command_text(name@, texts(args@)),
{
    let mut s = String::from_str("git-annex ");
    s.append(command_line(name, args).as_str());
    s
}

} // verus!
