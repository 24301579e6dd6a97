//! Coordinates mass downloads into a git-annex repository: line framing for
//! the batch workers, the wire model of their records, normalized relative
//! paths, and the decisions of the download pipeline.
use vstd::prelude::*;

pub mod addurl_output;
pub mod annex;
pub mod blc;
pub mod cmdline;
pub mod download;
pub mod filepath;
pub mod json;
pub mod requests;
pub mod text;
pub mod worker;

pub use crate::annex::{Action, AddURLOutput, AnnexError, AnnexResult, MetadataOutput, RegisterURLOutput};
pub use crate::blc::{BinaryLinesCodec, BinaryLinesCodecError};
pub use crate::download::{DownloadResult, Downloadable, InProgress, Report};
pub use crate::filepath::{FilePath, FilePathError};
pub use crate::json::{JsonError, JsonValue};
use crate::text::{decimal, decimal_text};

verus! {

#[verifier::external_type_specification]
#[verifier::external_body]
pub struct ExPathBuf(std::path::PathBuf);

/// How many downloads `git-annex addurl` runs at once.
#[derive(Clone, Copy, Debug, Eq, PartialEq, Structural)]
pub enum Jobs {
    /// One per CPU.
    CPUs,
    /// A positive number.
    Qty(usize),
}

impl Jobs {
    /// A count is positive.
    pub open spec fn wf(&self) -> bool {
        self matches Jobs::Qty(n) ==> n > 0
    }

    /// The setting as `git-annex addurl --jobs` takes it.
    pub open spec fn text(&self) -> Seq<char> {
        match self {
            Jobs::CPUs => "cpus"@,
            Jobs::Qty(n) => decimal(*n as nat),
        }
    }

    /// The setting as `git-annex addurl --jobs` takes it.
    pub fn to_string(&self) -> (r: String)
        ensures
            r@ == self.text(),
    {
        match self {
            Jobs::CPUs => String::from_str("cpus"),
            Jobs::Qty(n) => decimal_text(*n),
        }
    }
}

/// The settings of a download run.
#[derive(Debug, Eq, PartialEq)]
pub struct Gamdam {
    /// The repository to download into.
    pub repo: std::path::PathBuf,
    /// More options for `git-annex addurl`.
    pub addurl_options: Vec<String>,
    pub addurl_jobs: Jobs,
}

/// The texts of `v`.
pub open spec fn arg_texts(v: Seq<String>) -> Seq<Seq<char>> {
    v.map_values(|s: String| s@)
}

/// The options that every batch worker is started with.
pub open spec fn batch_args() -> Seq<Seq<char>> {
    seq!["--batch"@, "--json"@, "--json-error-messages"@]
}

impl Gamdam {
    /// The arguments of `git-annex addurl`: batch mode with file names, the
    /// jobs setting, JSON records with progress, then the extra options.
    pub open spec fn addurl_args_spec(&self) -> Seq<Seq<char>> {
        seq![
            "--batch"@,
            "--with-files"@,
            "--jobs"@,
            self.addurl_jobs.text(),
            "--json"@,
            "--json-error-messages"@,
            "--json-progress"@,
        ] + arg_texts(self.addurl_options@)
    }

    /// The arguments of `git-annex addurl`.
    pub fn addurl_args(&self) -> (r: Vec<String>)
        ensures
            arg_texts(r@) == self.addurl_args_spec(),
    {
        let mut args: Vec<String> = Vec::new();
        args.push(String::from_str("--batch"));
        args.push(String::from_str("--with-files"));
        args.push(String::from_str("--jobs"));
        args.push(self.addurl_jobs.to_string());
        args.push(String::from_str("--json"));
        args.push(String::from_str("--json-error-messages"));
        args.push(String::from_str("--json-progress"));
        let n = self.addurl_options.len();
        let mut i: usize = 0;
        while i < n
            invariant
                n == self.addurl_options@.len(),
                i <= n,
                args@.len() == 7 + i,
                arg_texts(args@) == seq![
                    "--batch"@,
                    "--with-files"@,
                    "--jobs"@,
                    self.addurl_jobs.text(),
                    "--json"@,
                    "--json-error-messages"@,
                    "--json-progress"@,
                ] + arg_texts(self.addurl_options@.take(i as int)),
            decreases n - i,
        {
            let ghost before = args@;
            let opt = self.addurl_options[i].clone();
            args.push(opt);
            proof {
                let opts = self.addurl_options@;
                assert(opts.take(i + 1) =~= opts.take(i as int).push(opts[i as int]));
                assert(arg_texts(before.push(opt)) =~= arg_texts(before).push(opt@));
                assert(arg_texts(opts.take(i as int).push(opts[i as int])) =~= arg_texts(
                    opts.take(i as int),
                ).push(opts[i as int]@));
                assert(args@ == before.push(opt));
            }
            i = i + 1;
        }
        proof {
            assert(self.addurl_options@.take(n as int) =~= self.addurl_options@);
        }
        args
    }

    /// The arguments of `git-annex metadata`.
    pub fn metadata_args(&self) -> (r: Vec<String>)
        ensures
            arg_texts(r@) == batch_args(),
    {
        worker_args()
    }

    /// The arguments of `git-annex registerurl`.
    pub fn registerurl_args(&self) -> (r: Vec<String>)
        ensures
            arg_texts(r@) == batch_args(),
    {
        worker_args()
    }
}

/// The options that every batch worker is started with.
fn worker_args() -> (r: Vec<String>)
    ensures
        arg_texts(r@) == batch_args(),
{
    let mut args: Vec<String> = Vec::new();
    args.push(String::from_str("--batch"));
    args.push(String::from_str("--json"));
    args.push(String::from_str("--json-error-messages"));
    proof {
        assert(arg_texts(args@) =~= batch_args());
    }
    args
}

/// `n` and a noun, in the plural unless `n` is one.
pub open spec fn quantity(n: nat, noun: Seq<char>) -> Seq<char> {
    if n == 1 {
        decimal(n) + seq![' '] + noun
    } else {
        decimal(n) + seq![' '] + noun + seq!['s']
    }
}

/// `n` and a noun, in the plural unless `n` is one.
pub fn quantify(n: usize, noun: &str) -> (r: String)
    ensures
        r@ == quantity(n as nat, noun@),
{
    proof {
        reveal_strlit(" ");
        reveal_strlit("s");
    }
    let mut s = decimal_text(n);
    s.append(" ");
    s.append(noun);
    if n != 1 {
        s.append("s");
    }
    s
}

/// Whether to commit after a run: something was downloaded, saving is on,
/// and no failure forbids it.
pub open spec fn commit_wanted(successful: nat, failed: nat, save: bool, no_save_on_fail: bool) -> bool {
    successful > 0 && save && (!no_save_on_fail || failed == 0)
}

/// No commit follows a run that downloaded nothing, nor, when failures
/// forbid saving, a run with a failure; otherwise saving decides.
pub proof fn lemma_commit_gate(successful: nat, failed: nat, save: bool, no_save_on_fail: bool)
    ensures
        successful == 0 ==> !commit_wanted(successful, failed, save, no_save_on_fail),
        no_save_on_fail && failed > 0 ==> !commit_wanted(successful, failed, save, no_save_on_fail),
        successful > 0 && (!no_save_on_fail || failed == 0) ==> commit_wanted(
            successful,
            failed,
            save,
            no_save_on_fail,
        ) == save,
{
}

/// Whether to commit after the run that produced `report`.
pub fn should_commit(report: &Report, save: bool, no_save_on_fail: bool) -> (r: bool)
    ensures
        r == commit_wanted(
            report.successful@.len(),
            report.failed@.len(),
            save,
            no_save_on_fail,
        ),
{
    report.successful.len() > 0 && save && (!no_save_on_fail || report.failed.len() == 0)
}

/// The placeholder for the number of downloaded files in a commit message.
pub open spec fn placeholder() -> Seq<char> {
    seq!['{', 'd', 'o', 'w', 'n', 'l', 'o', 'a', 'd', 'e', 'd', '}']
}

/// `s` with each occurrence of `pat`, from left to right and without
/// overlap, replaced by `rep`.
pub open spec fn replace_all(s: Seq<char>, pat: Seq<char>, rep: Seq<char>) -> Seq<char>
    decreases s.len(),
{
    if s.len() == 0 {
        Seq::empty()
    } else if pat.len() > 0 && pat.len() <= s.len() && s.subrange(0, pat.len() as int) == pat {
        rep + replace_all(s.subrange(pat.len() as int, s.len() as int), pat, rep)
    } else {
        seq![s[0]] + replace_all(s.drop_first(), pat, rep)
    }
}

/// Whether `pat` occurs in `s` at `at`.
fn occurs_at(s: &str, n: usize, at: usize, pat: &str, m: usize) -> (r: bool)
    requires
        n == s@.len(),
        m == pat@.len(),
        at <= n,
    ensures
        r == (m <= n - at && s@.subrange(at as int, at + m) == pat@),
{
    if m > n - at {
        return false;
    }
    let mut j: usize = 0;
    while j < m
        invariant
            n == s@.len(),
            m == pat@.len(),
            at + m <= n,
            j <= m,
            forall|k: int| 0 <= k < j ==> s@[at + k] == pat@[k],
        decreases m - j,
    {
        if s.get_char(at + j) != pat.get_char(j) {
            proof {
                assert(s@.subrange(at as int, at + m)[j as int] != pat@[j as int]);
            }
            return false;
        }
        j = j + 1;
    }
    proof {
        assert(s@.subrange(at as int, at + m) =~= pat@);
    }
    true
}

/// The commit message from `template`, with each `{downloaded}` replaced by
/// the number of downloaded files.
pub fn commit_message(template: &str, downloaded: usize) -> (r: String)
    ensures
        r@ == replace_all(template@, placeholder(), decimal(downloaded as nat)),
{
    let pat = "{downloaded}";
    proof {
        reveal_strlit("{downloaded}");
        assert(pat@ =~= placeholder());
    }
    let m = pat.unicode_len();
    let count = decimal_text(downloaded);
    let ghost s = template@;
    let ghost rep = count@;
    let n = template.unicode_len();
    let mut out = String::new();
    let mut i: usize = 0;
    proof {
        assert(s.subrange(0, n as int) =~= s);
        assert(out@ + replace_all(s, placeholder(), rep) =~= replace_all(s, placeholder(), rep));
    }
    while i < n
        invariant
            n == s.len(),
            s == template@,
            pat@ == placeholder(),
            m == 12,
            rep == count@,
            i <= n,
            out@ + replace_all(s.subrange(i as int, n as int), placeholder(), rep) == replace_all(s, placeholder(), rep),
        decreases n - i,
    {
        let ghost rest = s.subrange(i as int, n as int);
        if occurs_at(template, n, i, pat, m) {
            proof {
                assert(rest.subrange(0, 12) =~= s.subrange(i as int, i + 12));
                assert(rest.subrange(12, rest.len() as int) =~= s.subrange(i + 12, n as int));
                assert(out@ + count@ + replace_all(s.subrange(i + 12, n as int), placeholder(), rep)
                    =~= out@ + (count@ + replace_all(s.subrange(i + 12, n as int), placeholder(), rep)));
            }
            out.append(count.as_str());
            i = i + m;
        } else {
            let one = template.substring_char(i, i + 1);
            proof {
                if 12 <= rest.len() {
                    assert(rest.subrange(0, 12) =~= s.subrange(i as int, i + 12));
                }
                assert(rest.drop_first() =~= s.subrange(i + 1, n as int));
                assert(one@ =~= seq![rest[0]]);
                assert(out@ + one@ + replace_all(s.subrange(i + 1, n as int), placeholder(), rep)
                    =~= out@ + (one@ + replace_all(s.subrange(i + 1, n as int), placeholder(), rep)));
            }
            out.append(one);
            i = i + 1;
        }
    }
    proof {
        assert(s.subrange(n as int, n as int) =~= Seq::<char>::empty());
        assert(out@ + Seq::<char>::empty() =~= out@);
    }
    out
}

} // verus!
