//! The `nix` and `nix-build` commands, and what their outcomes mean.
use crate::errno::{errno, number, Errno};
use crate::text::{
    chars_of, contains, from_utf8, from_utf8_lossy, is_white_space, law_trimmed_start,
    leading_white_space, lemma_split_of_joined, lemma_split_of_one, lossy_text, occurs, split,
    trim, trim_newlines, trimmed, trimmed_start, utf8_fault, without_trailing,
};
use vstd::prelude::*;
use vstd::utf8::{decode_utf8, encode_utf8, valid_utf8};

verus! {

/// The program that evaluates.
pub const NIX_EXECUTABLE: &'static str = "nix";

/// The program that builds.
pub const NIX_BUILD_EXECUTABLE: &'static str = "nix-build";

/// The expression that attributes are resolved from unless another is given.
pub const NIXPKGS: &'static str = "<nixpkgs>";

/// A failed evaluation or build: the number that the request is answered with
/// and what `nix` wrote.
#[derive(Debug, PartialEq)]
pub struct NixError {
    pub errno: i32,
    pub message: String,
}

/// What a `NixError` says.
pub struct NixErrorView {
    pub errno: i32,
    pub message: Seq<char>,
}

impl View for NixError {
    type V = NixErrorView;

    open spec fn view(&self) -> NixErrorView {
        NixErrorView { errno: self.errno, message: self.message@ }
    }
}

impl Clone for NixError {
    fn clone(&self) -> (copy: Self)
        ensures
            copy == *self,
    {
        NixError { errno: self.errno, message: self.message.clone() }
    }
}

/// What came of resolving a link: the store path, or why there is none.
pub type BuildResult = Result<String, NixError>;

/// What a `BuildResult` says.
pub open spec fn build_view(result: BuildResult) -> Result<Seq<char>, NixErrorView> {
    match result {
        Ok(path) => Ok(path@),
        Err(error) => Err(error@),
    }
}

/// What stands at a dotted path.
#[derive(Clone, Copy, Debug, PartialEq, Eq, Structural)]
pub enum AttrKind {
    /// A derivation.
    Derivation,
    /// An attribute set, which is a directory.
    Directory,
}

/// What an error of `nix` starts with.
pub const ERROR_MARK: &'static str = "error:";

/// Whether `line` tells of an error: it starts with `error:`, leading white
/// space aside.
pub open spec fn is_error_line(line: Seq<char>) -> bool {
    ERROR_MARK@.is_prefix_of(trimmed_start(line))
}

/// The last of `lines` that tells of an error.
pub open spec fn last_error_line(lines: Seq<Seq<char>>) -> Option<Seq<char>>
    decreases lines.len(),
{
    if lines.len() == 0 {
        None
    } else if is_error_line(lines.last()) {
        Some(lines.last())
    } else {
        last_error_line(lines.drop_last())
    }
}

/// What tells why `nix` failed: the last line of `stderr` that starts with
/// `error:`, leading white space aside, and all of `stderr` if there is none.
pub open spec fn error_line(stderr: Seq<char>) -> Seq<char> {
    match last_error_line(split(stderr, '\n')) {
        Some(line) => line,
        None => stderr,
    }
}

fn tells_of_error(line: &Vec<char>) -> (tells: bool)
    ensures
        tells == is_error_line(line@),
{
    let mark: Vec<char> = chars_of(ERROR_MARK);
    let start: usize = leading_white_space(line);
    let ghost rest = trimmed_start(line@);
    if line.len() - start < mark.len() {
        return false;
    }
    for i in 0..mark.len()
        invariant
            start + mark.len() <= line.len(),
            mark@ == ERROR_MARK@,
            rest == trimmed_start(line@),
            rest == line@.skip(start as int),
            forall|j: int| 0 <= j < i ==> #[trigger] rest[j] == mark@[j],
    {
        if line[start + i] != mark[i] {
            assert(rest.subrange(0, mark@.len() as int)[i as int] == line@[start + i]);
            return false;
        }
        assert(rest[i as int] == line@[start + i]);
    }
    assert(rest.subrange(0, mark@.len() as int) =~= mark@);
    true
}

/// The characters of the line of `stderr` that tells why `nix` failed.
pub fn find_error_line(stderr: &str) -> (line: Vec<char>)
    ensures
        line@ == error_line(stderr@),
{
    let chars: Vec<char> = chars_of(stderr);
    let mut found: Option<Vec<char>> = None;
    let mut line: Vec<char> = Vec::new();
    let mut i: usize = 0;
    let ghost mut lines: Seq<Seq<char>> = seq![Seq::empty()];
    assert(stderr@.take(0) =~= Seq::empty());
    assert(lines.drop_last() =~= Seq::empty());
    while i < chars.len()
        invariant
            i <= chars@.len(),
            chars@ == stderr@,
            lines == split(stderr@.take(i as int), '\n'),
            lines.len() > 0,
            line@ == lines.last(),
            last_error_line(lines.drop_last()) == match found {
                Some(line) => Some(line@),
                None => None,
            },
        decreases chars.len() - i,
    {
        let c: char = chars[i];
        let ghost before = lines;
        proof {
            assert(stderr@.take(i + 1).drop_last() =~= stderr@.take(i as int));
            assert(stderr@.take(i + 1).last() == c);
            lines = split(stderr@.take(i + 1), '\n');
        }
        if c == '\n' {
            assert(lines.drop_last() =~= before);
            if tells_of_error(&line) {
                found = Some(line);
            }
            line = Vec::new();
        } else {
            assert(lines.drop_last() =~= before.drop_last());
            line.push(c);
        }
        i += 1;
    }
    assert(stderr@.take(stderr@.len() as int) =~= stderr@);
    if tells_of_error(&line) {
        return line;
    }
    match found {
        Some(line) => line,
        None => chars,
    }
}

/// Whether `nix` wrote that there is no such attribute.
pub open spec fn says_missing(stderr: Seq<char>) -> bool {
    ||| occurs("does not provide attribute"@, stderr)
    ||| occurs("attribute '"@, stderr) && occurs("' missing"@, stderr)
    ||| occurs("not found"@, stderr)
    ||| occurs("does not exist"@, stderr)
    ||| occurs("undefined variable"@, stderr)
}

/// Whether `nix` wrote that it gave up waiting.
pub open spec fn says_timed_out(stderr: Seq<char>) -> bool {
    occurs("timed out"@, stderr) || occurs("timeout"@, stderr)
}

/// Whether `nix` wrote that the network could not be reached.
pub open spec fn says_unreachable(stderr: Seq<char>) -> bool {
    ||| occurs("could not resolve"@, stderr)
    ||| occurs("connection refused"@, stderr)
    ||| occurs("name or service not known"@, stderr)
    ||| occurs("network is unreachable"@, stderr)
    ||| occurs("network unreachable"@, stderr)
    ||| occurs("no route to host"@, stderr)
    ||| occurs("host is unreachable"@, stderr)
    ||| occurs("host unreachable"@, stderr)
}

/// Whether `nix` wrote that it was refused access.
pub open spec fn says_denied(stderr: Seq<char>) -> bool {
    occurs("permission denied"@, stderr) || occurs("access denied"@, stderr)
}

/// The error that `line` tells of. A missing attribute comes before a timeout,
/// that before the network and that before a refusal.
pub open spec fn eval_error(line: Seq<char>) -> Errno {
    if says_missing(line) {
        Errno::NoEntry
    } else if says_timed_out(line) {
        Errno::TimedOut
    } else if says_unreachable(line) {
        Errno::NetworkUnreachable
    } else if says_denied(line) {
        Errno::Access
    } else {
        Errno::Io
    }
}

/// The number of the error that `stderr` tells of in its error line.
pub fn classify_eval_error(stderr: &str) -> (n: i32)
    ensures
        n == number(eval_error(error_line(stderr@))),
        n != 0,
        ({
            let line = error_line(stderr@);
            let missing = {
                ||| occurs("does not provide attribute"@, line)
                ||| occurs("attribute '"@, line) && occurs("' missing"@, line)
                ||| occurs("not found"@, line)
                ||| occurs("does not exist"@, line)
                ||| occurs("undefined variable"@, line)
            };
            let timed_out = occurs("timed out"@, line) || occurs("timeout"@, line);
            let unreachable = {
                ||| occurs("could not resolve"@, line)
                ||| occurs("connection refused"@, line)
                ||| occurs("name or service not known"@, line)
                ||| occurs("network is unreachable"@, line)
                ||| occurs("network unreachable"@, line)
                ||| occurs("no route to host"@, line)
                ||| occurs("host is unreachable"@, line)
                ||| occurs("host unreachable"@, line)
            };
            let denied = occurs("permission denied"@, line) || occurs("access denied"@, line);
            &&& n == number(Errno::NoEntry) <==> missing
            &&& n == number(Errno::TimedOut) <==> timed_out && !missing
            &&& n == number(Errno::NetworkUnreachable) <==> unreachable && !missing && !timed_out
            &&& n == number(Errno::Access) <==> denied && !missing && !timed_out && !unreachable
            &&& n == number(Errno::Io) <==> !missing && !timed_out && !unreachable && !denied
        }),
{
    // The final `error:` line alone, not the build log in front of it, and whole
    // phrases: bare words like "network" also stand in unrelated messages.
    let line: Vec<char> = find_error_line(stderr);
    // An unpacked source reports a missing attribute as an undefined variable.
    if contains(&line, "does not provide attribute")
        || (contains(&line, "attribute '") && contains(&line, "' missing"))
        || contains(&line, "not found")
        || contains(&line, "does not exist")
        || contains(&line, "undefined variable")
    {
        errno(Errno::NoEntry)
    } else if contains(&line, "timed out") || contains(&line, "timeout") {
        errno(Errno::TimedOut)
    } else if contains(&line, "could not resolve")
        || contains(&line, "connection refused")
        || contains(&line, "name or service not known")
        || contains(&line, "network is unreachable")
        || contains(&line, "network unreachable")
        || contains(&line, "no route to host")
        || contains(&line, "host is unreachable")
        || contains(&line, "host unreachable")
    {
        errno(Errno::NetworkUnreachable)
    } else if contains(&line, "permission denied") || contains(&line, "access denied") {
        errno(Errno::Access)
    } else {
        errno(Errno::Io)
    }
}

/// Whether `nix` wrote that the attribute is there and is a set: either in the
/// words of old versions or by missing the `outPath` of it.
pub open spec fn says_attr_set(stderr: Seq<char>) -> bool {
    ||| occurs("value is a set"@, stderr)
    ||| occurs("attribute 'outPath' in selection path"@, stderr)
    ||| occurs("'outpath' in selection path"@, stderr)
}

/// The error that `stderr` tells of, with what it says, or none if it tells of
/// an attribute set.
pub open spec fn stderr_error(stderr: Seq<char>) -> Option<NixErrorView> {
    if says_attr_set(stderr) {
        None
    } else {
        Some(
            NixErrorView {
                errno: number(eval_error(error_line(stderr))),
                message: trimmed(stderr),
            },
        )
    }
}

/// The error that `stderr` tells of, with what it says, or none if it tells of
/// an attribute set.
pub fn classify_nix_stderr(stderr: &str) -> (error: Option<NixError>)
    ensures
        match error {
            Some(e) => stderr_error(stderr@) == Some(e@) && e.errno != 0,
            None => stderr_error(stderr@) is None,
        },
        error is None <==> occurs("value is a set"@, stderr@) || occurs(
            "attribute 'outPath' in selection path"@,
            stderr@,
        ) || occurs("'outpath' in selection path"@, stderr@),
        error matches Some(e) ==> e.message@ == trimmed(stderr@) && e.errno == number(
            eval_error(error_line(stderr@)),
        ),
{
    let log: Vec<char> = chars_of(stderr);
    let is_directory: bool = contains(&log, "value is a set") || contains(
        &log,
        "attribute 'outPath' in selection path",
    ) || contains(&log, "'outpath' in selection path");
    if is_directory {
        None
    } else {
        Some(
            NixError {
                errno: classify_eval_error(stderr),
                message: trim(stderr).to_string(),
            },
        )
    }
}

/// A program and its arguments.
#[derive(Debug, PartialEq)]
pub struct NixCommand {
    pub program: String,
    pub args: Vec<String>,
}

/// What a `NixCommand` says.
#[verifier::ext_equal]
pub struct NixCommandView {
    pub program: Seq<char>,
    pub args: Seq<Seq<char>>,
}

impl View for NixCommand {
    type V = NixCommandView;

    open spec fn view(&self) -> NixCommandView {
        NixCommandView { program: self.program@, args: self.args.deep_view() }
    }
}

/// How a command ended.
#[derive(Debug, PartialEq)]
pub enum Run {
    /// It could not be started.
    NotStarted { cause: String },
    /// It ran to its end.
    Finished { success: bool, stdout: Vec<u8>, stderr: Vec<u8> },
}

/// `nix eval --raw` of `installable` in the file or expression `nixpkgs`.
pub open spec fn eval_command_view(installable: Seq<char>, nixpkgs: Seq<char>) -> NixCommandView {
    NixCommandView {
        program: NIX_EXECUTABLE@,
        args: seq![
            "--extra-experimental-features"@,
            "nix-command"@,
            "eval"@,
            "--raw"@,
            "-f"@,
            nixpkgs,
            installable,
        ],
    }
}

/// `nix eval --raw` of `installable` in the file or expression `nixpkgs`.
pub fn eval_command(installable: String, nixpkgs: &str) -> (command: NixCommand)
    ensures
        command@ == eval_command_view(installable@, nixpkgs@),
        command.program@ == "nix"@,
        command.args@.len() == 7,
        command.args@[0]@ == "--extra-experimental-features"@,
        command.args@[1]@ == "nix-command"@,
        command.args@[2]@ == "eval"@,
        command.args@[3]@ == "--raw"@,
        command.args@[4]@ == "-f"@,
        command.args@[5]@ == nixpkgs@,
        command.args@[6]@ == installable@,
{
    let mut args: Vec<String> = Vec::new();
    args.push("--extra-experimental-features".to_string());
    args.push("nix-command".to_string());
    args.push("eval".to_string());
    args.push("--raw".to_string());
    args.push("-f".to_string());
    args.push(nixpkgs.to_string());
    args.push(installable);
    let command = NixCommand { program: NIX_EXECUTABLE.to_string(), args };
    assert(command@.args =~= eval_command_view(installable@, nixpkgs@).args);
    command
}

/// The command that evaluates the store path of `attr_path` without building it.
pub open spec fn eval_attr_view(attr_path: Seq<char>, nixpkgs: Seq<char>) -> NixCommandView {
    eval_command_view(attr_path + ".outPath"@, nixpkgs)
}

/// The command that evaluates the store path of `attr_path` without building it.
pub fn eval_attr_command(attr_path: &str, nixpkgs: &str) -> (command: NixCommand)
    ensures
        command@ == eval_attr_view(attr_path@, nixpkgs@),
        command.program@ == "nix"@,
        command.args@.len() == 7,
        command.args@[0]@ == "--extra-experimental-features"@,
        command.args@[1]@ == "nix-command"@,
        command.args@[2]@ == "eval"@,
        command.args@[3]@ == "--raw"@,
        command.args@[4]@ == "-f"@,
        command.args@[5]@ == nixpkgs@,
        command.args@[6]@ == attr_path@ + ".outPath"@,
{
    let mut installable: String = attr_path.to_string();
    installable.append(".outPath");
    eval_command(installable, nixpkgs)
}

/// The command that builds a derivation, with `how` telling which one.
pub open spec fn build_command_view(how: Seq<Seq<char>>) -> NixCommandView {
    NixCommandView { program: NIX_BUILD_EXECUTABLE@, args: seq!["--no-out-link"@] + how }
}

/// The command that builds `attr_path` of `nixpkgs`.
pub open spec fn build_attr_view(attr_path: Seq<char>, nixpkgs: Seq<char>) -> NixCommandView {
    build_command_view(seq!["--attr"@, attr_path, nixpkgs])
}

/// The command that builds `attr_path` of `nixpkgs`.
pub fn build_attr_command(attr_path: &str, nixpkgs: &str) -> (command: NixCommand)
    ensures
        command@ == build_attr_view(attr_path@, nixpkgs@),
        command.program@ == "nix-build"@,
        command.args@.len() == 4,
        command.args@[0]@ == "--no-out-link"@,
        command.args@[1]@ == "--attr"@,
        command.args@[2]@ == attr_path@,
        command.args@[3]@ == nixpkgs@,
{
    let mut args: Vec<String> = Vec::new();
    args.push("--no-out-link".to_string());
    args.push("--attr".to_string());
    args.push(attr_path.to_string());
    args.push(nixpkgs.to_string());
    let command = NixCommand { program: NIX_BUILD_EXECUTABLE.to_string(), args };
    assert(command@.args =~= build_attr_view(attr_path@, nixpkgs@).args);
    command
}

/// The expression whose build unpacks the source `attr_path` of `nixpkgs`.
pub open spec fn src_only_expr(attr_path: Seq<char>, nixpkgs: Seq<char>) -> Seq<char> {
    "with import "@ + nixpkgs + " {}; srcOnly { name = "@ + attr_path + ".name; src = "@ + attr_path
        + "; }"@
}

/// The command that unpacks the source `attr_path` of `nixpkgs`.
pub open spec fn build_src_only_view(attr_path: Seq<char>, nixpkgs: Seq<char>) -> NixCommandView {
    build_command_view(seq!["--expr"@, src_only_expr(attr_path, nixpkgs)])
}

/// The command that unpacks the source `attr_path` of `nixpkgs`.
pub fn build_src_only_command(attr_path: &str, nixpkgs: &str) -> (command: NixCommand)
    ensures
        command@ == build_src_only_view(attr_path@, nixpkgs@),
        command.program@ == "nix-build"@,
        command.args@.len() == 3,
        command.args@[0]@ == "--no-out-link"@,
        command.args@[1]@ == "--expr"@,
        command.args@[2]@ == "with import "@ + nixpkgs@ + " {}; srcOnly { name = "@ + attr_path@
            + ".name; src = "@ + attr_path@ + "; }"@,
{
    let mut expr: String = "with import ".to_string();
    expr.append(nixpkgs);
    expr.append(" {}; srcOnly { name = ");
    expr.append(attr_path);
    expr.append(".name; src = ");
    expr.append(attr_path);
    expr.append("; }");
    let mut args: Vec<String> = Vec::new();
    args.push("--no-out-link".to_string());
    args.push("--expr".to_string());
    args.push(expr);
    let command = NixCommand { program: NIX_BUILD_EXECUTABLE.to_string(), args };
    assert(command@.args =~= build_src_only_view(attr_path@, nixpkgs@).args);
    command
}

/// The command that resolves a link: it unpacks the source or builds the
/// derivation.
pub open spec fn resolve_view(
    src_only: bool,
    attr_path: Seq<char>,
    nixpkgs: Seq<char>,
) -> NixCommandView {
    if src_only {
        build_src_only_view(attr_path, nixpkgs)
    } else {
        build_attr_view(attr_path, nixpkgs)
    }
}

/// The command that resolves a link: it unpacks the source or builds the
/// derivation.
pub fn resolve_command(src_only: bool, attr_path: &str, nixpkgs: &str) -> (command: NixCommand)
    ensures
        command@ == resolve_view(src_only, attr_path@, nixpkgs@),
        command.program@ == "nix-build"@,
        command.args@.len() == if src_only {
            3nat
        } else {
            4nat
        },
        command.args@[0]@ == "--no-out-link"@,
        !src_only ==> command.args@[1]@ == "--attr"@,
        !src_only ==> command.args@[2]@ == attr_path@,
        !src_only ==> command.args@[3]@ == nixpkgs@,
        src_only ==> command.args@[1]@ == "--expr"@,
        src_only ==> command.args@[2]@ == "with import "@ + nixpkgs@ + " {}; srcOnly { name = "@
            + attr_path@ + ".name; src = "@ + attr_path@ + "; }"@,
{
    if src_only {
        build_src_only_command(attr_path, nixpkgs)
    } else {
        build_attr_command(attr_path, nixpkgs)
    }
}

/// The error of a program that could not be started.
pub open spec fn spawn_error(program: Seq<char>, cause: Seq<char>) -> NixErrorView {
    NixErrorView { errno: number(Errno::Io), message: "spawn "@ + program + ": "@ + cause }
}

fn spawn_failed(program: &str, cause: &str) -> (error: NixError)
    ensures
        error@ == spawn_error(program@, cause@),
        error.errno != 0,
{
    let mut message: String = "spawn ".to_string();
    message.append(program);
    message.append(": ");
    message.append(cause);
    NixError { errno: errno(Errno::Io), message }
}

/// What a failed evaluation says of the attribute: a set is a directory.
pub open spec fn failed_eval(stderr: Seq<char>) -> Result<AttrKind, NixErrorView> {
    match stderr_error(stderr) {
        None => Ok(AttrKind::Directory),
        Some(error) => Err(error),
    }
}

/// What a `Result<AttrKind, NixError>` says.
pub open spec fn eval_view(result: Result<AttrKind, NixError>) -> Result<AttrKind, NixErrorView> {
    match result {
        Ok(kind) => Ok(kind),
        Err(error) => Err(error@),
    }
}

/// What an evaluation that failed with `stderr` says of the attribute.
pub fn judge_failed_eval(stderr: &str) -> (result: Result<AttrKind, NixError>)
    ensures
        eval_view(result) == failed_eval(stderr@),
        result matches Err(e) ==> e.errno != 0,
{
    match classify_nix_stderr(stderr) {
        None => Ok(AttrKind::Directory),
        Some(error) => Err(error),
    }
}

/// What an evaluation says of the attribute.
pub open spec fn eval_outcome(run: Run) -> Result<AttrKind, NixErrorView> {
    match run {
        Run::NotStarted { cause } => Err(spawn_error(NIX_EXECUTABLE@, cause@)),
        Run::Finished { success, stdout, stderr } => if success {
            Ok(AttrKind::Derivation)
        } else {
            failed_eval(lossy_text(stderr@))
        },
    }
}

/// What the run of `eval_attr_command` says of the attribute.
pub fn judge_eval(run: &Run) -> (result: Result<AttrKind, NixError>)
    ensures
        eval_view(result) == eval_outcome(*run),
        result matches Err(e) ==> e.errno != 0,
        result == Ok::<AttrKind, NixError>(AttrKind::Derivation) <==> {
            run matches Run::Finished { success, .. } && *success
        },
{
    match run {
        Run::NotStarted { cause } => Err(spawn_failed(NIX_EXECUTABLE, cause.as_str())),
        Run::Finished { success, stdout: _, stderr } => if *success {
            Ok(AttrKind::Derivation)
        } else {
            let text: String = from_utf8_lossy(stderr.as_slice());
            judge_failed_eval(text.as_str())
        },
    }
}

/// What a failed build says: the error that it tells of, and an input/output
/// error if it tells of none.
pub open spec fn failed_build(stderr: Seq<char>) -> NixErrorView {
    match stderr_error(stderr) {
        Some(error) => error,
        None => NixErrorView { errno: number(Errno::Io), message: trimmed(stderr) },
    }
}

/// The error of a build that failed with `stderr`.
pub fn judge_failed_build(stderr: &str) -> (error: NixError)
    ensures
        error@ == failed_build(stderr@),
        error.errno != 0,
{
    match classify_nix_stderr(stderr) {
        Some(error) => error,
        None => NixError { errno: errno(Errno::Io), message: trim(stderr).to_string() },
    }
}

/// The store path that a build printed, or an input/output error if what it
/// printed is no text.
pub open spec fn printed_path(decoded: Result<Seq<char>, Seq<char>>) -> Result<
    Seq<char>,
    NixErrorView,
> {
    match decoded {
        Ok(text) => Ok(without_trailing(text, '\n')),
        Err(fault) => Err(
            NixErrorView {
                errno: number(Errno::Io),
                message: "nix-build non-UTF-8 output: "@ + fault,
            },
        ),
    }
}

/// The store path that a build printed, given what it printed as text, or why
/// that is no text.
pub fn judge_printed_path(decoded: Result<String, String>) -> (result: BuildResult)
    ensures
        build_view(result) == printed_path(
            match decoded {
                Ok(text) => Ok(text@),
                Err(fault) => Err(fault@),
            },
        ),
        result matches Err(e) ==> e.errno != 0,
{
    match decoded {
        Ok(text) => Ok(trim_newlines(text.as_str()).to_string()),
        Err(fault) => {
            let mut message: String = "nix-build non-UTF-8 output: ".to_string();
            message.append(fault.as_str());
            Err(NixError { errno: errno(Errno::Io), message })
        },
    }
}

/// `bytes` as text, or why they are none.
pub open spec fn decoded(bytes: Seq<u8>) -> Result<Seq<char>, Seq<char>> {
    if valid_utf8(bytes) {
        Ok(decode_utf8(bytes))
    } else {
        Err(utf8_fault(bytes))
    }
}

/// What came of a build.
pub open spec fn build_outcome(run: Run) -> Result<Seq<char>, NixErrorView> {
    match run {
        Run::NotStarted { cause } => Err(spawn_error(NIX_BUILD_EXECUTABLE@, cause@)),
        Run::Finished { success, stdout, stderr } => if success {
            printed_path(decoded(stdout@))
        } else {
            Err(failed_build(lossy_text(stderr@)))
        },
    }
}

/// What came of the run of `resolve_command`.
pub fn judge_build(run: Run) -> (result: BuildResult)
    ensures
        build_view(result) == build_outcome(run),
        result matches Err(e) ==> e.errno != 0,
{
    match run {
        Run::NotStarted { cause } => Err(spawn_failed(NIX_BUILD_EXECUTABLE, cause.as_str())),
        Run::Finished { success, stdout, stderr } => if success {
            let text: Result<String, String> = from_utf8(stdout);
            proof {
                if text is Ok {
                    vstd::utf8::encode_utf8_decode_utf8(text->Ok_0@);
                }
            }
            judge_printed_path(text)
        } else {
            let text: String = from_utf8_lossy(stderr.as_slice());
            Err(judge_failed_build(text.as_str()))
        },
    }
}

/// An attribute set is a directory, though `nix` also writes that something of
/// it was not found.
pub proof fn law_attr_set_is_directory(stderr: Seq<char>)
    requires
        says_attr_set(stderr),
    ensures
        failed_eval(stderr) == Ok::<AttrKind, NixErrorView>(AttrKind::Directory),
{
}

/// A failure that tells of no attribute set has the number of the error that
/// its error line tells of, for an evaluation and for a build, and says what `nix` wrote.
pub proof fn law_failures_agree(stderr: Seq<char>)
    requires
        !says_attr_set(stderr),
    ensures
        failed_eval(stderr) == Err::<AttrKind, NixErrorView>(failed_build(stderr)),
        failed_build(stderr).errno == number(eval_error(error_line(stderr))),
        failed_build(stderr).message == trimmed(stderr),
{
}

/// A text of one line that starts with `error:`, with or without white space
/// in front, is its own error line.
pub proof fn law_one_error_line(line: Seq<char>)
    requires
        !line.contains('\n'),
        ERROR_MARK@.is_prefix_of(line) || is_error_line(line),
    ensures
        last_error_line(split(line, '\n')) == Some(line),
        error_line(line) == line,
{
    if ERROR_MARK@.is_prefix_of(line) {
        reveal_strlit("error:");
        assert(line.subrange(0, ERROR_MARK@.len() as int)[0] == line[0]);
        assert(trimmed_start(line) == line);
    }
    lemma_split_of_one(line, '\n');
    assert(seq![line].last() == line);
}

/// What was logged in front of a text that has an error line does not decide
/// what the error is.
pub proof fn law_noise_in_front(noise: Seq<char>, text: Seq<char>)
    requires
        last_error_line(split(text, '\n')) is Some,
    ensures
        error_line(noise + seq!['\n'] + text) == error_line(text),
{
    lemma_split_of_joined(noise, text, '\n');
    lemma_last_error_line_of_joined(split(noise, '\n'), split(text, '\n'));
}

/// What is logged behind a text that has an error line, and tells of no error
/// itself, does not decide what the error is.
pub proof fn law_noise_behind(text: Seq<char>, noise: Seq<char>)
    requires
        last_error_line(split(text, '\n')) is Some,
        last_error_line(split(noise, '\n')) is None,
    ensures
        error_line(text + seq!['\n'] + noise) == error_line(text),
{
    lemma_split_of_joined(text, noise, '\n');
    lemma_last_error_line_of_joined(split(text, '\n'), split(noise, '\n'));
}

proof fn lemma_last_error_line_of_joined(a: Seq<Seq<char>>, b: Seq<Seq<char>>)
    ensures
        last_error_line(a + b) == match last_error_line(b) {
            Some(line) => Some(line),
            None => last_error_line(a),
        },
    decreases b.len(),
{
    if b.len() == 0 {
        assert(a + b =~= a);
    } else {
        assert((a + b).drop_last() =~= a + b.drop_last());
        lemma_last_error_line_of_joined(a, b.drop_last());
    }
}

/// The path that a successful build prints, with any number of line feeds
/// behind it, is the path that the link leads to.
pub proof fn law_printed_path_is_read(path: Seq<char>, feeds: nat, run: Run)
    requires
        path.len() > 0 ==> path.last() != '\n',
        run matches Run::Finished { success, stdout, .. } && success && stdout@ == encode_utf8(
            path + Seq::new(feeds, |i: int| '\n'),
        ),
    ensures
        build_outcome(run) == Ok::<Seq<char>, NixErrorView>(path),
{
    let printed = path + Seq::new(feeds, |i: int| '\n');
    vstd::utf8::encode_utf8_valid_utf8(printed);
    vstd::utf8::encode_utf8_decode_utf8(printed);
    lemma_feeds_are_cut(path, feeds);
}

proof fn lemma_feeds_are_cut(path: Seq<char>, feeds: nat)
    requires
        path.len() > 0 ==> path.last() != '\n',
    ensures
        without_trailing(path + Seq::new(feeds, |i: int| '\n'), '\n') == path,
    decreases feeds,
{
    let printed = path + Seq::new(feeds, |i: int| '\n');
    if feeds == 0 {
        assert(printed =~= path);
    } else {
        assert(printed.drop_last() =~= path + Seq::new((feeds - 1) as nat, |i: int| '\n'));
        lemma_feeds_are_cut(path, (feeds - 1) as nat);
    }
}

/// Which phrase tells of which error. A line that holds none of them tells of
/// an input/output error.
pub proof fn law_phrases_decide(line: Seq<char>)
    ensures
        ({
            let missing = {
                ||| occurs("does not provide attribute"@, line)
                ||| occurs("attribute '"@, line) && occurs("' missing"@, line)
                ||| occurs("not found"@, line)
                ||| occurs("does not exist"@, line)
                ||| occurs("undefined variable"@, line)
            };
            let timed_out = occurs("timed out"@, line) || occurs("timeout"@, line);
            let unreachable = {
                ||| occurs("could not resolve"@, line)
                ||| occurs("connection refused"@, line)
                ||| occurs("name or service not known"@, line)
                ||| occurs("network is unreachable"@, line)
                ||| occurs("network unreachable"@, line)
                ||| occurs("no route to host"@, line)
                ||| occurs("host is unreachable"@, line)
                ||| occurs("host unreachable"@, line)
            };
            let denied = occurs("permission denied"@, line) || occurs("access denied"@, line);
            &&& eval_error(line) == Errno::NoEntry <==> missing
            &&& eval_error(line) == Errno::TimedOut <==> timed_out && !missing
            &&& eval_error(line) == Errno::NetworkUnreachable <==> unreachable && !missing
                && !timed_out
            &&& eval_error(line) == Errno::Access <==> denied && !missing && !timed_out
                && !unreachable
            &&& eval_error(line) == Errno::Io <==> !missing && !timed_out && !unreachable
                && !denied
        }),
{
}

/// A line tells of an error if and only if it starts with `error:`, white space
/// aside.
pub proof fn law_error_mark(line: Seq<char>)
    ensures
        is_error_line(line) <==> exists|front: Seq<char>, back: Seq<char>|
            {
                &&& line == #[trigger] (front + "error:"@ + back)
                &&& forall|i: int| 0 <= i < front.len() ==> is_white_space(#[trigger] front[i])
            },
{
    reveal_strlit("error:");
    law_trimmed_start(line);
    let rest = trimmed_start(line);
    if is_error_line(line) {
        let front = choose|front: Seq<char>|
            {
                &&& line == #[trigger] (front + rest)
                &&& forall|i: int| 0 <= i < front.len() ==> is_white_space(#[trigger] front[i])
            };
        let back = rest.skip("error:"@.len() as int);
        assert(rest =~= "error:"@ + back);
        assert(line =~= front + "error:"@ + back);
    }
    if exists|front: Seq<char>, back: Seq<char>|
        {
            &&& line == #[trigger] (front + "error:"@ + back)
            &&& forall|i: int| 0 <= i < front.len() ==> is_white_space(#[trigger] front[i])
        } {
        let (front, back) = choose|front: Seq<char>, back: Seq<char>|
            {
                &&& line == #[trigger] (front + "error:"@ + back)
                &&& forall|i: int| 0 <= i < front.len() ==> is_white_space(#[trigger] front[i])
            };
        let marked = "error:"@ + back;
        lemma_white_front(front, marked);
        assert(line =~= front + marked);
        assert(marked.subrange(0, "error:"@.len() as int) =~= "error:"@);
    }
}

proof fn lemma_white_front(front: Seq<char>, rest: Seq<char>)
    requires
        forall|i: int| 0 <= i < front.len() ==> is_white_space(#[trigger] front[i]),
        rest.len() > 0,
        !is_white_space(rest[0]),
    ensures
        trimmed_start(front + rest) == rest,
    decreases front.len(),
{
    if front.len() == 0 {
        assert(front + rest =~= rest);
    } else {
        assert(is_white_space(front[0]));
        assert((front + rest).drop_first() =~= front.drop_first() + rest);
        lemma_white_front(front.drop_first(), rest);
    }
}

/// The error line is the last line that tells of an error, and the whole text
/// if no line does.
pub proof fn law_error_line(stderr: Seq<char>)
    ensures
        ({
            let lines = split(stderr, '\n');
            ||| exists|k: int|
                {
                    &&& 0 <= k < lines.len()
                    &&& is_error_line(#[trigger] lines[k])
                    &&& error_line(stderr) == lines[k]
                    &&& forall|j: int| k < j < lines.len() ==> !is_error_line(#[trigger] lines[j])
                }
            ||| {
                &&& error_line(stderr) == stderr
                &&& forall|k: int| 0 <= k < lines.len() ==> !is_error_line(#[trigger] lines[k])
            }
        }),
{
    lemma_last_error_line(split(stderr, '\n'));
}

proof fn lemma_last_error_line(lines: Seq<Seq<char>>)
    ensures
        match last_error_line(lines) {
            Some(line) => exists|k: int|
                {
                    &&& 0 <= k < lines.len()
                    &&& is_error_line(#[trigger] lines[k])
                    &&& line == lines[k]
                    &&& forall|j: int| k < j < lines.len() ==> !is_error_line(#[trigger] lines[j])
                },
            None => forall|k: int| 0 <= k < lines.len() ==> !is_error_line(#[trigger] lines[k]),
        },
    decreases lines.len(),
{
    if lines.len() > 0 {
        let last = lines.len() - 1;
        assert(lines[last] == lines.last());
        if !is_error_line(lines.last()) {
            let front = lines.drop_last();
            lemma_last_error_line(front);
            if last_error_line(front) is Some {
                let k = choose|k: int|
                    {
                        &&& 0 <= k < front.len()
                        &&& is_error_line(#[trigger] front[k])
                        &&& last_error_line(front) == Some(front[k])
                        &&& forall|j: int|
                            k < j < front.len() ==> !is_error_line(#[trigger] front[j])
                    };
                assert(lines[k] == front[k]);
                assert forall|j: int| k < j < lines.len() implies !is_error_line(
                    #[trigger] lines[j],
                ) by {
                    if j < front.len() {
                        assert(front[j] == lines[j]);
                    }
                }
            } else {
                assert forall|k: int| 0 <= k < lines.len() implies !is_error_line(
                    #[trigger] lines[k],
                ) by {
                    if k < front.len() {
                        assert(front[k] == lines[k]);
                    }
                }
            }
        }
    }
}

/// `nix` tells of a set in one of three phrases, anywhere in the text. Every
/// other text tells of an error: the one of its error line, with all of the
/// text, trimmed, as the message.
pub proof fn law_stderr_tells(stderr: Seq<char>)
    ensures
        ({
            let set = {
                ||| occurs("value is a set"@, stderr)
                ||| occurs("attribute 'outPath' in selection path"@, stderr)
                ||| occurs("'outpath' in selection path"@, stderr)
            };
            &&& stderr_error(stderr) is None <==> set
            &&& !set ==> stderr_error(stderr) == Some(
                NixErrorView {
                    errno: number(eval_error(error_line(stderr))),
                    message: trimmed(stderr),
                },
            )
        }),
{
}

/// What is run to evaluate an attribute: exactly these arguments.
pub proof fn law_evaluation_command(attr_path: Seq<char>, nixpkgs: Seq<char>)
    ensures
        eval_attr_view(attr_path, nixpkgs).program == "nix"@,
        eval_attr_view(attr_path, nixpkgs).args == seq![
            "--extra-experimental-features"@,
            "nix-command"@,
            "eval"@,
            "--raw"@,
            "-f"@,
            nixpkgs,
            attr_path + ".outPath"@,
        ],
{
}

/// What is run to resolve a link: `nix-build` of the attribute from the
/// expression, whatever that is, or of an expression that unpacks the source,
/// with exactly these arguments.
pub proof fn law_resolution_command(attr_path: Seq<char>, nixpkgs: Seq<char>)
    ensures
        resolve_view(false, attr_path, nixpkgs).program == "nix-build"@,
        resolve_view(false, attr_path, nixpkgs).args == seq![
            "--no-out-link"@,
            "--attr"@,
            attr_path,
            nixpkgs,
        ],
        resolve_view(true, attr_path, nixpkgs).program == "nix-build"@,
        resolve_view(true, attr_path, nixpkgs).args == seq![
            "--no-out-link"@,
            "--expr"@,
            "with import "@ + nixpkgs + " {}; srcOnly { name = "@ + attr_path + ".name; src = "@
                + attr_path + "; }"@,
        ],
        build_attr_view(attr_path, nixpkgs) == resolve_view(false, attr_path, nixpkgs),
        build_src_only_view(attr_path, nixpkgs) == resolve_view(true, attr_path, nixpkgs),
{
    assert(resolve_view(false, attr_path, nixpkgs).args =~= seq![
        "--no-out-link"@,
        "--attr"@,
        attr_path,
        nixpkgs,
    ]);
    assert(resolve_view(true, attr_path, nixpkgs).args =~= seq![
        "--no-out-link"@,
        "--expr"@,
        "with import "@ + nixpkgs + " {}; srcOnly { name = "@ + attr_path + ".name; src = "@
            + attr_path + "; }"@,
    ]);
}

/// An evaluation that ends well is that of a derivation, whatever it wrote.
/// What it wrote decides only if it fails: a set is a directory, and all else
/// is an error.
pub proof fn law_evaluation_judged(stdout: Vec<u8>, stderr: Vec<u8>, cause: String)
    ensures
        eval_outcome(Run::Finished { success: true, stdout, stderr }) == Ok::<
            AttrKind,
            NixErrorView,
        >(AttrKind::Derivation),
        ({
            let text = lossy_text(stderr@);
            let set = {
                ||| occurs("value is a set"@, text)
                ||| occurs("attribute 'outPath' in selection path"@, text)
                ||| occurs("'outpath' in selection path"@, text)
            };
            eval_outcome(Run::Finished { success: false, stdout, stderr }) == if set {
                Ok::<AttrKind, NixErrorView>(AttrKind::Directory)
            } else {
                Err(
                    NixErrorView {
                        errno: number(eval_error(error_line(text))),
                        message: trimmed(text),
                    },
                )
            }
        }),
        eval_outcome(Run::NotStarted { cause }) == Err::<AttrKind, NixErrorView>(
            NixErrorView { errno: number(Errno::Io), message: "spawn nix: "@ + cause@ },
        ),
{
    reveal_strlit("spawn ");
    reveal_strlit("nix");
    reveal_strlit(": ");
    reveal_strlit("spawn nix: ");
    assert("spawn "@ + "nix"@ + ": "@ + cause@ =~= "spawn nix: "@ + cause@);
}

/// A build that ends well gives the path that it printed, whatever it logged;
/// output that is no text is an input/output error. One that fails is an
/// error with all that it logged, and a set is an error as well.
pub proof fn law_build_judged(stdout: Vec<u8>, stderr: Vec<u8>, cause: String)
    ensures
        build_outcome(Run::Finished { success: true, stdout, stderr }) == if valid_utf8(stdout@) {
            Ok(without_trailing(decode_utf8(stdout@), '\n'))
        } else {
            Err(
                NixErrorView {
                    errno: number(Errno::Io),
                    message: "nix-build non-UTF-8 output: "@ + utf8_fault(stdout@),
                },
            )
        },
        ({
            let text = lossy_text(stderr@);
            let set = {
                ||| occurs("value is a set"@, text)
                ||| occurs("attribute 'outPath' in selection path"@, text)
                ||| occurs("'outpath' in selection path"@, text)
            };
            build_outcome(Run::Finished { success: false, stdout, stderr }) == Err::<
                Seq<char>,
                NixErrorView,
            >(
                NixErrorView {
                    errno: if set {
                        number(Errno::Io)
                    } else {
                        number(eval_error(error_line(text)))
                    },
                    message: trimmed(text),
                },
            )
        }),
        build_outcome(Run::NotStarted { cause }) == Err::<Seq<char>, NixErrorView>(
            NixErrorView { errno: number(Errno::Io), message: "spawn nix-build: "@ + cause@ },
        ),
{
    reveal_strlit("spawn ");
    reveal_strlit("nix-build");
    reveal_strlit(": ");
    reveal_strlit("spawn nix-build: ");
    assert("spawn "@ + "nix-build"@ + ": "@ + cause@ =~= "spawn nix-build: "@ + cause@);
}

/// The parts of judging, on text: a failed evaluation, a failed build and what
/// a build printed.
pub proof fn law_texts_judged(text: Seq<char>)
    ensures
        ({
            let set = {
                ||| occurs("value is a set"@, text)
                ||| occurs("attribute 'outPath' in selection path"@, text)
                ||| occurs("'outpath' in selection path"@, text)
            };
            let error = NixErrorView {
                errno: number(eval_error(error_line(text))),
                message: trimmed(text),
            };
            &&& failed_eval(text) == if set {
                Ok::<AttrKind, NixErrorView>(AttrKind::Directory)
            } else {
                Err(error)
            }
            &&& failed_build(text) == if set {
                NixErrorView { errno: number(Errno::Io), message: trimmed(text) }
            } else {
                error
            }
        }),
        printed_path(Ok(text)) == Ok::<Seq<char>, NixErrorView>(without_trailing(text, '\n')),
        printed_path(Err(text)) == Err::<Seq<char>, NixErrorView>(
            NixErrorView {
                errno: number(Errno::Io),
                message: "nix-build non-UTF-8 output: "@ + text,
            },
        ),
{
}

} // verus!
