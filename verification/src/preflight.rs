//! What must work before the filesystem is mounted.
use crate::nix::{
    eval_command, eval_command_view, NixCommand, NixCommandView, Run, NIX_BUILD_EXECUTABLE,
    NIX_EXECUTABLE,
};
use crate::text::{from_utf8_lossy, lossy_text, trim, trimmed};
use vstd::prelude::*;

verus! {

/// The checks, in their order.
#[derive(Clone, Copy, Debug, PartialEq, Eq, Structural)]
pub enum PreflightStep {
    /// `nix` can be run.
    Nix,
    /// `nix-build` can be run.
    NixBuild,
    /// `nix eval` works against the expression that attributes are resolved
    /// from.
    Eval,
}

/// The program that a check runs.
pub open spec fn step_program(step: PreflightStep) -> Seq<char> {
    match step {
        PreflightStep::Nix | PreflightStep::Eval => NIX_EXECUTABLE@,
        PreflightStep::NixBuild => NIX_BUILD_EXECUTABLE@,
    }
}

/// The command of a check.
pub open spec fn preflight_view(step: PreflightStep, nixpkgs: Seq<char>) -> NixCommandView {
    match step {
        PreflightStep::Nix | PreflightStep::NixBuild => NixCommandView {
            program: step_program(step),
            args: seq!["--version"@],
        },
        PreflightStep::Eval => eval_command_view("system"@, nixpkgs),
    }
}

fn program_of(step: PreflightStep) -> (program: &'static str)
    ensures
        program@ == step_program(step),
{
    match step {
        PreflightStep::Nix | PreflightStep::Eval => NIX_EXECUTABLE,
        PreflightStep::NixBuild => NIX_BUILD_EXECUTABLE,
    }
}

/// The command of a check.
pub fn preflight_command(step: PreflightStep, nixpkgs: &str) -> (command: NixCommand)
    ensures
        command@ == preflight_view(step, nixpkgs@),
        command.program@ == if step == PreflightStep::NixBuild {
            "nix-build"@
        } else {
            "nix"@
        },
        step != PreflightStep::Eval ==> command.args@.len() == 1 && command.args@[0]@
            == "--version"@,
        step == PreflightStep::Eval ==> {
            &&& command.args@.len() == 7
            &&& command.args@[0]@ == "--extra-experimental-features"@
            &&& command.args@[1]@ == "nix-command"@
            &&& command.args@[2]@ == "eval"@
            &&& command.args@[3]@ == "--raw"@
            &&& command.args@[4]@ == "-f"@
            &&& command.args@[5]@ == nixpkgs@
            &&& command.args@[6]@ == "system"@
        },
{
    match step {
        PreflightStep::Eval => eval_command("system".to_string(), nixpkgs),
        _ => {
            let mut args: Vec<String> = Vec::new();
            args.push("--version".to_string());
            let command = NixCommand { program: program_of(step).to_string(), args };
            assert(command@.args =~= preflight_view(step, nixpkgs@).args);
            command
        },
    }
}

/// What is checked next.
pub open spec fn next_step(step: PreflightStep) -> Option<PreflightStep> {
    match step {
        PreflightStep::Nix => Some(PreflightStep::NixBuild),
        PreflightStep::NixBuild => Some(PreflightStep::Eval),
        PreflightStep::Eval => None,
    }
}

/// Why a check whose program could not be started fails.
pub open spec fn not_runnable(step: PreflightStep, cause: Seq<char>) -> Seq<char> {
    step_program(step) + " not runnable: "@ + cause + " (is it on PATH?)"@
}

/// Why a check fails whose program wrote `stderr` and failed.
pub open spec fn check_failed(step: PreflightStep, nixpkgs: Seq<char>, stderr: Seq<char>) -> Seq<
    char,
> {
    match step {
        PreflightStep::Nix | PreflightStep::NixBuild => step_program(step) + " --version failed: "@
            + trimmed(stderr),
        PreflightStep::Eval => "nix eval against "@ + nixpkgs + " failed: "@ + trimmed(stderr)
            + "\nHint: check NIX_PATH (or pass --nixpkgs) and that the nix-command feature is available."@,
    }
}

/// Why a check fails whose program wrote `stderr` and failed.
pub fn explain_failure(step: PreflightStep, nixpkgs: &str, stderr: &str) -> (message: String)
    ensures
        message@ == check_failed(step, nixpkgs@, stderr@),
{
    match step {
        PreflightStep::Eval => {
            let mut message: String = "nix eval against ".to_string();
            message.append(nixpkgs);
            message.append(" failed: ");
            message.append(trim(stderr));
            message.append(
                "\nHint: check NIX_PATH (or pass --nixpkgs) and that the nix-command feature is available.",
            );
            message
        },
        _ => {
            let mut message: String = program_of(step).to_string();
            message.append(" --version failed: ");
            message.append(trim(stderr));
            message
        },
    }
}

/// What the run of a check leads to: the next check, the end, or why the
/// filesystem is not mounted.
pub open spec fn verdict(step: PreflightStep, nixpkgs: Seq<char>, run: Run) -> Result<
    Option<PreflightStep>,
    Seq<char>,
> {
    match run {
        Run::NotStarted { cause } => Err(not_runnable(step, cause@)),
        Run::Finished { success, stdout, stderr } => if success {
            Ok(next_step(step))
        } else {
            Err(check_failed(step, nixpkgs, lossy_text(stderr@)))
        },
    }
}

/// What the run of `preflight_command` leads to: the next check, the end, or
/// why the filesystem is not mounted.
pub fn judge_preflight(step: PreflightStep, nixpkgs: &str, run: &Run) -> (result: Result<
    Option<PreflightStep>,
    String,
>)
    ensures
        verdict(step, nixpkgs@, *run) == match result {
            Ok(next) => Ok::<Option<PreflightStep>, Seq<char>>(next),
            Err(message) => Err(message@),
        },
{
    match run {
        Run::NotStarted { cause } => {
            let mut message: String = program_of(step).to_string();
            message.append(" not runnable: ");
            message.append(cause.as_str());
            message.append(" (is it on PATH?)");
            Err(message)
        },
        Run::Finished { success, stdout: _, stderr } => if *success {
            Ok(
                match step {
                    PreflightStep::Nix => Some(PreflightStep::NixBuild),
                    PreflightStep::NixBuild => Some(PreflightStep::Eval),
                    PreflightStep::Eval => None,
                },
            )
        } else {
            let text: String = from_utf8_lossy(stderr.as_slice());
            Err(explain_failure(step, nixpkgs, text.as_str()))
        },
    }
}

/// Whether a run ended well.
pub open spec fn succeeded(run: Run) -> bool {
    run matches Run::Finished { success, .. } && success
}

/// The filesystem is mounted if and only if the three checks end well; they
/// come one after the other, and the first that does not ends them.
pub proof fn law_all_checks_must_pass(nixpkgs: Seq<char>, nix: Run, nix_build: Run, eval: Run)
    ensures
        verdict(PreflightStep::Nix, nixpkgs, nix) == Ok::<Option<PreflightStep>, Seq<char>>(
            Some(PreflightStep::NixBuild),
        ) <==> succeeded(nix),
        verdict(PreflightStep::NixBuild, nixpkgs, nix_build) == Ok::<
            Option<PreflightStep>,
            Seq<char>,
        >(Some(PreflightStep::Eval)) <==> succeeded(nix_build),
        verdict(PreflightStep::Eval, nixpkgs, eval) == Ok::<Option<PreflightStep>, Seq<char>>(None)
            <==> succeeded(eval),
        !succeeded(nix) ==> verdict(PreflightStep::Nix, nixpkgs, nix) is Err,
        !succeeded(nix_build) ==> verdict(PreflightStep::NixBuild, nixpkgs, nix_build) is Err,
        !succeeded(eval) ==> verdict(PreflightStep::Eval, nixpkgs, eval) is Err,
{
}

/// What each check runs: exactly these arguments.
pub proof fn law_check_commands(nixpkgs: Seq<char>)
    ensures
        preflight_view(PreflightStep::Nix, nixpkgs).program == "nix"@,
        preflight_view(PreflightStep::Nix, nixpkgs).args == seq!["--version"@],
        preflight_view(PreflightStep::NixBuild, nixpkgs).program == "nix-build"@,
        preflight_view(PreflightStep::NixBuild, nixpkgs).args == seq!["--version"@],
        preflight_view(PreflightStep::Eval, nixpkgs).program == "nix"@,
        preflight_view(PreflightStep::Eval, nixpkgs).args == seq![
            "--extra-experimental-features"@,
            "nix-command"@,
            "eval"@,
            "--raw"@,
            "-f"@,
            nixpkgs,
            "system"@,
        ],
{
}

/// A check that ends well leads to the next one, whatever it wrote.
pub proof fn law_passed_checks(nixpkgs: Seq<char>, stdout: Vec<u8>, stderr: Vec<u8>)
    ensures
        ({
            let run = Run::Finished { success: true, stdout, stderr };
            &&& verdict(PreflightStep::Nix, nixpkgs, run) == Ok::<Option<PreflightStep>, Seq<char>>(
                Some(PreflightStep::NixBuild),
            )
            &&& verdict(PreflightStep::NixBuild, nixpkgs, run) == Ok::<
                Option<PreflightStep>,
                Seq<char>,
            >(Some(PreflightStep::Eval))
            &&& verdict(PreflightStep::Eval, nixpkgs, run) == Ok::<
                Option<PreflightStep>,
                Seq<char>,
            >(None)
        }),
{
}

/// Why a check fails: the program that could not be started, or what it wrote,
/// trimmed, with a hint if it is the evaluation.
pub proof fn law_failed_checks(
    nixpkgs: Seq<char>,
    stdout: Vec<u8>,
    stderr: Vec<u8>,
    cause: String,
)
    ensures
        ({
            let run = Run::Finished { success: false, stdout, stderr };
            let text = trimmed(lossy_text(stderr@));
            &&& verdict(PreflightStep::Nix, nixpkgs, run) == Err::<Option<PreflightStep>, Seq<char>>(
                "nix --version failed: "@ + text,
            )
            &&& verdict(PreflightStep::NixBuild, nixpkgs, run) == Err::<
                Option<PreflightStep>,
                Seq<char>,
            >("nix-build --version failed: "@ + text)
            &&& verdict(PreflightStep::Eval, nixpkgs, run) == Err::<
                Option<PreflightStep>,
                Seq<char>,
            >(
                "nix eval against "@ + nixpkgs + " failed: "@ + text
                    + "\nHint: check NIX_PATH (or pass --nixpkgs) and that the nix-command feature is available."@,
            )
        }),
        ({
            let run = Run::NotStarted { cause };
            &&& verdict(PreflightStep::Nix, nixpkgs, run) == Err::<Option<PreflightStep>, Seq<char>>(
                "nix not runnable: "@ + cause@ + " (is it on PATH?)"@,
            )
            &&& verdict(PreflightStep::NixBuild, nixpkgs, run) == Err::<
                Option<PreflightStep>,
                Seq<char>,
            >("nix-build not runnable: "@ + cause@ + " (is it on PATH?)"@)
            &&& verdict(PreflightStep::Eval, nixpkgs, run) == Err::<
                Option<PreflightStep>,
                Seq<char>,
            >("nix not runnable: "@ + cause@ + " (is it on PATH?)"@)
        }),
{
    reveal_strlit("nix");
    reveal_strlit("nix-build");
    reveal_strlit(" --version failed: ");
    reveal_strlit("nix --version failed: ");
    reveal_strlit("nix-build --version failed: ");
    reveal_strlit(" not runnable: ");
    reveal_strlit("nix not runnable: ");
    reveal_strlit("nix-build not runnable: ");
    assert("nix"@ + " --version failed: "@ =~= "nix --version failed: "@);
    assert("nix-build"@ + " --version failed: "@ =~= "nix-build --version failed: "@);
    assert("nix"@ + " not runnable: "@ =~= "nix not runnable: "@);
    assert("nix-build"@ + " not runnable: "@ =~= "nix-build not runnable: "@);
}

/// The message of a failed check, on the text that was written.
pub proof fn law_failure_explained(nixpkgs: Seq<char>, stderr: Seq<char>)
    ensures
        check_failed(PreflightStep::Nix, nixpkgs, stderr) == "nix --version failed: "@ + trimmed(
            stderr,
        ),
        check_failed(PreflightStep::NixBuild, nixpkgs, stderr) == "nix-build --version failed: "@
            + trimmed(stderr),
        check_failed(PreflightStep::Eval, nixpkgs, stderr) == "nix eval against "@ + nixpkgs
            + " failed: "@ + trimmed(stderr)
            + "\nHint: check NIX_PATH (or pass --nixpkgs) and that the nix-command feature is available."@,
{
    reveal_strlit("nix");
    reveal_strlit("nix-build");
    reveal_strlit(" --version failed: ");
    reveal_strlit("nix --version failed: ");
    reveal_strlit("nix-build --version failed: ");
    assert("nix"@ + " --version failed: "@ =~= "nix --version failed: "@);
    assert("nix-build"@ + " --version failed: "@ =~= "nix-build --version failed: "@);
}

} // verus!
