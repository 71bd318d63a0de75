use nixfs::cli::{parse_args, usage, CliAction};
use nixfs::nix::{NixCommand, Run, NIXPKGS};
use nixfs::preflight::{explain_failure, judge_preflight, preflight_command, PreflightStep};

fn args(args: &[&str]) -> Vec<String> {
    args.iter().map(|arg| arg.to_string()).collect()
}

#[test]
fn parse_args_defaults_to_nixfs_and_nixpkgs() {
    let cli = parse_args(&[]).unwrap();
    assert_eq!(cli.action, CliAction::Mount);
    assert_eq!(cli.mount_path, "/nixfs");
    assert_eq!(cli.nixpkgs, NIXPKGS);
}

#[test]
fn parse_args_accepts_mountpoint_and_nixpkgs() {
    let cli = parse_args(&[
        "/tmp/mnt".to_string(),
        "--nixpkgs".to_string(),
        "/custom".to_string(),
    ])
    .unwrap();
    assert_eq!(cli.mount_path, "/tmp/mnt");
    assert_eq!(cli.nixpkgs, "/custom");

    let cli = parse_args(&["--nixpkgs=/custom".to_string()]).unwrap();
    assert_eq!(cli.nixpkgs, "/custom");

    let cli = parse_args(&["--nixpkgs=/custom".to_string(), "/tmp/mnt".to_string()]).unwrap();
    assert_eq!(cli.mount_path, "/tmp/mnt");
    assert_eq!(cli.nixpkgs, "/custom");
}

#[test]
fn parse_args_handles_help_and_version() {
    assert_eq!(
        parse_args(&["--version".to_string()]).unwrap().action,
        CliAction::Version
    );
    assert_eq!(
        parse_args(&["-h".to_string()]).unwrap().action,
        CliAction::Help
    );
    assert_eq!(
        parse_args(&["/mnt".to_string(), "--help".to_string()])
            .unwrap()
            .action,
        CliAction::Help
    );
}

#[test]
fn parse_args_rejects_unknown_and_extra_args() {
    assert!(parse_args(&["--bogus".to_string()]).is_err());
    assert!(parse_args(&["-x".to_string()]).is_err());
    assert!(parse_args(&["/mnt".to_string(), "/extra".to_string()]).is_err());
    assert!(parse_args(&["--nixpkgs".to_string()]).is_err());
    assert!(parse_args(&["--nixpkgs=".to_string()]).is_err());
}

#[test]
fn refusals_say_why() {
    assert_eq!(
        parse_args(&args(&["--bogus"])),
        Err("unknown option '--bogus'".to_string())
    );
    assert_eq!(
        parse_args(&args(&["a", "b"])),
        Err("unexpected extra argument 'b'".to_string())
    );
    let missing = Err("option '--nixpkgs' requires an argument".to_string());
    assert_eq!(parse_args(&args(&["--nixpkgs"])), missing);
    assert_eq!(parse_args(&args(&["--nixpkgs="])), missing);
}

#[test]
fn odd_arguments_are_taken_as_they_are() {
    // A lone dash, and nothing at all, are mount points.
    assert_eq!(parse_args(&args(&["-"])).unwrap().mount_path, "-");
    assert_eq!(parse_args(&args(&[""])).unwrap().mount_path, "");
    // The value of the option is not looked at.
    let cli = parse_args(&args(&["--nixpkgs", "--help", "/m"])).unwrap();
    assert_eq!(cli.nixpkgs, "--help");
    assert_eq!(cli.mount_path, "/m");
    assert_eq!(parse_args(&args(&["--nixpkgs", ""])).unwrap().nixpkgs, "");
    // The last value counts.
    assert_eq!(
        parse_args(&args(&["--nixpkgs=a", "--nixpkgs", "b"])).unwrap().nixpkgs,
        "b"
    );
    // A dash before a character of several bytes starts an option.
    assert!(parse_args(&args(&["-π"])).is_err());
}

#[test]
fn help_and_version_end_the_line() {
    let cli = parse_args(&args(&["/m", "--nixpkgs=x", "--version", "--bogus"])).unwrap();
    assert_eq!(cli.action, CliAction::Version);
    assert_eq!(cli.mount_path, "/nixfs");
    assert_eq!(cli.nixpkgs, "x");
    assert!(parse_args(&args(&["--bogus", "--help"])).is_err());
}

#[test]
fn both_ways_to_give_nixpkgs_agree() {
    for rest in [&["/m"][..], &["-x"][..], &["--help"][..], &[][..]] {
        let mut two = args(&["--nixpkgs", "v"]);
        let mut one = args(&["--nixpkgs=v"]);
        two.extend(args(rest));
        one.extend(args(rest));
        assert_eq!(parse_args(&two), parse_args(&one));
    }
}

#[test]
fn usage_is_spelled_out() {
    assert_eq!(
        usage("nixfs"),
        "Usage: nixfs [OPTIONS] [MOUNTPOINT]\n\n\
         Mount Nix package attributes as a FUSE filesystem.\n\n\
         Options:\n  --nixpkgs EXPR   resolve attributes from EXPR (default: <nixpkgs>)\n  \
         -h, --help       show this help and exit\n  --version        print version and exit\n\n\
         If no mountpoint is given, defaults to /nixfs.\n"
    );
}

fn ran(success: bool, stderr: &[u8]) -> Run {
    Run::Finished {
        success,
        stdout: Vec::new(),
        stderr: stderr.to_vec(),
    }
}

#[test]
fn preflight_runs_three_checks() {
    assert_eq!(
        preflight_command(PreflightStep::Nix, "<nixpkgs>"),
        NixCommand {
            program: "nix".to_string(),
            args: args(&["--version"])
        }
    );
    assert_eq!(
        preflight_command(PreflightStep::NixBuild, "<nixpkgs>"),
        NixCommand {
            program: "nix-build".to_string(),
            args: args(&["--version"])
        }
    );
    assert_eq!(
        preflight_command(PreflightStep::Eval, "/custom"),
        NixCommand {
            program: "nix".to_string(),
            args: args(&[
                "--extra-experimental-features",
                "nix-command",
                "eval",
                "--raw",
                "-f",
                "/custom",
                "system",
            ])
        }
    );
    assert_eq!(
        judge_preflight(PreflightStep::Nix, "x", &ran(true, b"")),
        Ok(Some(PreflightStep::NixBuild))
    );
    assert_eq!(
        judge_preflight(PreflightStep::NixBuild, "x", &ran(true, b"")),
        Ok(Some(PreflightStep::Eval))
    );
    assert_eq!(
        judge_preflight(PreflightStep::Eval, "x", &ran(true, b"")),
        Ok(None)
    );
}

#[test]
fn preflight_failures_say_why() {
    assert_eq!(
        judge_preflight(PreflightStep::NixBuild, "x", &ran(false, b" broken \xff\n")),
        Err("nix-build --version failed: broken \u{fffd}".to_string())
    );
    assert_eq!(
        judge_preflight(PreflightStep::Eval, "<x>", &ran(false, b"boom\n")),
        Err("nix eval against <x> failed: boom\n\
             Hint: check NIX_PATH (or pass --nixpkgs) and that the nix-command feature is available."
            .to_string())
    );
    for (step, tool) in [
        (PreflightStep::Nix, "nix"),
        (PreflightStep::NixBuild, "nix-build"),
        (PreflightStep::Eval, "nix"),
    ] {
        let run = Run::NotStarted {
            cause: "gone".to_string(),
        };
        assert_eq!(
            judge_preflight(step, "x", &run),
            Err(format!("{tool} not runnable: gone (is it on PATH?)"))
        );
    }
    assert_eq!(
        explain_failure(PreflightStep::Nix, "x", "\tno\t"),
        "nix --version failed: no"
    );
}
