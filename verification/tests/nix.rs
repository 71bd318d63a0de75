use libc::{EACCES, EIO, ENETUNREACH, ENOENT, ETIMEDOUT};
use nixfs::nix::{
    build_attr_command, build_src_only_command, classify_eval_error, classify_nix_stderr,
    eval_attr_command, find_error_line, judge_build, judge_eval, judge_failed_build,
    judge_failed_eval, judge_printed_path, resolve_command, AttrKind, NixCommand, NixError, Run,
};

fn command(program: &str, args: &[&str]) -> NixCommand {
    NixCommand {
        program: program.to_string(),
        args: args.iter().map(|arg| arg.to_string()).collect(),
    }
}

fn finished(success: bool, stdout: &[u8], stderr: &[u8]) -> Run {
    Run::Finished {
        success,
        stdout: stdout.to_vec(),
        stderr: stderr.to_vec(),
    }
}

fn error(errno: i32, message: &str) -> NixError {
    NixError {
        errno,
        message: message.to_string(),
    }
}

#[test]
fn classify_eval_error_maps_real_nix_stderr() {
    // Missing attribute (nix eval / nix-build --attr)
    assert_eq!(
        classify_eval_error(
            "error: attribute 'noSuchAttr' in selection path 'noSuchAttr.outPath' not found"
        ),
        ENOENT
    );
    // Missing attribute of an unpacked source (undefined variable)
    assert_eq!(
        classify_eval_error("error: undefined variable 'noSuchAttr'"),
        ENOENT
    );
    // Network unreachable
    assert_eq!(
        classify_eval_error("error: network is unreachable"),
        ENETUNREACH
    );
    // Permission denied
    assert_eq!(classify_eval_error("error: permission denied"), EACCES);
    // Unknown failure
    assert_eq!(classify_eval_error("error: some random failure"), EIO);
}

#[test]
fn classify_eval_error_ignores_bare_words_in_noise() {
    assert_eq!(
        classify_eval_error("error: executing 'make' failed (network of the build sandbox)"),
        EIO
    );
    assert_eq!(classify_eval_error("error: foo unreachable bar"), EIO);
    // "timeout" still matches
    assert_eq!(classify_eval_error("error: timed out"), ETIMEDOUT);
}

#[test]
fn classify_nix_stderr_distinguishes_directory() {
    // A set is no error
    assert_eq!(
        classify_nix_stderr(
            "error: attribute 'outPath' in selection path 'python3Packages.outPath' not found"
        ),
        None
    );
    // A real error comes with its number and the message
    let err = classify_nix_stderr(
        "error: attribute 'noSuchAttr' in selection path 'noSuchAttr.outPath' not found",
    )
    .expect("missing attr should be an error, not a directory");
    assert_eq!(err.errno, ENOENT);
    assert!(err.message.contains("noSuchAttr"));
    assert!(err.message.contains("not found"));
}

#[test]
fn the_final_error_line_decides() {
    // The build log in front of it does not.
    assert_eq!(
        classify_eval_error("sh: cc: not found\nerror: permission denied"),
        EACCES
    );
    assert_eq!(
        judge_build(finished(
            false,
            b"",
            b"warning: timeout\n  error: permission denied\n"
        )),
        Err(error(EACCES, "warning: timeout\n  error: permission denied"))
    );
    // Nor what is logged behind it.
    assert_eq!(
        classify_eval_error("error: timed out\n  last log line: foo not found\n"),
        ETIMEDOUT
    );
    // Of several error lines it is the last.
    assert_eq!(
        classify_eval_error("error: not found\n\t error: host unreachable\nbye"),
        ENETUNREACH
    );
    assert_eq!(classify_eval_error("not found\nerror: boom\n"), EIO);
    // The mark must stand in front of the line.
    assert_eq!(
        classify_eval_error("error: timed out\nfoo error: not found"),
        ETIMEDOUT
    );
    // Without an error line all of the text decides.
    assert_eq!(classify_eval_error("foo: not found\nbye\n"), ENOENT);
    assert_eq!(classify_eval_error("error\nnot found"), ENOENT);
    assert_eq!(classify_eval_error("errors: \nnot found"), ENOENT);
    // A set is recognised anywhere in the text.
    assert_eq!(
        classify_nix_stderr("value is a set\nerror: permission denied"),
        None
    );
}

#[test]
fn error_lines_are_found() {
    for (stderr, line) in [
        ("error: a", "error: a"),
        ("error:", "error:"),
        (" \t error: a", " \t error: a"),
        ("x\nerror: a\ny", "error: a"),
        ("error: a\nerror: b", "error: b"),
        ("error: a\n\n", "error: a"),
        ("x\ny\n", "x\ny\n"),
        ("err\nor: a", "err\nor: a"),
        ("", ""),
    ] {
        assert_eq!(
            find_error_line(stderr).into_iter().collect::<String>(),
            line,
            "{stderr:?}"
        );
    }
}

#[test]
fn every_phrase_is_recognised() {
    for phrase in [
        "does not provide attribute",
        "attribute 'x' missing",
        "not found",
        "does not exist",
        "undefined variable",
    ] {
        assert_eq!(classify_eval_error(phrase), ENOENT, "{phrase:?}");
    }
    for phrase in ["timed out", "timeout"] {
        assert_eq!(classify_eval_error(phrase), ETIMEDOUT, "{phrase:?}");
    }
    for phrase in [
        "could not resolve",
        "connection refused",
        "name or service not known",
        "network is unreachable",
        "network unreachable",
        "no route to host",
        "host is unreachable",
        "host unreachable",
    ] {
        assert_eq!(classify_eval_error(phrase), ENETUNREACH, "{phrase:?}");
    }
    for phrase in ["permission denied", "access denied"] {
        assert_eq!(classify_eval_error(phrase), EACCES, "{phrase:?}");
    }
    assert_eq!(classify_eval_error(""), EIO);
    // Half of the phrase about a missing attribute is not enough.
    assert_eq!(classify_eval_error("attribute 'x'"), EIO);
    assert_eq!(classify_eval_error("it is ' missing"), EIO);
}

#[test]
fn earlier_classes_win() {
    assert_eq!(classify_eval_error("permission denied: timeout"), ETIMEDOUT);
    assert_eq!(classify_eval_error("timeout: not found"), ENOENT);
    assert_eq!(
        classify_eval_error("access denied, no route to host"),
        ENETUNREACH
    );
}

#[test]
fn sets_are_recognised_in_all_words() {
    for stderr in [
        "error: value is a set while a string was expected",
        "attribute 'outPath' in selection path 'x.outPath' not found",
        "attribute 'outpath' in selection path 'x.outpath' not found",
    ] {
        assert_eq!(classify_nix_stderr(stderr), None, "{stderr:?}");
        assert_eq!(judge_failed_eval(stderr), Ok(AttrKind::Directory));
    }
}

#[test]
fn messages_are_trimmed() {
    let err = classify_nix_stderr("\n\u{a0}\u{3000} error: not found \u{2003}\t\n").unwrap();
    assert_eq!(err.message, "error: not found");
    let err = classify_nix_stderr("  \n ").unwrap();
    assert_eq!(err.message, "");
    assert_eq!(err.errno, EIO);
}

#[test]
fn commands_are_spelled_out() {
    assert_eq!(
        eval_attr_command("vim", "<nixpkgs>"),
        command(
            "nix",
            &[
                "--extra-experimental-features",
                "nix-command",
                "eval",
                "--raw",
                "-f",
                "<nixpkgs>",
                "vim.outPath",
            ]
        )
    );
    assert_eq!(
        build_attr_command("python3Packages.numpy", "/custom"),
        command(
            "nix-build",
            &["--no-out-link", "--attr", "python3Packages.numpy", "/custom"]
        )
    );
    assert_eq!(
        build_src_only_command("qemu.src", "<nixpkgs>"),
        command(
            "nix-build",
            &[
                "--no-out-link",
                "--expr",
                "with import <nixpkgs> {}; srcOnly { name = qemu.src.name; src = qemu.src; }",
            ]
        )
    );
    assert_eq!(
        resolve_command(false, "vim", "<nixpkgs>"),
        build_attr_command("vim", "<nixpkgs>")
    );
    assert_eq!(
        resolve_command(true, "vim", "<nixpkgs>"),
        build_src_only_command("vim", "<nixpkgs>")
    );
}

#[test]
fn evaluations_are_judged() {
    assert_eq!(
        judge_eval(&finished(true, b"/nix/store/x", b"")),
        Ok(AttrKind::Derivation)
    );
    assert_eq!(
        judge_eval(&finished(false, b"", b"error: value is a set\n")),
        Ok(AttrKind::Directory)
    );
    assert_eq!(
        judge_eval(&finished(false, b"", b"error: timed out\n")),
        Err(error(ETIMEDOUT, "error: timed out"))
    );
    assert_eq!(
        judge_eval(&Run::NotStarted {
            cause: "No such file or directory (os error 2)".to_string()
        }),
        Err(error(EIO, "spawn nix: No such file or directory (os error 2)"))
    );
}

#[test]
fn bytes_that_are_no_text_are_replaced() {
    assert_eq!(
        judge_eval(&finished(false, b"", b"bad \xff byte: not found")),
        Err(error(ENOENT, "bad \u{fffd} byte: not found"))
    );
    assert_eq!(
        judge_eval(&finished(false, b"", "π timeout".as_bytes())),
        Err(error(ETIMEDOUT, "π timeout"))
    );
}

#[test]
fn builds_are_judged() {
    assert_eq!(
        judge_build(finished(true, b"/nix/store/abc-vim\n", b"noise")),
        Ok("/nix/store/abc-vim".to_string())
    );
    assert_eq!(
        judge_build(finished(true, b"\n/nix/store/a b \n\n\n", b"")),
        Ok("\n/nix/store/a b ".to_string())
    );
    assert_eq!(
        judge_build(finished(false, b"/nix/store/abc", b"error: undefined variable 'x'\n")),
        Err(error(ENOENT, "error: undefined variable 'x'"))
    );
    // A build does not take a set for a directory.
    assert_eq!(
        judge_build(finished(false, b"", b" value is a set ")),
        Err(error(EIO, "value is a set"))
    );
    assert_eq!(
        judge_failed_build("value is a set; not found"),
        error(EIO, "value is a set; not found")
    );
    assert_eq!(
        judge_build(Run::NotStarted {
            cause: "boom".to_string()
        }),
        Err(error(EIO, "spawn nix-build: boom"))
    );
}

#[test]
fn printed_bytes_that_are_no_text_are_refused() {
    let fault = String::from_utf8(b"/nix/\xff".to_vec())
        .unwrap_err()
        .to_string();
    assert_eq!(
        judge_build(finished(true, b"/nix/\xff", b"")),
        Err(error(EIO, &format!("nix-build non-UTF-8 output: {fault}")))
    );
    assert_eq!(
        judge_printed_path(Err("why".to_string())),
        Err(error(EIO, "nix-build non-UTF-8 output: why"))
    );
    assert_eq!(
        judge_printed_path(Ok("\n\n".to_string())),
        Ok(String::new())
    );
}
