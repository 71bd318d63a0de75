//! The command line.
use crate::nix::NIXPKGS;
use crate::text::{same_text, strip_prefix};
use vstd::prelude::*;

verus! {

/// Where the filesystem is mounted unless another place is given.
pub const DEFAULT_MOUNT_PATH: &'static str = "/nixfs";

/// A parsed command line.
#[derive(Debug, PartialEq)]
pub struct Cli {
    pub mount_path: String,
    pub nixpkgs: String,
    pub action: CliAction,
}

/// What the process should do.
#[derive(Clone, Copy, Debug, PartialEq, Eq, Structural)]
pub enum CliAction {
    Mount,
    Help,
    Version,
}

/// What a `Cli` says.
pub struct CliView {
    pub mount_path: Seq<char>,
    pub nixpkgs: Seq<char>,
    pub action: CliAction,
}

impl View for Cli {
    type V = CliView;

    open spec fn view(&self) -> CliView {
        CliView { mount_path: self.mount_path@, nixpkgs: self.nixpkgs@, action: self.action }
    }
}

/// The texts of `args`.
pub open spec fn texts(args: Seq<String>) -> Seq<Seq<char>> {
    args.map_values(|arg: String| arg@)
}

/// Why `--nixpkgs` without a value is refused.
pub open spec fn missing_value() -> Seq<char> {
    "option '--nixpkgs' requires an argument"@
}

/// What `args` say, after a mount point, if one was given, and the expression
/// to resolve attributes from. The first argument that asks for help or for
/// the version ends the line, and so does the first one that is refused.
pub open spec fn parsed(
    args: Seq<Seq<char>>,
    mount_path: Option<Seq<char>>,
    nixpkgs: Seq<char>,
) -> Result<CliView, Seq<char>>
    decreases args.len(),
{
    if args.len() == 0 {
        Ok(
            CliView {
                mount_path: match mount_path {
                    Some(path) => path,
                    None => DEFAULT_MOUNT_PATH@,
                },
                nixpkgs,
                action: CliAction::Mount,
            },
        )
    } else {
        let arg = args.first();
        let rest = args.drop_first();
        if arg == "-h"@ || arg == "--help"@ {
            Ok(CliView { mount_path: DEFAULT_MOUNT_PATH@, nixpkgs, action: CliAction::Help })
        } else if arg == "--version"@ {
            Ok(CliView { mount_path: DEFAULT_MOUNT_PATH@, nixpkgs, action: CliAction::Version })
        } else if arg == "--nixpkgs"@ {
            if rest.len() == 0 {
                Err(missing_value())
            } else {
                parsed(rest.drop_first(), mount_path, rest.first())
            }
        } else if "--nixpkgs="@.is_prefix_of(arg) {
            let value = arg.skip("--nixpkgs="@.len() as int);
            if value.len() == 0 {
                Err(missing_value())
            } else {
                parsed(rest, mount_path, value)
            }
        } else if arg.len() > 1 && arg.first() == '-' {
            Err("unknown option '"@ + arg + "'"@)
        } else if mount_path is Some {
            Err("unexpected extra argument '"@ + arg + "'"@)
        } else {
            parsed(rest, Some(arg), nixpkgs)
        }
    }
}

/// What a parse says.
pub open spec fn cli_view(result: Result<Cli, String>) -> Result<CliView, Seq<char>> {
    match result {
        Ok(cli) => Ok(cli@),
        Err(message) => Err(message@),
    }
}

fn quoted(intro: &str, arg: &str) -> (message: String)
    ensures
        message@ == intro@ + arg@ + "'"@,
{
    let mut message: String = intro.to_string();
    message.append(arg);
    message.append("'");
    message
}

/// Parses the arguments behind the name of the program. Errors come as a
/// message.
pub fn parse_args(args: &[String]) -> (result: Result<Cli, String>)
    ensures
        cli_view(result) == parsed(texts(args@), None, NIXPKGS@),
        cli_view(result) == parsed(texts(args@), None, "<nixpkgs>"@),
        args@.len() == 0 ==> (result matches Ok(cli) && cli.action == CliAction::Mount
            && cli.mount_path@ == "/nixfs"@ && cli.nixpkgs@ == "<nixpkgs>"@),
{
    let mut mount_path: Option<String> = None;
    let mut nixpkgs: String = NIXPKGS.to_string();
    let mut i: usize = 0;
    let ghost all = texts(args@);
    let ghost mut mount: Option<Seq<char>> = None;
    assert(all.skip(0) =~= all);
    while i < args.len()
        invariant
            i <= args@.len(),
            all == texts(args@),
            mount == match mount_path {
                Some(path) => Some(path@),
                None => None,
            },
            parsed(all.skip(i as int), mount, nixpkgs@) == parsed(all, None, NIXPKGS@),
        decreases args.len() - i,
    {
        let arg: &str = args[i].as_str();
        proof {
            assert(all.skip(i as int).first() == arg@);
            assert(all.skip(i as int).drop_first() =~= all.skip(i + 1));
        }
        if same_text(arg, "-h") || same_text(arg, "--help") {
            return Ok(
                Cli {
                    mount_path: DEFAULT_MOUNT_PATH.to_string(),
                    nixpkgs,
                    action: CliAction::Help,
                },
            );
        } else if same_text(arg, "--version") {
            return Ok(
                Cli {
                    mount_path: DEFAULT_MOUNT_PATH.to_string(),
                    nixpkgs,
                    action: CliAction::Version,
                },
            );
        } else if same_text(arg, "--nixpkgs") {
            i += 1;
            if i == args.len() {
                return Err("option '--nixpkgs' requires an argument".to_string());
            }
            proof {
                assert(all.skip(i as int).first() == args@[i as int]@);
                assert(all.skip(i as int).drop_first() =~= all.skip(i + 1));
            }
            nixpkgs = args[i].clone();
        } else if let Some(value) = strip_prefix(arg, "--nixpkgs=") {
            proof {
                assert(arg@.skip("--nixpkgs="@.len() as int) =~= value@);
                assert("--nixpkgs="@.is_prefix_of(arg@));
            }
            if value.unicode_len() == 0 {
                return Err("option '--nixpkgs' requires an argument".to_string());
            }
            nixpkgs = value.to_string();
        } else if arg.unicode_len() > 1 && arg.get_char(0) == '-' {
            return Err(quoted("unknown option '", arg));
        } else if mount_path.is_some() {
            return Err(quoted("unexpected extra argument '", arg));
        } else {
            mount_path = Some(args[i].clone());
            proof {
                mount = Some(arg@);
            }
        }
        i += 1;
    }
    Ok(
        Cli {
            mount_path: match mount_path {
                Some(path) => path,
                None => DEFAULT_MOUNT_PATH.to_string(),
            },
            nixpkgs,
            action: CliAction::Mount,
        },
    )
}

/// How to call the program.
pub open spec fn usage_text(program: Seq<char>) -> Seq<char> {
    "Usage: "@ + program + " [OPTIONS] [MOUNTPOINT]\n\n"@
        + "Mount Nix package attributes as a FUSE filesystem.\n\n"@ + "Options:\n"@
        + "  --nixpkgs EXPR   resolve attributes from EXPR (default: <nixpkgs>)\n"@
        + "  -h, --help       show this help and exit\n"@
        + "  --version        print version and exit\n\n"@
        + "If no mountpoint is given, defaults to /nixfs.\n"@
}

/// How to call the program.
pub fn usage(program: &str) -> (text: String)
    ensures
        text@ == usage_text(program@),
{
    let mut text: String = "Usage: ".to_string();
    text.append(program);
    text.append(" [OPTIONS] [MOUNTPOINT]\n\n");
    text.append("Mount Nix package attributes as a FUSE filesystem.\n\n");
    text.append("Options:\n");
    text.append("  --nixpkgs EXPR   resolve attributes from EXPR (default: <nixpkgs>)\n");
    text.append("  -h, --help       show this help and exit\n");
    text.append("  --version        print version and exit\n\n");
    text.append("If no mountpoint is given, defaults to /nixfs.\n");
    text
}

/// The two ways of giving the expression mean the same, wherever they stand,
/// unless the value is empty.
pub proof fn law_two_ways_to_give_nixpkgs(
    value: Seq<char>,
    rest: Seq<Seq<char>>,
    mount_path: Option<Seq<char>>,
    nixpkgs: Seq<char>,
)
    requires
        value.len() > 0,
    ensures
        parsed(seq!["--nixpkgs"@, value] + rest, mount_path, nixpkgs) == parsed(
            seq!["--nixpkgs="@ + value] + rest,
            mount_path,
            nixpkgs,
        ),
        parsed(seq!["--nixpkgs"@, value] + rest, mount_path, nixpkgs) == parsed(
            rest,
            mount_path,
            value,
        ),
{
    reveal_strlit("-h");
    reveal_strlit("--help");
    reveal_strlit("--version");
    reveal_strlit("--nixpkgs");
    reveal_strlit("--nixpkgs=");
    let two = seq!["--nixpkgs"@, value] + rest;
    let joined = "--nixpkgs="@ + value;
    let one = seq![joined] + rest;
    assert(two.drop_first().drop_first() =~= rest);
    assert(two.drop_first().first() == value);
    assert("--nixpkgs"@[2] == 'n' && "--help"@[2] == 'h' && "--version"@[2] == 'v');
    assert(one.drop_first() =~= rest);
    assert(joined[2] == 'n');
    assert(joined.len() > "--nixpkgs"@.len());
    assert("--nixpkgs="@.is_prefix_of(joined));
    assert(joined.skip("--nixpkgs="@.len() as int) =~= value);
}

/// Asking for help or for the version wins over all that stands behind it.
pub proof fn law_help_and_version_end_the_line(
    rest: Seq<Seq<char>>,
    mount_path: Option<Seq<char>>,
    nixpkgs: Seq<char>,
)
    ensures
        parsed(seq!["-h"@] + rest, mount_path, nixpkgs) matches Ok(cli) && cli.action
            == CliAction::Help,
        parsed(seq!["--help"@] + rest, mount_path, nixpkgs) matches Ok(cli) && cli.action
            == CliAction::Help,
        parsed(seq!["--version"@] + rest, mount_path, nixpkgs) matches Ok(cli) && cli.action
            == CliAction::Version,
{
    reveal_strlit("-h");
    reveal_strlit("--help");
    reveal_strlit("--version");
    assert("--help"@[2] == 'h' && "--version"@[2] == 'v');
}

/// There is at most one mount point: a second one is refused, whatever stands
/// behind it.
pub proof fn law_one_mount_point(
    first: Seq<char>,
    second: Seq<char>,
    rest: Seq<Seq<char>>,
    nixpkgs: Seq<char>,
)
    requires
        first.len() <= 1 || first[0] != '-',
        second.len() <= 1 || second[0] != '-',
    ensures
        parsed(seq![first, second] + rest, None, nixpkgs) == Err::<CliView, Seq<char>>(
            "unexpected extra argument '"@ + second + "'"@,
        ),
{
    reveal_strlit("-h");
    reveal_strlit("--help");
    reveal_strlit("--version");
    reveal_strlit("--nixpkgs");
    reveal_strlit("--nixpkgs=");
    let args = seq![first, second] + rest;
    assert(args.first() == first);
    assert(args.drop_first().first() == second);
    lemma_no_option(first);
    lemma_no_option(second);
    reveal_with_fuel(parsed, 3);
}

proof fn lemma_no_option(arg: Seq<char>)
    requires
        arg.len() <= 1 || arg[0] != '-',
    ensures
        arg != "-h"@,
        arg != "--help"@,
        arg != "--version"@,
        arg != "--nixpkgs"@,
        !"--nixpkgs="@.is_prefix_of(arg),
{
    reveal_strlit("-h");
    reveal_strlit("--help");
    reveal_strlit("--version");
    reveal_strlit("--nixpkgs");
    reveal_strlit("--nixpkgs=");
    if "--nixpkgs="@.is_prefix_of(arg) {
        assert(arg.subrange(0, "--nixpkgs="@.len() as int)[0] == '-');
    }
}

/// A line that is at its end mounts: at the mount point that was given, else at
/// `/nixfs`, and from the expression that was given last.
pub proof fn law_line_ends(path: Seq<char>, nixpkgs: Seq<char>)
    ensures
        parsed(Seq::empty(), None, nixpkgs) == Ok::<CliView, Seq<char>>(
            CliView { mount_path: "/nixfs"@, nixpkgs, action: CliAction::Mount },
        ),
        parsed(Seq::empty(), Some(path), nixpkgs) == Ok::<CliView, Seq<char>>(
            CliView { mount_path: path, nixpkgs, action: CliAction::Mount },
        ),
{
}

/// What an argument means that asks for help or for the version: the line ends,
/// whatever was given before and stands behind.
pub proof fn law_help_and_version(
    rest: Seq<Seq<char>>,
    mount_path: Option<Seq<char>>,
    nixpkgs: Seq<char>,
)
    ensures
        parsed(seq!["-h"@] + rest, mount_path, nixpkgs) == Ok::<CliView, Seq<char>>(
            CliView { mount_path: "/nixfs"@, nixpkgs, action: CliAction::Help },
        ),
        parsed(seq!["--help"@] + rest, mount_path, nixpkgs) == Ok::<CliView, Seq<char>>(
            CliView { mount_path: "/nixfs"@, nixpkgs, action: CliAction::Help },
        ),
        parsed(seq!["--version"@] + rest, mount_path, nixpkgs) == Ok::<CliView, Seq<char>>(
            CliView { mount_path: "/nixfs"@, nixpkgs, action: CliAction::Version },
        ),
{
    reveal_strlit("-h");
    reveal_strlit("--help");
    reveal_strlit("--version");
    assert("--help"@[2] == 'h' && "--version"@[2] == 'v');
}

/// `--nixpkgs` must have a value: one that ends the line, and `--nixpkgs=` with
/// nothing behind it, are refused.
pub proof fn law_nixpkgs_needs_a_value(
    rest: Seq<Seq<char>>,
    mount_path: Option<Seq<char>>,
    nixpkgs: Seq<char>,
)
    ensures
        parsed(seq!["--nixpkgs"@], mount_path, nixpkgs) == Err::<CliView, Seq<char>>(
            "option '--nixpkgs' requires an argument"@,
        ),
        parsed(seq!["--nixpkgs="@] + rest, mount_path, nixpkgs) == Err::<CliView, Seq<char>>(
            "option '--nixpkgs' requires an argument"@,
        ),
{
    reveal_strlit("-h");
    reveal_strlit("--help");
    reveal_strlit("--version");
    reveal_strlit("--nixpkgs");
    reveal_strlit("--nixpkgs=");
    assert("--nixpkgs"@[2] == 'n' && "--nixpkgs="@[2] == 'n' && "--help"@[2] == 'h'
        && "--version"@[2] == 'v');
    assert("--nixpkgs="@.len() != "--nixpkgs"@.len());
    assert("--nixpkgs="@.subrange(0, "--nixpkgs="@.len() as int) =~= "--nixpkgs="@);
}

/// The argument behind `--nixpkgs` is the expression, whatever it is, also if it
/// is empty or looks like an option.
pub proof fn law_nixpkgs_takes_a_value(
    value: Seq<char>,
    rest: Seq<Seq<char>>,
    mount_path: Option<Seq<char>>,
    nixpkgs: Seq<char>,
)
    ensures
        parsed(seq!["--nixpkgs"@, value] + rest, mount_path, nixpkgs) == parsed(
            rest,
            mount_path,
            value,
        ),
{
    reveal_strlit("-h");
    reveal_strlit("--help");
    reveal_strlit("--version");
    reveal_strlit("--nixpkgs");
    let args = seq!["--nixpkgs"@, value] + rest;
    assert(args.drop_first().drop_first() =~= rest);
    assert(args.drop_first().first() == value);
    assert("--nixpkgs"@[2] == 'n' && "--help"@[2] == 'h' && "--version"@[2] == 'v');
}

/// What an argument means that is no option of the program: with a dash in
/// front, and more than that, it is refused as an unknown one. Any other is the
/// mount point, and is refused if there is one.
pub proof fn law_other_arguments(
    arg: Seq<char>,
    rest: Seq<Seq<char>>,
    path: Seq<char>,
    mount_path: Option<Seq<char>>,
    nixpkgs: Seq<char>,
)
    ensures
        arg.len() > 1 && arg[0] == '-' && arg != "-h"@ && arg != "--help"@ && arg != "--version"@
            && arg != "--nixpkgs"@ && !"--nixpkgs="@.is_prefix_of(arg) ==> parsed(
            seq![arg] + rest,
            mount_path,
            nixpkgs,
        ) == Err::<CliView, Seq<char>>("unknown option '"@ + arg + "'"@),
        arg.len() <= 1 || arg[0] != '-' ==> {
            &&& parsed(seq![arg] + rest, None, nixpkgs) == parsed(rest, Some(arg), nixpkgs)
            &&& parsed(seq![arg] + rest, Some(path), nixpkgs) == Err::<CliView, Seq<char>>(
                "unexpected extra argument '"@ + arg + "'"@,
            )
        },
{
    let args = seq![arg] + rest;
    assert(args.first() == arg);
    assert(args.drop_first() =~= rest);
    if arg.len() <= 1 || arg[0] != '-' {
        lemma_no_option(arg);
    }
}

/// The whole of the usage text.
pub proof fn law_usage(program: Seq<char>)
    ensures
        usage_text(program) == "Usage: "@ + program
            + " [OPTIONS] [MOUNTPOINT]\n\nMount Nix package attributes as a FUSE filesystem.\n\n"@
            + "Options:\n  --nixpkgs EXPR   resolve attributes from EXPR (default: <nixpkgs>)\n"@
            + "  -h, --help       show this help and exit\n"@
            + "  --version        print version and exit\n\n"@
            + "If no mountpoint is given, defaults to /nixfs.\n"@,
{
    reveal_strlit(" [OPTIONS] [MOUNTPOINT]\n\n");
    reveal_strlit("Mount Nix package attributes as a FUSE filesystem.\n\n");
    reveal_strlit(
        " [OPTIONS] [MOUNTPOINT]\n\nMount Nix package attributes as a FUSE filesystem.\n\n",
    );
    reveal_strlit("Options:\n");
    reveal_strlit("  --nixpkgs EXPR   resolve attributes from EXPR (default: <nixpkgs>)\n");
    reveal_strlit(
        "Options:\n  --nixpkgs EXPR   resolve attributes from EXPR (default: <nixpkgs>)\n",
    );
    let a = " [OPTIONS] [MOUNTPOINT]\n\n"@;
    let b = "Mount Nix package attributes as a FUSE filesystem.\n\n"@;
    let c = "Options:\n"@;
    let d = "  --nixpkgs EXPR   resolve attributes from EXPR (default: <nixpkgs>)\n"@;
    assert(a + b
        =~= " [OPTIONS] [MOUNTPOINT]\n\nMount Nix package attributes as a FUSE filesystem.\n\n"@);
    assert(c + d
        =~= "Options:\n  --nixpkgs EXPR   resolve attributes from EXPR (default: <nixpkgs>)\n"@);
    let u = "Usage: "@ + program;
    assert(u + a + b + c + d =~= u + (a + b) + (c + d));
}

} // verus!
