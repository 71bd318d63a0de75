//! What the views of the library's types say: each field as it is, and nothing
//! is left out.
use crate::cache::{Cache, EntryKind, EntryView, ResolveStep, ResolveStepView};
use crate::cli::{cli_view, texts, Cli, CliView};
use crate::file::FileAttr;
use crate::fs::{
    link_view, DirEntry, LookupPlan, LookupStep, LookupStepView, ReadlinkStep, ReadlinkStepView,
};
use crate::nix::{build_view, eval_view, AttrKind, NixCommand, NixError, NixErrorView};
use crate::xattr::{XattrAnswer, XattrAnswerView};
use vstd::prelude::*;

verus! {

/// An error, and the results that hold one.
pub proof fn law_errors_seen(error: NixError, path: String, kind: AttrKind)
    ensures
        error@.errno == error.errno,
        error@.message == error.message@,
        build_view(Ok(path)) == Ok::<_, NixErrorView>(path@),
        build_view(Err(error)) == Err::<Seq<char>, _>(error@),
        eval_view(Ok(kind)) == Ok::<_, NixErrorView>(kind),
        eval_view(Err(error)) == Err::<AttrKind, _>(error@),
{
}

/// A command.
pub proof fn law_command_seen(command: NixCommand)
    ensures
        command@.program == command.program@,
        command@.args.len() == command.args@.len(),
        forall|i: int|
            0 <= i < command.args@.len() ==> #[trigger] command@.args[i] == command.args@[i]@,
{
}

/// A link that stands behind an inode.
pub proof fn law_link_seen(
    attr_path: String,
    path: String,
    created: u64,
    src_only: bool,
    n: i32,
    message: String,
)
    ensures
        (EntryKind::Symlink {
            attr_path,
            out_path: None,
            created,
            src_only,
            error: None,
        })@ == (EntryView::Symlink {
            attr_path: attr_path@,
            out_path: None,
            created,
            src_only,
            error: None,
        }),
        (EntryKind::Symlink {
            attr_path,
            out_path: Some(path),
            created,
            src_only,
            error: None,
        })@ == (EntryView::Symlink {
            attr_path: attr_path@,
            out_path: Some(path@),
            created,
            src_only,
            error: None,
        }),
        (EntryKind::Symlink {
            attr_path,
            out_path: None,
            created,
            src_only,
            error: Some((n, message)),
        })@ == (EntryView::Symlink {
            attr_path: attr_path@,
            out_path: None,
            created,
            src_only,
            error: Some((n, message@)),
        }),
        (EntryKind::Symlink {
            attr_path,
            out_path: Some(path),
            created,
            src_only,
            error: Some((n, message)),
        })@ == (EntryView::Symlink {
            attr_path: attr_path@,
            out_path: Some(path@),
            created,
            src_only,
            error: Some((n, message@)),
        }),
{
}

/// A directory that stands behind an inode.
pub proof fn law_directory_seen(attr_path: String)
    ensures
        (EntryKind::Dir { attr_path })@ == (EntryView::Dir { attr_path: attr_path@ }),
{
}

/// A cache: its entries, the order of them and the slots.
pub proof fn law_cache_seen<S>(cache: Cache<S>, inode: u64)
    ensures
        cache@.entries.dom().contains(inode) <==> cache.entries@.contains_key(inode),
        cache.entries@.contains_key(inode) ==> cache@.entries[inode] == cache.entries@[inode]@,
        cache@.order == cache.order@,
        cache@.inflight == cache.inflight@,
{
}

/// The first step of resolving a link.
pub proof fn law_resolve_step_seen<'a, S>(
    error: NixError,
    slot: &'a S,
    attr_path: String,
    src_only: bool,
)
    ensures
        ResolveStep::<'a, S>::Fail(error)@ == ResolveStepView::<S>::Fail(error@),
        (ResolveStep::Build { slot, attr_path, src_only })@ == (ResolveStepView::Build {
            slot: *slot,
            attr_path: attr_path@,
            src_only,
        }),
        (ResolveStep::Wait { slot })@ == (ResolveStepView::Wait { slot: *slot }),
{
}

/// The first step of a lookup.
pub proof fn law_lookup_step_seen(reply: Result<FileAttr, i32>, plan: LookupPlan)
    ensures
        LookupStep::Reply(reply)@ == LookupStepView::Reply(reply),
        LookupStep::Eval(plan)@ == LookupStepView::Eval(plan@),
        plan@.child_path == plan.child_path@,
        plan@.inode == plan.inode,
        plan@.src_only == plan.src_only,
{
}

/// The first step of reading a link, and the answer to it.
pub proof fn law_readlink_step_seen(path: String, n: i32)
    ensures
        ReadlinkStep::Reply(Ok(path))@ == ReadlinkStepView::Reply(Ok(path@)),
        ReadlinkStep::Reply(Err(n))@ == ReadlinkStepView::Reply(Err(n)),
        ReadlinkStep::Resolve@ == ReadlinkStepView::Resolve,
        link_view(Ok(path)) == Ok::<Seq<char>, i32>(path@),
        link_view(Err(n)) == Err::<Seq<char>, i32>(n),
{
}

/// A name in a directory.
pub proof fn law_dir_entry_seen(entry: DirEntry)
    ensures
        entry@.ino == entry.ino,
        entry@.offset == entry.offset,
        entry@.kind == entry.kind,
        entry@.name == entry.name@,
{
}

/// The answer to a request for an extended attribute.
pub proof fn law_xattr_answer_seen(size: u32, data: Vec<u8>, n: i32)
    ensures
        XattrAnswer::Size(size)@ == XattrAnswerView::Size(size),
        XattrAnswer::Data(data)@ == XattrAnswerView::Data(data@),
        XattrAnswer::Error(n)@ == XattrAnswerView::Error(n),
{
}

/// A command line, before and after it is parsed.
pub proof fn law_cli_seen(args: Seq<String>, cli: Cli, message: String)
    ensures
        texts(args).len() == args.len(),
        forall|i: int| 0 <= i < args.len() ==> #[trigger] texts(args)[i] == args[i]@,
        cli@.mount_path == cli.mount_path@,
        cli@.nixpkgs == cli.nixpkgs@,
        cli@.action == cli.action,
        cli_view(Ok(cli)) == Ok::<CliView, Seq<char>>(cli@),
        cli_view(Err(message)) == Err::<CliView, Seq<char>>(message@),
{
}

} // verus!
