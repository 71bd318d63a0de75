//! The filesystem: what each request is answered.
//!
//! A request that needs `nix` takes two steps. The first gives the answer, or
//! what `nix` has to be asked; the second takes what came of that.
use crate::attr::{
    asks_unpacked, before_last_dot, is_attr_path, is_valid_attr_name, join_path,
    law_before_last_dot, law_requests, law_suffix_is_no_attr_path, parent_attr_path, path_below,
    request_suffix, requested_attr, split_request,
};
use crate::cache::{
    law_resolution_is_recorded, Cache, CacheView, EntryKind, EntryView, CACHE_TTL_NANOS,
};
use crate::errno::{errno, number, Errno};
use crate::file::{attr_of, make_attr, FileAttr, FileType};
use crate::inode::{inode_for_attr_path, inode_of, ROOT_INODE};
use crate::laws::{
    law_empty_sound, law_only_attr_paths_are_evaluated, law_step_keeps_sound, Step,
};
use crate::nix::{build_view, eval_view, AttrKind, BuildResult, NixError, NixErrorView};
use crate::text::same_text;
use crate::xattr::{reply_xattr, xattr_answer, XattrAnswer, XattrAnswerView};
use vstd::prelude::*;
use vstd::utf8::encode_utf8;

verus! {

/// The filesystem. `S` is where the result of a resolution that is under way
/// will be found.
#[verifier::reject_recursive_types(S)]
pub struct NixFS<S> {
    pub cache: Cache<S>,
    /// The expression that attributes are resolved from.
    pub nixpkgs: String,
}

/// The name of the extended attribute that tells why a link could not be
/// resolved.
pub const ERROR_XATTR: &'static str = "user.error";

/// The list of the extended attributes of a link that could not be resolved.
pub const ERROR_XATTR_LIST: &'static str = "user.error\0";

/// The kind of file that an entry appears as.
pub open spec fn kind_of(entry: EntryView) -> FileType {
    match entry {
        EntryView::Symlink { .. } => FileType::Symlink,
        EntryView::Dir { .. } => FileType::Directory,
    }
}

fn entry_kind(entry: &EntryKind) -> (kind: FileType)
    ensures
        kind == kind_of(entry@),
{
    match entry {
        EntryKind::Symlink { .. } => FileType::Symlink,
        EntryKind::Dir { .. } => FileType::Directory,
    }
}

/// What has to be evaluated to answer a lookup.
#[derive(Debug, PartialEq)]
pub struct LookupPlan {
    /// The path to evaluate.
    pub child_path: String,
    /// The inode that the file will have.
    pub inode: u64,
    /// Whether the unpacked source is asked for.
    pub src_only: bool,
}

/// What a `LookupPlan` says.
pub struct LookupPlanView {
    pub child_path: Seq<char>,
    pub inode: u64,
    pub src_only: bool,
}

impl View for LookupPlan {
    type V = LookupPlanView;

    open spec fn view(&self) -> LookupPlanView {
        LookupPlanView {
            child_path: self.child_path@,
            inode: self.inode,
            src_only: self.src_only,
        }
    }
}

/// The first step of a lookup.
#[derive(Debug, PartialEq)]
pub enum LookupStep {
    /// The answer: the attributes of the file, or an error number.
    Reply(Result<FileAttr, i32>),
    /// `nix` has to be asked first.
    Eval(LookupPlan),
}

/// What a `LookupStep` says.
pub enum LookupStepView {
    Reply(Result<FileAttr, i32>),
    Eval(LookupPlanView),
}

impl View for LookupStep {
    type V = LookupStepView;

    open spec fn view(&self) -> LookupStepView {
        match self {
            LookupStep::Reply(reply) => LookupStepView::Reply(*reply),
            LookupStep::Eval(plan) => LookupStepView::Eval(plan@),
        }
    }
}

/// The first step of reading a link.
#[derive(Debug, PartialEq)]
pub enum ReadlinkStep {
    /// The answer: where the link leads, or an error number.
    Reply(Result<String, i32>),
    /// The link has to be resolved first.
    Resolve,
}

/// What a `ReadlinkStep` says.
pub enum ReadlinkStepView {
    Reply(Result<Seq<char>, i32>),
    Resolve,
}

/// What an answer to reading a link says.
pub open spec fn link_view(reply: Result<String, i32>) -> Result<Seq<char>, i32> {
    match reply {
        Ok(path) => Ok(path@),
        Err(n) => Err(n),
    }
}

impl View for ReadlinkStep {
    type V = ReadlinkStepView;

    open spec fn view(&self) -> ReadlinkStepView {
        match self {
            ReadlinkStep::Reply(reply) => ReadlinkStepView::Reply(link_view(*reply)),
            ReadlinkStep::Resolve => ReadlinkStepView::Resolve,
        }
    }
}

/// One name in a directory.
#[derive(Clone, Copy, Debug, PartialEq)]
pub struct DirEntry {
    pub ino: u64,
    /// Where the listing goes on after this name.
    pub offset: i64,
    pub kind: FileType,
    pub name: &'static str,
}

/// What a `DirEntry` says.
pub struct DirEntryView {
    pub ino: u64,
    pub offset: i64,
    pub kind: FileType,
    pub name: Seq<char>,
}

impl View for DirEntry {
    type V = DirEntryView;

    open spec fn view(&self) -> DirEntryView {
        DirEntryView { ino: self.ino, offset: self.offset, kind: self.kind, name: self.name@ }
    }
}

/// The path of an entry.
pub open spec fn path_of(entry: EntryView) -> Seq<char> {
    match entry {
        EntryView::Symlink { attr_path, .. } => attr_path,
        EntryView::Dir { attr_path } => attr_path,
    }
}

/// What holds of every entry: it stands at an attribute path, under the inode
/// of the request that found it, and a link does not lead somewhere and fail
/// at once.
pub open spec fn sound_entry(inode: u64, entry: EntryView) -> bool {
    &&& is_attr_path(path_of(entry))
    &&& match entry {
        EntryView::Symlink { attr_path, out_path, src_only, error, .. } => {
            &&& inode == inode_of(attr_path + request_suffix(src_only))
            &&& out_path is None || error is None
            &&& error matches Some((n, _)) ==> n != 0
        },
        EntryView::Dir { attr_path } => exists|src_only: bool|
            inode == inode_of(attr_path + #[trigger] request_suffix(src_only)),
    }
}

impl<S> CacheView<S> {
    /// What holds of the cache at all times.
    pub open spec fn sound(self) -> bool {
        &&& self.mirrors()
        &&& forall|inode: u64| #[trigger]
            self.entries.dom().contains(inode) ==> sound_entry(inode, self.entries[inode])
    }

    /// A plan whose file can be remembered: it is not yet, it stands at an
    /// attribute path, and its inode is that of the request.
    pub open spec fn admits(self, plan: LookupPlanView) -> bool {
        &&& !self.entries.dom().contains(plan.inode)
        &&& is_attr_path(plan.child_path)
        &&& plan.inode == inode_of(plan.child_path + request_suffix(plan.src_only))
    }

    /// The path of the directory `inode`, no path for the root, or the error
    /// that there is no such directory.
    pub open spec fn directory(self, inode: u64) -> Result<Option<Seq<char>>, Errno> {
        if inode == ROOT_INODE {
            Ok(None)
        } else if !self.entries.dom().contains(inode) {
            Err(Errno::NoEntry)
        } else {
            match self.entries[inode] {
                EntryView::Dir { attr_path } => Ok(Some(attr_path)),
                EntryView::Symlink { .. } => Err(Errno::NotDirectory),
            }
        }
    }

    /// The first step of looking up `name` in the directory `parent`. A name
    /// that is no text, or that names no attribute, is refused before anything
    /// else. The inode goes by the name as it was requested, so that an
    /// attribute and its unpacked source have different ones.
    pub open spec fn lookup_step(self, parent: u64, name: Option<Seq<char>>) -> LookupStepView {
        match name {
            None => LookupStepView::Reply(Err(number(Errno::Invalid))),
            Some(name) => if !is_attr_path(requested_attr(name)) {
                LookupStepView::Reply(Err(number(Errno::Invalid)))
            } else {
                match self.directory(parent) {
                    Err(e) => LookupStepView::Reply(Err(number(e))),
                    Ok(directory) => {
                        let inode = inode_of(path_below(directory, name));
                        if self.entries.dom().contains(inode) {
                            LookupStepView::Reply(
                                Ok(attr_of(inode, kind_of(self.entries[inode]))),
                            )
                        } else {
                            LookupStepView::Eval(
                                LookupPlanView {
                                    child_path: path_below(directory, requested_attr(name)),
                                    inode,
                                    src_only: asks_unpacked(name),
                                },
                            )
                        }
                    },
                }
            },
        }
    }

    /// What is remembered after a lookup.
    pub open spec fn looked_up(
        self,
        plan: LookupPlanView,
        outcome: Result<AttrKind, NixErrorView>,
        now: u64,
    ) -> CacheView<S> {
        match outcome {
            Ok(kind) => self.inserted(plan.inode, new_entry(plan, kind, now)),
            Err(_) => self,
        }
    }

    /// The attributes of the file `inode`.
    pub open spec fn attributes(self, inode: u64) -> Result<FileAttr, i32> {
        if inode == ROOT_INODE {
            Ok(attr_of(ROOT_INODE, FileType::Directory))
        } else if self.entries.dom().contains(inode) {
            Ok(attr_of(inode, kind_of(self.entries[inode])))
        } else {
            Err(number(Errno::NoEntry))
        }
    }

    /// The first step of reading the link `inode` at `now`: what was found no
    /// longer ago than an entry holds is the answer, a failure as well.
    pub open spec fn readlink_step(self, inode: u64, now: u64) -> ReadlinkStepView {
        if !self.entries.dom().contains(inode) {
            ReadlinkStepView::Reply(Err(number(Errno::NoEntry)))
        } else {
            match self.entries[inode] {
                EntryView::Dir { .. } => ReadlinkStepView::Reply(Err(number(Errno::Invalid))),
                EntryView::Symlink { out_path, created, error, .. } => {
                    if now - created > CACHE_TTL_NANOS {
                        ReadlinkStepView::Resolve
                    } else {
                        match (out_path, error) {
                            (Some(path), _) => ReadlinkStepView::Reply(Ok(path)),
                            (None, Some((n, _))) => ReadlinkStepView::Reply(Err(n)),
                            (None, None) => ReadlinkStepView::Resolve,
                        }
                    }
                },
            }
        }
    }

    /// The inode of the directory that the directory `inode` lies in: the one
    /// whose path is what stands in front of the last dot, else the root.
    pub open spec fn parent_inode(self, inode: u64) -> Result<u64, i32> {
        match self.directory(inode) {
            Ok(None) => Ok(ROOT_INODE),
            Ok(Some(attr_path)) => match before_last_dot(attr_path) {
                Some(parent) => if parent.len() == 0 {
                    Ok(ROOT_INODE)
                } else {
                    Ok(inode_of(parent))
                },
                None => Ok(ROOT_INODE),
            },
            Err(_) => Err(number(Errno::NotDirectory)),
        }
    }

    /// The names in the directory `inode` from `offset` on: itself and the one
    /// it lies in, nothing else. There are none beyond the last one, and none
    /// from a negative offset on.
    pub open spec fn listing(self, inode: u64, offset: i64) -> Result<Seq<DirEntryView>, i32> {
        match self.parent_inode(inode) {
            Ok(parent) => Ok(
                dot_entries(inode, parent).skip(
                    if 0 <= offset <= 2 {
                        offset as int
                    } else {
                        2
                    },
                ),
            ),
            Err(n) => Err(n),
        }
    }

    /// Why the link `inode` could not be resolved, if that was so.
    pub open spec fn failure(self, inode: u64) -> Option<Seq<char>> {
        if self.entries.dom().contains(inode) {
            match self.entries[inode] {
                EntryView::Symlink { error: Some((_, message)), .. } => Some(message),
                _ => None,
            }
        } else {
            None
        }
    }

    /// The extended attribute `name` of the file `inode`.
    pub open spec fn xattr(
        self,
        inode: u64,
        name: Option<Seq<char>>,
        size: u32,
    ) -> XattrAnswerView {
        match self.failure(inode) {
            Some(message) if name == Some(ERROR_XATTR@) => xattr_answer(size, encode_utf8(message)),
            _ => XattrAnswerView::Error(number(Errno::NoData)),
        }
    }

    /// The names of the extended attributes of the file `inode`.
    pub open spec fn xattr_list(self, inode: u64, size: u32) -> XattrAnswerView {
        xattr_answer(
            size,
            if self.failure(inode) is Some {
                encode_utf8(ERROR_XATTR_LIST@)
            } else {
                Seq::empty()
            },
        )
    }
}

/// The entry for an attribute that was found: a link that is not resolved yet,
/// or a directory.
pub open spec fn new_entry(plan: LookupPlanView, kind: AttrKind, now: u64) -> EntryView {
    match kind {
        AttrKind::Derivation => EntryView::Symlink {
            attr_path: plan.child_path,
            out_path: None,
            created: now,
            src_only: plan.src_only,
            error: None,
        },
        AttrKind::Directory => EntryView::Dir { attr_path: plan.child_path },
    }
}

/// The answer to a lookup for which `nix` was asked.
pub open spec fn lookup_reply(
    plan: LookupPlanView,
    outcome: Result<AttrKind, NixErrorView>,
) -> Result<FileAttr, i32> {
    match outcome {
        Ok(AttrKind::Derivation) => Ok(attr_of(plan.inode, FileType::Symlink)),
        Ok(AttrKind::Directory) => Ok(attr_of(plan.inode, FileType::Directory)),
        Err(error) => Err(error.errno),
    }
}

/// The names that every directory holds.
pub open spec fn dot_entries(inode: u64, parent: u64) -> Seq<DirEntryView> {
    seq![
        DirEntryView { ino: inode, offset: 1, kind: FileType::Directory, name: "."@ },
        DirEntryView { ino: parent, offset: 2, kind: FileType::Directory, name: ".."@ },
    ]
}

/// The answer to reading a link that was resolved.
pub open spec fn resolved_reply(result: Result<Seq<char>, NixErrorView>) -> Result<Seq<char>, i32> {
    match result {
        Ok(path) => Ok(path),
        Err(error) => Err(error.errno),
    }
}

/// The answer to reading a link that was resolved with `result`.
pub fn answer_resolved(result: BuildResult) -> (reply: Result<String, i32>)
    ensures
        link_view(reply) == resolved_reply(build_view(result)),
        result matches Ok(path) ==> reply == Ok::<String, i32>(path),
        result matches Err(error) ==> reply == Err::<String, i32>(error.errno),
{
    match result {
        Ok(path) => Ok(path),
        Err(error) => Err(error.errno),
    }
}

impl<S> NixFS<S> {
    /// A filesystem that resolves attributes from `nixpkgs` and remembers
    /// nothing yet.
    pub fn new(nixpkgs: String) -> (fs: Self)
        ensures
            fs.cache@ == CacheView::<S>::empty(),
            fs.cache@.sound(),
            fs.nixpkgs == nixpkgs,
    {
        proof {
            law_empty_sound::<S>();
        }
        NixFS { cache: Cache::new(), nixpkgs }
    }

    /// The first step of looking up `name`, which is `None` if it is no text,
    /// in the directory `parent`.
    pub fn lookup(&self, parent: u64, name: Option<&str>) -> (step: LookupStep)
        ensures
            step@ == self.cache@.lookup_step(
                parent,
                match name {
                    Some(name) => Some(name@),
                    None => None,
                },
            ),
            step matches LookupStep::Reply(Err(n)) ==> n != 0,
            step matches LookupStep::Eval(plan) ==> name matches Some(name) && {
                &&& plan.src_only == "@unpacked"@.is_suffix_of(name@)
                &&& parent == 1 ==> {
                    &&& plan.inode == inode_of(name@)
                    &&& !plan.src_only ==> plan.child_path@ == name@
                    &&& plan.src_only ==> plan.child_path@ + "@unpacked"@ == name@
                }
                &&& parent != 1 ==> {
                    &&& self.cache.entries@.contains_key(parent)
                    &&& self.cache.entries@[parent] matches EntryKind::Dir { attr_path }
                    &&& plan.inode == inode_of(attr_path@ + seq!['.'] + name@)
                    &&& !plan.src_only ==> plan.child_path@ == attr_path@ + seq!['.'] + name@
                    &&& plan.src_only ==> plan.child_path@ + "@unpacked"@ == attr_path@ + seq!['.']
                        + name@
                }
            },
            self.cache@.sound() ==> (step matches LookupStep::Eval(plan) ==> self.cache@.admits(
                plan@,
            )),
    {
        proof {
            let name = match name {
                Some(name) => Some(name@),
                None => None,
            };
            if self.cache@.sound() && self.cache@.lookup_step(parent, name) is Eval {
                let plan = self.cache@.lookup_step(parent, name)->Eval_0;
                law_only_attr_paths_are_evaluated(self.cache@, parent, name, plan);
            }
        }
        let name: &str = match name {
            Some(name) => name,
            None => {
                return LookupStep::Reply(Err(errno(Errno::Invalid)));
            },
        };
        let (child_name, src_only): (&str, bool) = split_request(name);
        if !is_valid_attr_name(child_name) {
            return LookupStep::Reply(Err(errno(Errno::Invalid)));
        }
        let parent_path: Option<&str> = if parent == ROOT_INODE {
            None
        } else {
            match self.cache.entry(parent) {
                None => {
                    return LookupStep::Reply(Err(errno(Errno::NoEntry)));
                },
                Some(EntryKind::Dir { attr_path }) => Some(attr_path.as_str()),
                Some(EntryKind::Symlink { .. }) => {
                    return LookupStep::Reply(Err(errno(Errno::NotDirectory)));
                },
            }
        };
        let full_path: String = join_path(parent_path, name);
        let inode: u64 = inode_for_attr_path(full_path.as_str());
        match self.cache.entry(inode) {
            Some(entry) => LookupStep::Reply(Ok(make_attr(inode, entry_kind(entry)))),
            None => LookupStep::Eval(
                LookupPlan { child_path: join_path(parent_path, child_name), inode, src_only },
            ),
        }
    }

    /// The second step of a lookup: answers it and remembers what was found.
    pub fn finish_lookup(
        &mut self,
        plan: LookupPlan,
        outcome: Result<AttrKind, NixError>,
        now: u64,
    ) -> (reply: Result<FileAttr, i32>)
        ensures
            reply == lookup_reply(plan@, eval_view(outcome)),
            final(self).cache@ == old(self).cache@.looked_up(plan@, eval_view(outcome), now),
            final(self).nixpkgs == old(self).nixpkgs,
            old(self).cache@.sound() && old(self).cache@.admits(plan@)
                ==> final(self).cache@.sound(),
    {
        proof {
            if self.cache@.sound() && self.cache@.admits(plan@) && outcome is Ok {
                law_step_keeps_sound(
                    self.cache@,
                    Step::Found { plan: plan@, kind: outcome->Ok_0, now },
                );
            }
        }
        let inode: u64 = plan.inode;
        match outcome {
            Ok(AttrKind::Derivation) => {
                self.cache.insert_entry(
                    inode,
                    EntryKind::Symlink {
                        attr_path: plan.child_path,
                        out_path: None,
                        created: now,
                        src_only: plan.src_only,
                        error: None,
                    },
                );
                Ok(make_attr(inode, FileType::Symlink))
            },
            Ok(AttrKind::Directory) => {
                self.cache.insert_entry(inode, EntryKind::Dir { attr_path: plan.child_path });
                Ok(make_attr(inode, FileType::Directory))
            },
            Err(error) => Err(error.errno),
        }
    }

    /// The attributes of the file `ino`.
    pub fn getattr(&self, ino: u64) -> (reply: Result<FileAttr, i32>)
        ensures
            reply == self.cache@.attributes(ino),
            reply matches Err(n) ==> n != 0,
    {
        if ino == ROOT_INODE {
            return Ok(make_attr(ROOT_INODE, FileType::Directory));
        }
        match self.cache.entry(ino) {
            Some(entry) => Ok(make_attr(ino, entry_kind(entry))),
            None => Err(errno(Errno::NoEntry)),
        }
    }

    /// The first step of reading the link `inode` at `now`.
    pub fn readlink(&self, inode: u64, now: u64) -> (step: ReadlinkStep)
        ensures
            step@ == self.cache@.readlink_step(inode, now),
            self.cache@.sound() ==> (step matches ReadlinkStep::Reply(Err(n)) ==> n != 0),
            self.cache.entries@.contains_key(inode) ==> (self.cache.entries@[inode] matches
                EntryKind::Symlink { out_path, created, error, .. } ==> {
                &&& step is Resolve <==> now - created > 300_000_000_000 || (out_path is None
                    && error is None)
                &&& step matches ReadlinkStep::Reply(Ok(path)) ==> out_path matches Some(known)
                    && path@ == known@
                &&& step matches ReadlinkStep::Reply(Err(n)) ==> out_path is None && (
                error matches Some((known, _)) && n == known)
            }),
    {
        match self.cache.entry(inode) {
            None => ReadlinkStep::Reply(Err(errno(Errno::NoEntry))),
            Some(EntryKind::Dir { .. }) => ReadlinkStep::Reply(Err(errno(Errno::Invalid))),
            Some(EntryKind::Symlink { out_path, created, error, .. }) => {
                // A clock that seems to run backwards has not moved.
                let age: u64 = now.saturating_sub(*created);
                if age > CACHE_TTL_NANOS {
                    return ReadlinkStep::Resolve;
                }
                match (out_path, error) {
                    (Some(path), _) => ReadlinkStep::Reply(Ok(path.clone())),
                    (None, Some((n, _))) => ReadlinkStep::Reply(Err(*n)),
                    (None, None) => ReadlinkStep::Resolve,
                }
            },
        }
    }

    /// The names in the directory `ino` from `offset` on. Attributes are not
    /// listed: they are found by looking them up.
    pub fn readdir(&self, ino: u64, offset: i64) -> (reply: Result<Vec<DirEntry>, i32>)
        ensures
            match reply {
                Ok(names) => self.cache@.listing(ino, offset) matches Ok(listed) && names@.len()
                    == listed.len() && forall|i: int|
                    0 <= i < listed.len() ==> (#[trigger] names@[i])@ == listed[i],
                Err(n) => self.cache@.listing(ino, offset) == Err::<Seq<DirEntryView>, i32>(n) && n
                    != 0,
            },
    {
        let parent_inode: u64 = if ino == ROOT_INODE {
            ROOT_INODE
        } else {
            match self.cache.entry(ino) {
                Some(EntryKind::Dir { attr_path }) => match parent_attr_path(attr_path.as_str()) {
                    None => ROOT_INODE,
                    Some(parent_path) => if parent_path.unicode_len() == 0 {
                        ROOT_INODE
                    } else {
                        inode_for_attr_path(parent_path)
                    },
                },
                _ => {
                    return Err(errno(Errno::NotDirectory));
                },
            }
        };
        let mut names: Vec<DirEntry> = Vec::new();
        if offset == 0 {
            names.push(DirEntry { ino, offset: 1, kind: FileType::Directory, name: "." });
        }
        if offset == 0 || offset == 1 {
            names.push(
                DirEntry { ino: parent_inode, offset: 2, kind: FileType::Directory, name: ".." },
            );
        }
        Ok(names)
    }

    /// Forgets the file `ino`.
    pub fn forget(&mut self, ino: u64)
        ensures
            final(self).cache@ == old(self).cache@.removed(ino),
            final(self).nixpkgs == old(self).nixpkgs,
            old(self).cache@.sound() ==> final(self).cache@.sound(),
    {
        proof {
            if self.cache@.sound() {
                law_step_keeps_sound(self.cache@, Step::Forgotten { inode: ino });
            }
        }
        self.cache.remove_entry(ino);
    }

    /// The extended attribute `name`, which is `None` if it is no text, of the
    /// file `ino`.
    pub fn getxattr(&self, ino: u64, name: Option<&str>, size: u32) -> (answer: XattrAnswer)
        ensures
            answer@ == self.cache@.xattr(
                ino,
                match name {
                    Some(name) => Some(name@),
                    None => None,
                },
                size,
            ),
            answer matches XattrAnswer::Error(n) ==> n != 0,
    {
        match name {
            Some(name) => if !same_text(name, ERROR_XATTR) {
                return XattrAnswer::Error(errno(Errno::NoData));
            },
            None => {
                return XattrAnswer::Error(errno(Errno::NoData));
            },
        }
        match self.cache.entry(ino) {
            Some(EntryKind::Symlink { error: Some((_, message)), .. }) => reply_xattr(
                size,
                message.as_str().as_bytes(),
            ),
            _ => XattrAnswer::Error(errno(Errno::NoData)),
        }
    }

    /// The names of the extended attributes of the file `ino`.
    pub fn listxattr(&self, ino: u64, size: u32) -> (answer: XattrAnswer)
        ensures
            answer@ == self.cache@.xattr_list(ino, size),
            answer matches XattrAnswer::Error(n) ==> n != 0,
    {
        let has_error: bool = match self.cache.entry(ino) {
            Some(EntryKind::Symlink { error: Some(_), .. }) => true,
            _ => false,
        };
        let list: &str = if has_error {
            ERROR_XATTR_LIST
        } else {
            ""
        };
        proof {
            reveal_strlit("");
            assert(encode_utf8(""@) =~= Seq::empty());
        }
        reply_xattr(size, list.as_bytes())
    }
}

/// Looking up an attribute in a directory asks for the path of the directory, a
/// dot and the name, under the inode of that text, and looking up its unpacked
/// source asks for the same path, under the inode of that text with the suffix.
/// What is known under that inode is answered instead.
pub proof fn law_lookup_in_directory<S>(
    cache: CacheView<S>,
    parent: u64,
    path: Seq<char>,
    attr: Seq<char>,
)
    requires
        parent != 1,
        cache.entries.dom().contains(parent),
        cache.entries[parent] == (EntryView::Dir { attr_path: path }),
        is_attr_path(attr),
    ensures
        ({
            let full = path + seq!['.'] + attr;
            cache.lookup_step(parent, Some(attr)) == if cache.entries.dom().contains(
                inode_of(full),
            ) {
                LookupStepView::Reply(
                    Ok(
                        attr_of(
                            inode_of(full),
                            match cache.entries[inode_of(full)] {
                                EntryView::Symlink { .. } => FileType::Symlink,
                                EntryView::Dir { .. } => FileType::Directory,
                            },
                        ),
                    ),
                )
            } else {
                LookupStepView::Eval(
                    LookupPlanView { child_path: full, inode: inode_of(full), src_only: false },
                )
            }
        }),
        ({
            let full = path + seq!['.'] + attr;
            let inode = inode_of(full + "@unpacked"@);
            cache.lookup_step(parent, Some(attr + "@unpacked"@))
                == if cache.entries.dom().contains(inode) {
                LookupStepView::Reply(
                    Ok(
                        attr_of(
                            inode,
                            match cache.entries[inode] {
                                EntryView::Symlink { .. } => FileType::Symlink,
                                EntryView::Dir { .. } => FileType::Directory,
                            },
                        ),
                    ),
                )
            } else {
                LookupStepView::Eval(LookupPlanView { child_path: full, inode, src_only: true })
            }
        }),
{
    law_requests(attr);
    law_suffix_is_no_attr_path(attr);
    let full = path + seq!['.'] + attr;
    assert(path + seq!['.'] + (attr + "@unpacked"@) =~= full + "@unpacked"@);
}

/// Looking up an attribute in the root asks for the name itself, under the
/// inode of it, and looking up its unpacked source asks for the same path,
/// under the inode of the name with the suffix. What is known under that inode
/// is answered instead.
pub proof fn law_lookup_in_root<S>(cache: CacheView<S>, attr: Seq<char>)
    requires
        is_attr_path(attr),
    ensures
        cache.lookup_step(1, Some(attr)) == if cache.entries.dom().contains(inode_of(attr)) {
            LookupStepView::Reply(
                Ok(
                    attr_of(
                        inode_of(attr),
                        match cache.entries[inode_of(attr)] {
                            EntryView::Symlink { .. } => FileType::Symlink,
                            EntryView::Dir { .. } => FileType::Directory,
                        },
                    ),
                ),
            )
        } else {
            LookupStepView::Eval(
                LookupPlanView { child_path: attr, inode: inode_of(attr), src_only: false },
            )
        },
        ({
            let inode = inode_of(attr + "@unpacked"@);
            cache.lookup_step(1, Some(attr + "@unpacked"@)) == if cache.entries.dom().contains(
                inode,
            ) {
                LookupStepView::Reply(
                    Ok(
                        attr_of(
                            inode,
                            match cache.entries[inode] {
                                EntryView::Symlink { .. } => FileType::Symlink,
                                EntryView::Dir { .. } => FileType::Directory,
                            },
                        ),
                    ),
                )
            } else {
                LookupStepView::Eval(LookupPlanView { child_path: attr, inode, src_only: true })
            }
        }),
{
    law_requests(attr);
    law_suffix_is_no_attr_path(attr);
}

/// A name that is no text, or that is no attribute path once the suffix is
/// taken off, is invalid wherever it is looked up. An attribute cannot be
/// looked up in what is not there or is no directory.
pub proof fn law_lookup_refused<S>(cache: CacheView<S>, parent: u64, name: Seq<char>)
    ensures
        cache.lookup_step(parent, None) == LookupStepView::Reply(Err(number(Errno::Invalid))),
        !is_attr_path(name) ==> cache.lookup_step(parent, Some(name + "@unpacked"@))
            == LookupStepView::Reply(Err(number(Errno::Invalid))),
        !is_attr_path(name) && !"@unpacked"@.is_suffix_of(name) ==> cache.lookup_step(
            parent,
            Some(name),
        ) == LookupStepView::Reply(Err(number(Errno::Invalid))),
        is_attr_path(name) && parent != 1 && !cache.entries.dom().contains(parent) ==> {
            &&& cache.lookup_step(parent, Some(name)) == LookupStepView::Reply(
                Err(number(Errno::NoEntry)),
            )
            &&& cache.lookup_step(parent, Some(name + "@unpacked"@)) == LookupStepView::Reply(
                Err(number(Errno::NoEntry)),
            )
        },
        is_attr_path(name) && parent != 1 && cache.entries.dom().contains(parent)
            && cache.entries[parent] is Symlink ==> {
            &&& cache.lookup_step(parent, Some(name)) == LookupStepView::Reply(
                Err(number(Errno::NotDirectory)),
            )
            &&& cache.lookup_step(parent, Some(name + "@unpacked"@)) == LookupStepView::Reply(
                Err(number(Errno::NotDirectory)),
            )
        },
{
    law_requests(name);
    if is_attr_path(name) {
        law_suffix_is_no_attr_path(name);
    }
}

/// What was found is remembered under the inode of the plan: a derivation as a
/// link that is neither resolved nor failed, a set as a directory, each at the
/// path that was evaluated. A failure is answered with its number, and nothing
/// is remembered.
pub proof fn law_lookup_finished<S>(
    cache: CacheView<S>,
    plan: LookupPlanView,
    error: NixErrorView,
    now: u64,
)
    ensures
        cache.looked_up(plan, Ok(AttrKind::Derivation), now) == cache.inserted(
            plan.inode,
            EntryView::Symlink {
                attr_path: plan.child_path,
                out_path: None,
                created: now,
                src_only: plan.src_only,
                error: None,
            },
        ),
        lookup_reply(plan, Ok(AttrKind::Derivation)) == Ok::<FileAttr, i32>(
            attr_of(plan.inode, FileType::Symlink),
        ),
        cache.looked_up(plan, Ok(AttrKind::Directory), now) == cache.inserted(
            plan.inode,
            EntryView::Dir { attr_path: plan.child_path },
        ),
        lookup_reply(plan, Ok(AttrKind::Directory)) == Ok::<FileAttr, i32>(
            attr_of(plan.inode, FileType::Directory),
        ),
        cache.looked_up(plan, Err(error), now) == cache,
        lookup_reply(plan, Err(error)) == Err::<FileAttr, i32>(error.errno),
{
}

/// The root is a directory, and every other file is what its entry says; what
/// has none does not exist.
pub proof fn law_attributes_of_files<S>(cache: CacheView<S>, inode: u64)
    ensures
        cache.attributes(1) == Ok::<FileAttr, i32>(attr_of(1, FileType::Directory)),
        inode != 1 && !cache.entries.dom().contains(inode) ==> cache.attributes(inode) == Err::<
            FileAttr,
            i32,
        >(number(Errno::NoEntry)),
        inode != 1 && cache.entries.dom().contains(inode) && cache.entries[inode] is Symlink
            ==> cache.attributes(inode) == Ok::<FileAttr, i32>(attr_of(inode, FileType::Symlink)),
        inode != 1 && cache.entries.dom().contains(inode) && cache.entries[inode] is Dir
            ==> cache.attributes(inode) == Ok::<FileAttr, i32>(attr_of(inode, FileType::Directory)),
{
}

/// A link that was resolved no more than five minutes ago leads where it was
/// found to lead, and one that failed no more than five minutes ago is
/// answered with the number of that failure, whatever it is. All others are
/// resolved. What is not there, or is a directory, is no link.
pub proof fn law_links_read<S>(cache: CacheView<S>, inode: u64, now: u64)
    ensures
        !cache.entries.dom().contains(inode) ==> cache.readlink_step(inode, now)
            == ReadlinkStepView::Reply(Err(number(Errno::NoEntry))),
        cache.entries.dom().contains(inode) && cache.entries[inode] is Dir ==> cache.readlink_step(
            inode,
            now,
        ) == ReadlinkStepView::Reply(Err(number(Errno::Invalid))),
        cache.entries.dom().contains(inode) ==> (cache.entries[inode] matches EntryView::Symlink {
            out_path,
            created,
            error,
            ..
        } ==> {
            let fresh = now - created <= 300_000_000_000;
            &&& !fresh || (out_path is None && error is None) ==> cache.readlink_step(inode, now)
                == ReadlinkStepView::Resolve
            &&& fresh ==> (out_path matches Some(path) ==> cache.readlink_step(inode, now)
                == ReadlinkStepView::Reply(Ok(path)))
            &&& fresh && out_path is None ==> (error matches Some((n, _)) ==> cache.readlink_step(
                inode,
                now,
            ) == ReadlinkStepView::Reply(Err(n)))
        }),
{
}

/// A resolution that failed with the number `error.errno` is answered with just
/// that number, to those who waited for it and to all who read the link in the
/// five minutes after, and one that found `path` with just that path.
pub proof fn law_resolution_is_answered<S>(
    cache: CacheView<S>,
    inode: u64,
    path: Seq<char>,
    error: NixErrorView,
    now: u64,
    by_builder: bool,
    later: u64,
)
    requires
        cache.entries.dom().contains(inode),
        cache.entries[inode] is Symlink,
    ensures
        resolved_reply(Err(error)) == Err::<Seq<char>, i32>(error.errno),
        resolved_reply(Ok(path)) == Ok::<Seq<char>, i32>(path),
        later - now <= 300_000_000_000 ==> cache.settled(
            inode,
            Err(error),
            now,
            by_builder,
        ).readlink_step(inode, later) == ReadlinkStepView::Reply(Err(error.errno)),
        later - now <= 300_000_000_000 ==> cache.settled(
            inode,
            Ok(path),
            now,
            by_builder,
        ).readlink_step(inode, later) == ReadlinkStepView::Reply(Ok(path)),
        later - now > 300_000_000_000 ==> cache.settled(
            inode,
            Err(error),
            now,
            by_builder,
        ).readlink_step(inode, later) == ReadlinkStepView::Resolve && cache.settled(
            inode,
            Ok(path),
            now,
            by_builder,
        ).readlink_step(inode, later) == ReadlinkStepView::Resolve,
{
    law_resolution_is_recorded(cache, inode, path, error, now, by_builder);
}

/// Every directory lists itself and the one it lies in, and nothing else: the
/// one whose path stands in front of the last dot, and the root if nothing
/// does. What is no directory lists nothing.
pub proof fn law_directories_listed<S>(
    cache: CacheView<S>,
    inode: u64,
    front: Seq<char>,
    last: Seq<char>,
    offset: i64,
)
    requires
        !last.contains('.'),
    ensures
        cache.parent_inode(1) == Ok::<u64, i32>(1),
        inode != 1 && !(cache.entries.dom().contains(inode) && cache.entries[inode] is Dir) ==> {
            &&& cache.parent_inode(inode) == Err::<u64, i32>(number(Errno::NotDirectory))
            &&& cache.listing(inode, offset) == Err::<Seq<DirEntryView>, i32>(
                number(Errno::NotDirectory),
            )
        },
        inode != 1 && cache.entries.dom().contains(inode) && cache.entries[inode] == (
        EntryView::Dir { attr_path: last }) ==> cache.parent_inode(inode) == Ok::<u64, i32>(1),
        inode != 1 && cache.entries.dom().contains(inode) && cache.entries[inode] == (
        EntryView::Dir { attr_path: front + seq!['.'] + last }) ==> cache.parent_inode(inode)
            == Ok::<u64, i32>(
            if front.len() == 0 {
                1
            } else {
                inode_of(front)
            },
        ),
        cache.parent_inode(inode) matches Ok(parent) ==> {
            let own = DirEntryView {
                ino: inode,
                offset: 1,
                kind: FileType::Directory,
                name: "."@,
            };
            let above = DirEntryView {
                ino: parent,
                offset: 2,
                kind: FileType::Directory,
                name: ".."@,
            };
            cache.listing(inode, offset) == Ok::<Seq<DirEntryView>, i32>(
                if offset == 0 {
                    seq![own, above]
                } else if offset == 1 {
                    seq![above]
                } else {
                    Seq::empty()
                },
            )
        },
{
    law_before_last_dot(front, last);
    if cache.parent_inode(inode) is Ok {
        let parent = cache.parent_inode(inode)->Ok_0;
        let names = dot_entries(inode, parent);
        assert(names.skip(0) =~= names);
        assert(names.skip(1) =~= seq![names[1]]);
        assert(names.skip(2) =~= Seq::empty());
    }
}

/// A link that failed has the extended attribute `user.error`, which is the
/// message of the failure, and no other; all other files have none.
pub proof fn law_failures_shown<S>(
    cache: CacheView<S>,
    inode: u64,
    name: Option<Seq<char>>,
    size: u32,
)
    ensures
        cache.entries.dom().contains(inode) ==> (cache.entries[inode] matches EntryView::Symlink {
            error: Some((_, message)),
            ..
        } ==> {
            &&& cache.failure(inode) == Some(message)
            &&& cache.xattr(inode, Some("user.error"@), size) == xattr_answer(
                size,
                encode_utf8(message),
            )
            &&& cache.xattr_list(inode, size) == xattr_answer(size, encode_utf8("user.error\0"@))
        }),
        name != Some("user.error"@) ==> cache.xattr(inode, name, size) == XattrAnswerView::Error(
            number(Errno::NoData),
        ),
        !(cache.entries.dom().contains(inode) && (cache.entries[inode] matches EntryView::Symlink {
            error: Some(_),
            ..
        })) ==> {
            &&& cache.failure(inode) is None
            &&& cache.xattr(inode, name, size) == XattrAnswerView::Error(number(Errno::NoData))
            &&& cache.xattr_list(inode, size) == xattr_answer(size, Seq::empty())
        },
{
}

} // verus!
