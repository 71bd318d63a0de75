//! What the filesystem remembers: resolved names, the order in which they came
//! and the links that are being resolved.
use crate::errno::{errno, number, Errno};
use crate::laws::{
    law_empty_mirrors, law_forgotten, law_oldest_leaves, law_settle_keeps_others,
};
use crate::nix::{build_view, BuildResult, NixError, NixErrorView};
use std::collections::{HashMap, VecDeque};
use vstd::prelude::*;

verus! {

broadcast use vstd::std_specs::hash::group_hash_axioms;

/// Upper bound on the remembered entries; the oldest leave beyond it.
pub const MAX_ENTRIES: usize = 10_000;

/// How long an entry holds, in nanoseconds.
pub const CACHE_TTL_NANOS: u64 = 300_000_000_000;

/// What stands behind an inode. Times are nanoseconds of a monotonic clock.
pub enum EntryKind {
    /// A derivation, which appears as a link.
    Symlink {
        /// Dotted path, such as `python3Packages.numpy`.
        attr_path: String,
        /// The store path, once it is known.
        out_path: Option<String>,
        /// When the store path was last resolved, or tried.
        created: u64,
        /// Whether the link leads to the unpacked source.
        src_only: bool,
        /// The last failure: the error number and the message.
        error: Option<(i32, String)>,
    },
    /// An attribute set, which appears as a directory.
    Dir {
        /// Dotted path, such as `python3Packages`.
        attr_path: String,
    },
}

/// What an `EntryKind` says.
pub enum EntryView {
    Symlink {
        attr_path: Seq<char>,
        out_path: Option<Seq<char>>,
        created: u64,
        src_only: bool,
        error: Option<(i32, Seq<char>)>,
    },
    Dir { attr_path: Seq<char> },
}

impl View for EntryKind {
    type V = EntryView;

    open spec fn view(&self) -> EntryView {
        match self {
            EntryKind::Symlink { attr_path, out_path, created, src_only, error } => {
                EntryView::Symlink {
                    attr_path: attr_path@,
                    out_path: match out_path {
                        Some(path) => Some(path@),
                        None => None,
                    },
                    created: *created,
                    src_only: *src_only,
                    error: match error {
                        Some((n, message)) => Some((*n, message@)),
                        None => None,
                    },
                }
            },
            EntryKind::Dir { attr_path } => EntryView::Dir { attr_path: attr_path@ },
        }
    }
}

/// The entries by inode, the order in which they came, oldest first, and for
/// each link that is being resolved the slot `S` that its result will be in.
#[verifier::reject_recursive_types(S)]
pub struct Cache<S> {
    pub entries: HashMap<u64, EntryKind>,
    pub order: VecDeque<u64>,
    pub inflight: HashMap<u64, S>,
}

/// What a `Cache` holds.
#[verifier::ext_equal]
#[verifier::reject_recursive_types(S)]
pub struct CacheView<S> {
    pub entries: Map<u64, EntryView>,
    pub order: Seq<u64>,
    pub inflight: Map<u64, S>,
}

/// The first step of resolving a link.
#[derive(Debug, PartialEq)]
#[verifier::reject_recursive_types(S)]
pub enum ResolveStep<'a, S> {
    /// There is no such link any more.
    Fail(NixError),
    /// It is on the caller to build, and to fill `slot`.
    Build { slot: &'a S, attr_path: String, src_only: bool },
    /// Another one is building, and will fill `slot`.
    Wait { slot: &'a S },
}

/// What a `ResolveStep` says.
#[verifier::reject_recursive_types(S)]
pub enum ResolveStepView<S> {
    Fail(NixErrorView),
    Build { slot: S, attr_path: Seq<char>, src_only: bool },
    Wait { slot: S },
}

impl<'a, S> View for ResolveStep<'a, S> {
    type V = ResolveStepView<S>;

    open spec fn view(&self) -> ResolveStepView<S> {
        match self {
            ResolveStep::Fail(error) => ResolveStepView::Fail(error@),
            ResolveStep::Build { slot, attr_path, src_only } => ResolveStepView::Build {
                slot: **slot,
                attr_path: attr_path@,
                src_only: *src_only,
            },
            ResolveStep::Wait { slot } => ResolveStepView::Wait { slot: **slot },
        }
    }
}

impl<S> View for Cache<S> {
    type V = CacheView<S>;

    open spec fn view(&self) -> CacheView<S> {
        CacheView {
            entries: self.entries@.map_values(|entry: EntryKind| entry@),
            order: self.order@,
            inflight: self.inflight@,
        }
    }
}

impl<S> CacheView<S> {
    /// The order mirrors the entries: each has its place in it, once, and there
    /// are no more than the bound.
    pub open spec fn mirrors(self) -> bool {
        &&& self.order.no_duplicates()
        &&& self.order.to_set() == self.entries.dom()
        &&& self.order.len() <= MAX_ENTRIES
    }

    /// Nothing remembered.
    pub open spec fn empty() -> CacheView<S> {
        CacheView { entries: Map::empty(), order: Seq::empty(), inflight: Map::empty() }
    }

    /// The oldest entries have left until no more than the bound remain.
    pub open spec fn evicted(self) -> CacheView<S>
        decreases self.order.len(),
    {
        if self.entries.dom().len() > MAX_ENTRIES && self.order.len() > 0 {
            CacheView {
                entries: self.entries.remove(self.order.first()),
                order: self.order.drop_first(),
                inflight: self.inflight,
            }.evicted()
        } else {
            self
        }
    }

    /// `entry` has come, as the newest, and the oldest have left.
    pub open spec fn inserted(self, inode: u64, entry: EntryView) -> CacheView<S> {
        CacheView {
            entries: self.entries.insert(inode, entry),
            order: self.order.push(inode),
            inflight: self.inflight,
        }.evicted()
    }

    /// The entry of `inode` is gone.
    pub open spec fn removed(self, inode: u64) -> CacheView<S> {
        CacheView {
            entries: self.entries.remove(inode),
            order: others_of(self.order, inode),
            inflight: self.inflight,
        }
    }

    /// The link of `inode`, if there is one: its path and whether the unpacked
    /// source is wanted.
    pub open spec fn link(self, inode: u64) -> Option<(Seq<char>, bool)> {
        if self.entries.dom().contains(inode) {
            match self.entries[inode] {
                EntryView::Symlink { attr_path, src_only, .. } => Some((attr_path, src_only)),
                EntryView::Dir { .. } => None,
            }
        } else {
            None
        }
    }

    /// `slot` is where the result of resolving `inode` will be, unless there
    /// is such a slot already.
    pub open spec fn joined(self, inode: u64, slot: S) -> CacheView<S> {
        if self.inflight.dom().contains(inode) {
            self
        } else {
            CacheView {
                entries: self.entries,
                order: self.order,
                inflight: self.inflight.insert(inode, slot),
            }
        }
    }

    /// The first step of resolving the link of `inode`: the first to ask for
    /// it builds, and those who ask while it does wait.
    pub open spec fn resolve_step(self, inode: u64, fresh: S) -> ResolveStepView<S> {
        match self.link(inode) {
            None => ResolveStepView::Fail(evicted_error()),
            Some((attr_path, src_only)) => if self.inflight.dom().contains(inode) {
                ResolveStepView::Wait { slot: self.inflight[inode] }
            } else {
                ResolveStepView::Build { slot: fresh, attr_path, src_only }
            },
        }
    }

    /// Someone has begun to resolve the link of `inode`, if there is one.
    pub open spec fn begun(self, inode: u64, fresh: S) -> CacheView<S> {
        if self.link(inode) is Some {
            self.joined(inode, fresh)
        } else {
            self
        }
    }

    /// The link of `inode`, if it is still there, holds `result` as of `now`;
    /// once its builder is done it is no longer being resolved.
    pub open spec fn settled(
        self,
        inode: u64,
        result: Result<Seq<char>, NixErrorView>,
        now: u64,
        by_builder: bool,
    ) -> CacheView<S> {
        CacheView {
            entries: match self.link(inode) {
                Some((attr_path, src_only)) => self.entries.insert(
                    inode,
                    resolved_link(attr_path, src_only, result, now),
                ),
                None => self.entries,
            },
            order: self.order,
            inflight: if by_builder {
                self.inflight.remove(inode)
            } else {
                self.inflight
            },
        }
    }
}

/// A link that was resolved, or tried, at `now`.
pub open spec fn resolved_link(
    attr_path: Seq<char>,
    src_only: bool,
    result: Result<Seq<char>, NixErrorView>,
    now: u64,
) -> EntryView {
    EntryView::Symlink {
        attr_path,
        out_path: match result {
            Ok(path) => Some(path),
            Err(_) => None,
        },
        created: now,
        src_only,
        error: match result {
            Ok(_) => None,
            Err(error) => Some((error.errno, error.message)),
        },
    }
}

/// `order` without `inode`.
pub open spec fn others_of(order: Seq<u64>, inode: u64) -> Seq<u64> {
    order.filter(|other: u64| other != inode)
}

fn others(order: &VecDeque<u64>, inode: u64) -> (kept: VecDeque<u64>)
    ensures
        kept@ == others_of(order@, inode),
{
    let mut kept: VecDeque<u64> = VecDeque::new();
    let mut i: usize = 0;
    proof {
        reveal(Seq::filter);
    }
    while i < order.len()
        invariant
            i <= order.len(),
            kept@ == others_of(order@.take(i as int), inode),
        decreases order.len() - i,
    {
        proof {
            reveal(Seq::filter);
            assert(order@.take(i + 1).drop_last() =~= order@.take(i as int));
        }
        if order[i] != inode {
            kept.push_back(order[i]);
        }
        i += 1;
    }
    assert(order@.take(i as int) =~= order@);
    kept
}

/// Why a link that has left the cache cannot be resolved.
pub open spec fn evicted_error() -> NixErrorView {
    NixErrorView { errno: number(Errno::NoEntry), message: "entry evicted while resolving"@ }
}

impl<S> Cache<S> {
    /// Nothing remembered.
    pub fn new() -> (cache: Self)
        ensures
            cache@ == CacheView::<S>::empty(),
            cache@.mirrors(),
    {
        proof {
            law_empty_mirrors::<S>();
        }
        let cache = Cache {
            entries: HashMap::new(),
            order: VecDeque::new(),
            inflight: HashMap::new(),
        };
        assert(cache@ =~= CacheView::<S>::empty());
        cache
    }

    /// The entry of `inode`.
    pub fn entry(&self, inode: u64) -> (entry: Option<&EntryKind>)
        ensures
            match entry {
                Some(entry) => self@.entries.dom().contains(inode) && self@.entries[inode]
                    == entry@,
                None => !self@.entries.dom().contains(inode),
            },
    {
        self.entries.get(&inode)
    }

    /// Remembers `entry` as the newest one; beyond `MAX_ENTRIES` the oldest
    /// leave.
    pub fn insert_entry(&mut self, inode: u64, entry: EntryKind)
        ensures
            final(self)@ == old(self)@.inserted(inode, entry@),
            old(self)@.mirrors() && !old(self)@.entries.dom().contains(inode)
                ==> final(self)@.mirrors(),
    {
        proof {
            if self@.mirrors() && !self@.entries.dom().contains(inode) {
                law_oldest_leaves(self@, inode, entry@);
            }
        }
        self.entries.insert(inode, entry);
        self.order.push_back(inode);
        assert(self@.entries =~= old(self)@.entries.insert(inode, entry@));
        let ghost target = self@.evicted();
        while self.entries.len() > MAX_ENTRIES
            invariant_except_break
                self@.evicted() == target,
                self.entries@.dom() == self@.entries.dom(),
            ensures
                self@ == target,
            decreases self.order@.len(),
        {
            let ghost before = self@;
            match self.order.pop_front() {
                None => {
                    break ;
                },
                Some(oldest) => {
                    self.entries.remove(&oldest);
                    assert(self@.entries =~= before.entries.remove(before.order.first()));
                    assert(self@.order =~= before.order.drop_first());
                },
            }
        }
    }

    /// Forgets the entry of `inode`.
    pub fn remove_entry(&mut self, inode: u64)
        ensures
            final(self)@ == old(self)@.removed(inode),
            old(self)@.mirrors() ==> final(self)@.mirrors(),
    {
        proof {
            law_forgotten(self@, inode);
        }
        self.entries.remove(&inode);
        self.order = others(&self.order, inode);
        assert(self@ =~= old(self)@.removed(inode));
    }

    /// What resolving the link of `inode` takes: its path and whether the
    /// unpacked source is wanted. Fails if there is no such link any more.
    pub fn resolve_request(&self, inode: u64) -> (request: Result<(String, bool), NixError>)
        ensures
            match request {
                Ok((attr_path, src_only)) => self@.link(inode) == Some((attr_path@, src_only)),
                Err(error) => self@.link(inode) is None && error@ == evicted_error()
                    && error.errno != 0,
            },
    {
        match self.entry(inode) {
            Some(EntryKind::Symlink { attr_path, src_only, .. }) => {
                Ok((attr_path.clone(), *src_only))
            },
            _ => Err(
                NixError {
                    errno: errno(Errno::NoEntry),
                    message: "entry evicted while resolving".to_string(),
                },
            ),
        }
    }

    /// The slot in which the result of resolving `inode` will be, and whether
    /// it is on the caller to build and to fill that slot. It is if nobody is
    /// resolving `inode`; the slot is then `fresh`. Otherwise it is the slot of
    /// the one who is, and the caller waits for it to be filled.
    pub fn join(&mut self, inode: u64, fresh: S) -> (joined: (&S, bool))
        ensures
            final(self)@ == old(self)@.joined(inode, fresh),
            *joined.0 == old(self)@.joined(inode, fresh).inflight[inode],
            joined.1 == !old(self)@.inflight.dom().contains(inode),
            old(self)@.mirrors() ==> final(self)@.mirrors(),
    {
        let is_builder: bool = !self.inflight.contains_key(&inode);
        if is_builder {
            self.inflight.insert(inode, fresh);
        }
        (self.inflight.get(&inode).unwrap(), is_builder)
    }

    /// The first step of resolving the link of `inode`. The caller who is told
    /// to build fills the slot with what comes of it; then, as those who waited
    /// for that, it calls `settle`.
    pub fn resolve_symlink(&mut self, inode: u64, fresh: S) -> (step: ResolveStep<'_, S>)
        ensures
            step@ == old(self)@.resolve_step(inode, fresh),
            final(self)@ == old(self)@.begun(inode, fresh),
            old(self)@.mirrors() ==> final(self)@.mirrors(),
            step matches ResolveStep::Fail(error) ==> error.errno != 0,
    {
        match self.resolve_request(inode) {
            Err(error) => ResolveStep::Fail(error),
            Ok((attr_path, src_only)) => {
                let (slot, is_builder): (&S, bool) = self.join(inode, fresh);
                if is_builder {
                    ResolveStep::Build { slot, attr_path, src_only }
                } else {
                    ResolveStep::Wait { slot }
                }
            },
        }
    }

    /// Records at `now` what came of resolving `inode`, if its link is still
    /// there. `is_builder` ends the resolution.
    pub fn settle(&mut self, inode: u64, result: &BuildResult, now: u64, is_builder: bool)
        ensures
            final(self)@ == old(self)@.settled(inode, build_view(*result), now, is_builder),
            old(self)@.mirrors() ==> final(self)@.mirrors(),
    {
        proof {
            law_settle_keeps_others(self@, inode, build_view(*result), now, is_builder);
        }
        let request: Option<EntryKind> = self.entries.remove(&inode);
        match request {
            Some(EntryKind::Symlink { attr_path, src_only, .. }) => {
                let (out_path, error): (Option<String>, Option<(i32, String)>) = match result {
                    Ok(path) => (Some(path.clone()), None),
                    Err(e) => (None, Some((e.errno, e.message.clone()))),
                };
                self.entries.insert(
                    inode,
                    EntryKind::Symlink { attr_path, out_path, created: now, src_only, error },
                );
            },
            Some(other) => {
                self.entries.insert(inode, other);
            },
            None => {},
        }
        if is_builder {
            self.inflight.remove(&inode);
        }
        assert(self@ =~= old(self)@.settled(inode, build_view(*result), now, is_builder));
    }
}

/// What is remembered after an insertion, whatever was before: the new entry
/// comes last, and from the front of the order as many leave as it takes until
/// no more than ten thousand entries are left, and not one more.
pub proof fn law_insertion<S>(cache: CacheView<S>, inode: u64, entry: EntryView)
    ensures
        ({
            let order = cache.order.push(inode);
            let entries = cache.entries.insert(inode, entry);
            let next = cache.inserted(inode, entry);
            let gone = order.len() - next.order.len();
            &&& 0 <= gone <= order.len()
            &&& next.order == order.skip(gone)
            &&& next.entries == entries.remove_keys(order.take(gone).to_set())
            &&& next.inflight == cache.inflight
            &&& next.entries.dom().len() <= 10_000 || gone == order.len()
            &&& gone > 0 ==> entries.remove_keys(order.take(gone - 1).to_set()).dom().len()
                > 10_000
        }),
{
    lemma_evicted(
        CacheView {
            entries: cache.entries.insert(inode, entry),
            order: cache.order.push(inode),
            inflight: cache.inflight,
        },
    );
}

proof fn lemma_evicted<S>(cache: CacheView<S>)
    ensures
        ({
            let next = cache.evicted();
            let gone = cache.order.len() - next.order.len();
            &&& 0 <= gone <= cache.order.len()
            &&& next.order == cache.order.skip(gone)
            &&& next.entries == cache.entries.remove_keys(cache.order.take(gone).to_set())
            &&& next.inflight == cache.inflight
            &&& next.entries.dom().len() <= MAX_ENTRIES || gone == cache.order.len()
            &&& gone > 0 ==> cache.entries.remove_keys(
                cache.order.take(gone - 1).to_set(),
            ).dom().len() > MAX_ENTRIES
        }),
    decreases cache.order.len(),
{
    let next = cache.evicted();
    let gone = cache.order.len() - next.order.len();
    if cache.entries.dom().len() > MAX_ENTRIES && cache.order.len() > 0 {
        let oldest = cache.order.first();
        let left = CacheView {
            entries: cache.entries.remove(oldest),
            order: cache.order.drop_first(),
            inflight: cache.inflight,
        };
        lemma_evicted(left);
        assert(next == left.evicted());
        assert(next.order =~= cache.order.skip(gone));
        lemma_taken(cache.order, gone);
        assert(next.entries =~= cache.entries.remove_keys(cache.order.take(gone).to_set()));
        if gone > 1 {
            lemma_taken(cache.order, gone - 1);
            assert(left.entries.remove_keys(left.order.take(gone - 2).to_set())
                =~= cache.entries.remove_keys(cache.order.take(gone - 1).to_set()));
        } else {
            assert(cache.order.take(0) =~= Seq::empty());
            assert(cache.entries.remove_keys(cache.order.take(0).to_set()) =~= cache.entries);
        }
    } else {
        assert(cache.order.skip(0) =~= cache.order);
        assert(cache.order.take(0) =~= Seq::empty());
        assert(cache.entries.remove_keys(cache.order.take(0).to_set()) =~= cache.entries);
    }
}

proof fn lemma_taken(order: Seq<u64>, n: int)
    requires
        0 < n <= order.len(),
    ensures
        order.take(n).to_set() == order.drop_first().take(n - 1).to_set().insert(order.first()),
{
    let all = order.take(n);
    let rest = order.drop_first().take(n - 1);
    assert forall|i: u64| all.to_set().contains(i) <==> rest.to_set().insert(
        order.first(),
    ).contains(i) by {
        if all.contains(i) {
            let k = choose|k: int| 0 <= k < all.len() && all[k] == i;
            if k > 0 {
                assert(rest[k - 1] == i);
            }
        }
        if rest.contains(i) {
            let k = choose|k: int| 0 <= k < rest.len() && rest[k] == i;
            assert(all[k + 1] == i);
        }
        assert(all[0] == order.first());
    }
    assert(all.to_set() =~= rest.to_set().insert(order.first()));
}

/// What is remembered after a file was forgotten: all but its entry, in the
/// order in which it came.
pub proof fn law_removal<S>(cache: CacheView<S>, inode: u64, order: Seq<u64>, newest: u64)
    ensures
        cache.removed(inode).entries == cache.entries.remove(inode),
        cache.removed(inode).inflight == cache.inflight,
        cache.removed(inode).order == others_of(cache.order, inode),
        others_of(Seq::empty(), inode) == Seq::<u64>::empty(),
        newest != inode ==> others_of(order.push(newest), inode) == others_of(order, inode).push(
            newest,
        ),
        others_of(order.push(inode), inode) == others_of(order, inode),
{
    reveal(Seq::filter);
    assert(order.push(newest).drop_last() =~= order);
    assert(order.push(inode).drop_last() =~= order);
    assert(others_of(Seq::empty(), inode) =~= Seq::<u64>::empty());
}

/// A link is what stands behind an inode as such, with the path and the wish
/// that it was found with.
pub proof fn law_link<S>(cache: CacheView<S>, inode: u64)
    ensures
        cache.link(inode) is None <==> !cache.entries.dom().contains(inode)
            || cache.entries[inode] is Dir,
        cache.link(inode) matches Some((attr_path, src_only)) ==> cache.entries[inode] matches
            EntryView::Symlink { attr_path: path, src_only: wish, .. } && path == attr_path && wish
            == src_only,
{
}

/// Who begins to resolve a link builds it, with the slot it brought, if nobody
/// is building it; otherwise it waits for the slot of the one who is, and
/// nothing changes. If there is no link it fails, and nothing changes.
pub proof fn law_resolution_begins<S>(cache: CacheView<S>, inode: u64, fresh: S)
    ensures
        !cache.entries.dom().contains(inode) || cache.entries[inode] is Dir
            ==> cache.resolve_step(inode, fresh) == ResolveStepView::<S>::Fail(
            NixErrorView {
                errno: number(Errno::NoEntry),
                message: "entry evicted while resolving"@,
            },
        ) && cache.begun(inode, fresh) == cache,
        cache.entries.dom().contains(inode) ==> (cache.entries[inode] matches EntryView::Symlink {
            attr_path,
            src_only,
            ..
        } ==> if cache.inflight.dom().contains(inode) {
            &&& cache.resolve_step(inode, fresh) == ResolveStepView::Wait {
                slot: cache.inflight[inode],
            }
            &&& cache.begun(inode, fresh) == cache
        } else {
            &&& cache.resolve_step(inode, fresh) == ResolveStepView::Build {
                slot: fresh,
                attr_path,
                src_only,
            }
            &&& cache.begun(inode, fresh) == CacheView {
                entries: cache.entries,
                order: cache.order,
                inflight: cache.inflight.insert(inode, fresh),
            }
        }),
        cache.joined(inode, fresh) == if cache.inflight.dom().contains(inode) {
            cache
        } else {
            CacheView {
                entries: cache.entries,
                order: cache.order,
                inflight: cache.inflight.insert(inode, fresh),
            }
        },
{
}

/// What came of resolving a link is recorded in its entry, which keeps its path
/// and its wish; what is no link stays as it is. Only the builder ends the
/// resolution, and only its own.
pub proof fn law_resolution_is_recorded<S>(
    cache: CacheView<S>,
    inode: u64,
    path: Seq<char>,
    error: NixErrorView,
    now: u64,
    by_builder: bool,
)
    ensures
        cache.entries.dom().contains(inode) ==> (cache.entries[inode] matches EntryView::Symlink {
            attr_path,
            src_only,
            ..
        } ==> {
            &&& cache.settled(inode, Ok(path), now, by_builder).entries == cache.entries.insert(
                inode,
                EntryView::Symlink {
                    attr_path,
                    out_path: Some(path),
                    created: now,
                    src_only,
                    error: None,
                },
            )
            &&& cache.settled(inode, Err(error), now, by_builder).entries == cache.entries.insert(
                inode,
                EntryView::Symlink {
                    attr_path,
                    out_path: None,
                    created: now,
                    src_only,
                    error: Some((error.errno, error.message)),
                },
            )
        }),
        !cache.entries.dom().contains(inode) || cache.entries[inode] is Dir ==> cache.settled(
            inode,
            Ok(path),
            now,
            by_builder,
        ).entries == cache.entries && cache.settled(inode, Err(error), now, by_builder).entries
            == cache.entries,
        forall|result: Result<Seq<char>, NixErrorView>| #[trigger]
            cache.settled(inode, result, now, by_builder).order == cache.order,
        forall|result: Result<Seq<char>, NixErrorView>| #[trigger]
            cache.settled(inode, result, now, true).inflight == cache.inflight.remove(inode),
        forall|result: Result<Seq<char>, NixErrorView>| #[trigger]
            cache.settled(inode, result, now, false).inflight == cache.inflight,
{
}

/// How much is remembered, and for how long.
pub proof fn law_bounds<S>()
    ensures
        MAX_ENTRIES == 10_000,
        CACHE_TTL_NANOS == 5 * 60 * 1_000_000_000,
        CacheView::<S>::empty().entries == Map::<u64, EntryView>::empty(),
        CacheView::<S>::empty().order == Seq::<u64>::empty(),
        CacheView::<S>::empty().inflight == Map::<u64, S>::empty(),
{
}

} // verus!
