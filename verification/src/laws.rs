//! What holds of the filesystem as a whole.
use crate::attr::{
    asks_unpacked, is_attr_path, law_attr_path_characters, law_parent_of_child,
    law_path_below_attr_path, law_request_parts, path_below, request_suffix, requested_attr,
};
use crate::cache::{
    evicted_error, others_of, CacheView, EntryView, ResolveStepView, CACHE_TTL_NANOS, MAX_ENTRIES,
};
use crate::errno::{number, Errno};
use crate::file::{attr_of, FileAttr, FileType};
use crate::fs::{
    dot_entries, kind_of, lookup_reply, new_entry, path_of, resolved_reply, sound_entry,
    DirEntryView, LookupPlanView, LookupStepView, ReadlinkStepView, ERROR_XATTR, ERROR_XATTR_LIST,
};
use crate::inode::{inode_of, law_suffix_changes_inode, ROOT_INODE};
use crate::nix::{build_outcome, law_printed_path_is_read, AttrKind, NixErrorView, Run};
use crate::xattr::{xattr_answer, XattrAnswerView};
use vstd::prelude::*;
use vstd::utf8::encode_utf8;

verus! {

proof fn lemma_mirrored_len<S>(cache: CacheView<S>)
    requires
        cache.order.no_duplicates(),
        cache.order.to_set() == cache.entries.dom(),
    ensures
        cache.entries.dom().len() == cache.order.len(),
{
    cache.order.unique_seq_to_set();
}

/// The empty cache mirrors.
pub proof fn law_empty_mirrors<S>()
    ensures
        CacheView::<S>::empty().mirrors(),
{
    assert(Seq::<u64>::empty().to_set() =~= Set::<u64>::empty());
}

/// A new entry that finds room joins the others as the newest. One that does
/// not takes the room of the oldest; all others stay.
pub proof fn law_oldest_leaves<S>(cache: CacheView<S>, inode: u64, entry: EntryView)
    requires
        cache.mirrors(),
        !cache.entries.dom().contains(inode),
    ensures
        cache.inserted(inode, entry).mirrors(),
        cache.inserted(inode, entry) == if cache.order.len() < MAX_ENTRIES {
            CacheView {
                entries: cache.entries.insert(inode, entry),
                order: cache.order.push(inode),
                inflight: cache.inflight,
            }
        } else {
            CacheView {
                entries: cache.entries.remove(cache.order.first()).insert(inode, entry),
                order: cache.order.drop_first().push(inode),
                inflight: cache.inflight,
            }
        },
{
    let grown = CacheView {
        entries: cache.entries.insert(inode, entry),
        order: cache.order.push(inode),
        inflight: cache.inflight,
    };
    assert(!cache.order.contains(inode)) by {
        if cache.order.contains(inode) {
            assert(cache.order.to_set().contains(inode));
        }
    }
    assert(grown.order.to_set() =~= grown.entries.dom()) by {
        assert forall|i: u64| grown.order.to_set().contains(i) <==> grown.entries.dom().contains(
            i,
        ) by {
            if cache.order.contains(i) {
                let k = choose|k: int| 0 <= k < cache.order.len() && cache.order[k] == i;
                assert(grown.order[k] == i);
                assert(cache.order.to_set().contains(i));
            }
            if i == inode {
                assert(grown.order[cache.order.len() as int] == inode);
            }
            if grown.order.contains(i) && i != inode {
                let k = choose|k: int| 0 <= k < grown.order.len() && grown.order[k] == i;
                assert(cache.order[k] == i);
                assert(cache.order.to_set().contains(i));
            }
            if cache.entries.dom().contains(i) {
                assert(cache.order.to_set().contains(i));
            }
        }
    }
    lemma_mirrored_len(grown);
    if cache.order.len() == MAX_ENTRIES {
        let oldest = cache.order.first();
        let left = CacheView {
            entries: grown.entries.remove(oldest),
            order: grown.order.drop_first(),
            inflight: grown.inflight,
        };
        assert(grown.order.first() == oldest);
        assert(cache.order.contains(oldest));
        assert(left.order =~= cache.order.drop_first().push(inode));
        assert(left.entries =~= cache.entries.remove(oldest).insert(inode, entry));
        assert(left.order.to_set() =~= left.entries.dom()) by {
            assert forall|i: u64| left.order.to_set().contains(i) <==> left.entries.dom().contains(
                i,
            ) by {
                if left.order.contains(i) {
                    let k = choose|k: int| 0 <= k < left.order.len() && left.order[k] == i;
                    assert(grown.order[k + 1] == i);
                    assert(grown.order.to_set().contains(i));
                    assert(grown.order[0] == oldest);
                }
                if grown.entries.dom().contains(i) && i != oldest {
                    assert(grown.order.to_set().contains(i));
                    let k = choose|k: int| 0 <= k < grown.order.len() && grown.order[k] == i;
                    assert(left.order[k - 1] == i);
                }
            }
        }
        lemma_mirrored_len(left);
        assert(grown.evicted() == left.evicted());
        assert(left.evicted() == left);
    }
}

/// No matter what is inserted, there are never more entries than the bound.
pub proof fn law_bounded<S>(cache: CacheView<S>, inode: u64, entry: EntryView)
    requires
        cache.entries.dom().finite(),
        cache.entries.dom().subset_of(cache.order.to_set()),
    ensures
        cache.inserted(inode, entry).entries.dom().finite(),
        cache.inserted(inode, entry).entries.dom().subset_of(
            cache.inserted(inode, entry).order.to_set(),
        ),
        cache.inserted(inode, entry).entries.dom().len() <= MAX_ENTRIES,
{
    let grown = CacheView {
        entries: cache.entries.insert(inode, entry),
        order: cache.order.push(inode),
        inflight: cache.inflight,
    };
    assert forall|i: u64| grown.entries.dom().contains(i) implies grown.order.to_set().contains(
        i,
    ) by {
        if i == inode {
            assert(grown.order[cache.order.len() as int] == inode);
        } else {
            assert(cache.order.to_set().contains(i));
            let k = choose|k: int| 0 <= k < cache.order.len() && cache.order[k] == i;
            assert(grown.order[k] == i);
        }
    }
    lemma_evicted_bounded(grown);
}

proof fn lemma_evicted_bounded<S>(cache: CacheView<S>)
    requires
        cache.entries.dom().finite(),
        cache.entries.dom().subset_of(cache.order.to_set()),
    ensures
        cache.evicted().entries.dom().finite(),
        cache.evicted().entries.dom().subset_of(cache.evicted().order.to_set()),
        cache.evicted().entries.dom().len() <= MAX_ENTRIES,
    decreases cache.order.len(),
{
    if cache.entries.dom().len() > MAX_ENTRIES {
        if cache.order.len() == 0 {
            assert(cache.entries.dom() =~= Set::<u64>::empty());
        } else {
            let oldest = cache.order.first();
            let left = CacheView {
                entries: cache.entries.remove(oldest),
                order: cache.order.drop_first(),
                inflight: cache.inflight,
            };
            assert forall|i: u64|
                left.entries.dom().contains(i) implies left.order.to_set().contains(i) by {
                assert(cache.order.to_set().contains(i));
                let k = choose|k: int| 0 <= k < cache.order.len() && cache.order[k] == i;
                assert(left.order[k - 1] == i);
            }
            lemma_evicted_bounded(left);
        }
    }
}

proof fn lemma_others(order: Seq<u64>, inode: u64)
    ensures
        others_of(order, inode).len() <= order.len(),
        forall|i: u64| #[trigger]
            others_of(order, inode).contains(i) <==> order.contains(i) && i != inode,
        order.no_duplicates() ==> others_of(order, inode).no_duplicates(),
    decreases order.len(),
{
    reveal(Seq::filter);
    if order.len() > 0 {
        let rest = order.drop_last();
        lemma_others(rest, inode);
        assert forall|i: u64| #[trigger]
            others_of(order, inode).contains(i) <==> order.contains(i) && i != inode by {
            assert(order.contains(i) <==> rest.contains(i) || i == order.last()) by {
                if rest.contains(i) {
                    let k = choose|k: int| 0 <= k < rest.len() && rest[k] == i;
                    assert(order[k] == i);
                }
                assert(order[order.len() - 1] == order.last());
                if order.contains(i) && i != order.last() {
                    let k = choose|k: int| 0 <= k < order.len() && order[k] == i;
                    assert(rest[k] == i);
                }
            }
            if order.last() != inode {
                let kept = others_of(rest, inode);
                assert(kept.push(order.last())[kept.len() as int] == order.last());
                if kept.contains(i) {
                    let k = choose|k: int| 0 <= k < kept.len() && kept[k] == i;
                    assert(kept.push(order.last())[k] == i);
                }
                if kept.push(order.last()).contains(i) && i != order.last() {
                    let k = choose|k: int|
                        0 <= k < kept.push(order.last()).len() && kept.push(order.last())[k] == i;
                    assert(kept[k] == i);
                }
            }
        }
        if order.no_duplicates() && order.last() != inode {
            assert(!rest.contains(order.last()));
            assert(!others_of(rest, inode).contains(order.last()));
        }
    }
}

/// A forgotten file is gone from the entries and from the order, and nothing
/// else is.
pub proof fn law_forgotten<S>(cache: CacheView<S>, inode: u64)
    ensures
        !cache.removed(inode).entries.dom().contains(inode),
        !cache.removed(inode).order.contains(inode),
        forall|other: u64|
            other != inode ==> (#[trigger] cache.removed(inode).entries.dom().contains(other)
                <==> cache.entries.dom().contains(other)) && (cache.removed(inode).order.contains(
                other,
            ) <==> cache.order.contains(other)),
        forall|other: u64| #[trigger]
            cache.removed(inode).entries.dom().contains(other)
                ==> cache.removed(inode).entries[other] == cache.entries[other],
        cache.mirrors() ==> cache.removed(inode).mirrors(),
{
    lemma_others(cache.order, inode);
    let left = cache.removed(inode);
    if cache.mirrors() {
        assert(left.order.to_set() =~= left.entries.dom()) by {
            assert forall|i: u64| left.order.to_set().contains(i) <==> left.entries.dom().contains(
                i,
            ) by {
                assert(left.order.contains(i) <==> cache.order.contains(i) && i != inode);
                assert(cache.order.to_set().contains(i) <==> cache.order.contains(i));
            }
        }
    }
}

/// Beginning to resolve a link touches no entry, and of the resolutions that
/// are under way none but its own.
pub proof fn law_beginning_keeps_entries<S>(cache: CacheView<S>, inode: u64, slot: S)
    ensures
        cache.begun(inode, slot).entries == cache.entries,
        cache.begun(inode, slot).order == cache.order,
        cache.begun(inode, slot).inflight.remove(inode) == cache.inflight.remove(inode),
{
}

/// Settling changes at most the entry of the link itself: no entry comes or
/// goes, and the order stays.
pub proof fn law_settle_keeps_others<S>(
    cache: CacheView<S>,
    inode: u64,
    result: Result<Seq<char>, NixErrorView>,
    now: u64,
    by_builder: bool,
)
    ensures
        cache.settled(inode, result, now, by_builder).entries.dom() == cache.entries.dom(),
        cache.settled(inode, result, now, by_builder).order == cache.order,
        forall|other: u64|
            other != inode && cache.entries.dom().contains(other) ==> #[trigger] cache.settled(
                inode,
                result,
                now,
                by_builder,
            ).entries[other] == cache.entries[other],
        cache.mirrors() ==> cache.settled(inode, result, now, by_builder).mirrors(),
{
    assert(cache.settled(inode, result, now, by_builder).entries.dom() =~= cache.entries.dom());
}

/// One thing that happens to the cache.
pub enum Step<S> {
    /// `nix` found the attribute of a lookup.
    Found { plan: LookupPlanView, kind: AttrKind, now: u64 },
    /// A file was forgotten.
    Forgotten { inode: u64 },
    /// A reader of a link began to resolve it, or to wait for that.
    Begun { inode: u64, slot: S },
    /// A reader of a link recorded what came of its resolution.
    Settled {
        inode: u64,
        result: Result<Seq<char>, NixErrorView>,
        now: u64,
        by_builder: bool,
    },
}

impl<S> Step<S> {
    /// The cache after this step.
    pub open spec fn applied(self, cache: CacheView<S>) -> CacheView<S> {
        match self {
            Step::Found { plan, kind, now } => cache.looked_up(plan, Ok(kind), now),
            Step::Forgotten { inode } => cache.removed(inode),
            Step::Begun { inode, slot } => cache.begun(inode, slot),
            Step::Settled { inode, result, now, by_builder } => cache.settled(
                inode,
                result,
                now,
                by_builder,
            ),
        }
    }

    /// Whether this step ends the resolution of `inode`.
    pub open spec fn ends(self, inode: u64) -> bool {
        self matches Step::Settled { inode: settled, by_builder, .. } && settled == inode
            && by_builder
    }
}

/// The cache after `steps`.
pub open spec fn after<S>(cache: CacheView<S>, steps: Seq<Step<S>>) -> CacheView<S>
    decreases steps.len(),
{
    if steps.len() == 0 {
        cache
    } else {
        steps.last().applied(after(cache, steps.drop_last()))
    }
}

proof fn lemma_evicted_keeps_inflight<S>(cache: CacheView<S>)
    ensures
        cache.evicted().inflight == cache.inflight,
    decreases cache.order.len(),
{
    if cache.entries.dom().len() > MAX_ENTRIES && cache.order.len() > 0 {
        lemma_evicted_keeps_inflight(
            CacheView {
                entries: cache.entries.remove(cache.order.first()),
                order: cache.order.drop_first(),
                inflight: cache.inflight,
            },
        );
    }
}

/// From the moment that one reader of a link is told to build until it
/// settles, whatever else happens, every other reader is told to wait for the
/// slot of the first, or that the link is gone, and that changes nothing.
pub proof fn law_one_builder<S>(cache: CacheView<S>, inode: u64, steps: Seq<Step<S>>, slot: S)
    requires
        cache.inflight.dom().contains(inode),
        forall|k: int| 0 <= k < steps.len() ==> !(#[trigger] steps[k]).ends(inode),
    ensures
        after(cache, steps).inflight.dom().contains(inode),
        after(cache, steps).inflight[inode] == cache.inflight[inode],
        after(cache, steps).resolve_step(inode, slot) == match after(cache, steps).link(inode) {
            Some(_) => ResolveStepView::Wait { slot: cache.inflight[inode] },
            None => ResolveStepView::Fail(evicted_error()),
        },
        after(cache, steps).begun(inode, slot) == after(cache, steps),
    decreases steps.len(),
{
    if steps.len() > 0 {
        let before = after(cache, steps.drop_last());
        assert forall|k: int| 0 <= k < steps.drop_last().len() implies !(
        #[trigger] steps.drop_last()[k]).ends(inode) by {
            assert(steps.drop_last()[k] == steps[k]);
        }
        law_one_builder(cache, inode, steps.drop_last(), slot);
        let step = steps[steps.len() - 1];
        assert(!step.ends(inode));
        match step {
            Step::Found { plan, kind, now } => {
                let entry = new_entry(plan, kind, now);
                lemma_evicted_keeps_inflight(
                    CacheView {
                        entries: before.entries.insert(plan.inode, entry),
                        order: before.order.push(plan.inode),
                        inflight: before.inflight,
                    },
                );
            },
            _ => {},
        }
    }
}

/// Who is told to build is resolving the link from then on, with the slot it
/// brought.
pub proof fn law_builder_is_known<S>(cache: CacheView<S>, inode: u64, fresh: S)
    requires
        cache.resolve_step(inode, fresh) is Build,
    ensures
        cache.begun(inode, fresh).inflight.dom().contains(inode),
        cache.begun(inode, fresh).inflight[inode] == fresh,
        cache.resolve_step(inode, fresh)->Build_slot == fresh,
{
}

/// Once the builder of a link has settled, nobody is resolving it, and the
/// next reader is told to build, with a slot of its own, unless the link is
/// gone.
pub proof fn law_settled_builder_is_done<S>(
    cache: CacheView<S>,
    inode: u64,
    result: Result<Seq<char>, NixErrorView>,
    now: u64,
    slot: S,
)
    ensures
        !cache.settled(inode, result, now, true).inflight.dom().contains(inode),
        cache.settled(inode, result, now, true).resolve_step(inode, slot) == match cache.link(
            inode,
        ) {
            Some((attr_path, src_only)) => ResolveStepView::Build { slot, attr_path, src_only },
            None => ResolveStepView::Fail(evicted_error()),
        },
{
}

/// What a resolution found is what reading the link answers for as long as an
/// entry holds, be it a store path or an error; after that the link is
/// resolved again. A failure can be read as an extended attribute, and a
/// success leaves none.
pub proof fn law_settled_is_read<S>(
    cache: CacheView<S>,
    inode: u64,
    result: Result<Seq<char>, NixErrorView>,
    now: u64,
    by_builder: bool,
    later: u64,
    size: u32,
)
    requires
        cache.link(inode) is Some,
    ensures
        ({
            let settled = cache.settled(inode, result, now, by_builder);
            &&& settled.readlink_step(inode, later) == if later - now <= CACHE_TTL_NANOS {
                ReadlinkStepView::Reply(resolved_reply(result))
            } else {
                ReadlinkStepView::Resolve
            }
            &&& settled.failure(inode) == match result {
                Ok(_) => None,
                Err(error) => Some(error.message),
            }
            &&& settled.xattr(inode, Some(ERROR_XATTR@), size) == match result {
                Ok(_) => XattrAnswerView::Error(number(Errno::NoData)),
                Err(error) => xattr_answer(size, encode_utf8(error.message)),
            }
            &&& settled.xattr_list(inode, size) == xattr_answer(
                size,
                match result {
                    Ok(_) => Seq::empty(),
                    Err(_) => encode_utf8(ERROR_XATTR_LIST@),
                },
            )
            &&& settled.link(inode) == cache.link(inode)
        }),
{
}

/// The path that a build prints is where the link leads, for as long as an
/// entry holds.
pub proof fn law_built_path_is_read<S>(
    cache: CacheView<S>,
    inode: u64,
    path: Seq<char>,
    feeds: nat,
    run: Run,
    now: u64,
    by_builder: bool,
    later: u64,
)
    requires
        cache.link(inode) is Some,
        path.len() > 0 ==> path.last() != '\n',
        run matches Run::Finished { success, stdout, .. } && success && stdout@ == encode_utf8(
            path + Seq::new(feeds, |i: int| '\n'),
        ),
        later - now <= CACHE_TTL_NANOS,
    ensures
        cache.settled(inode, build_outcome(run), now, by_builder).readlink_step(inode, later)
            == ReadlinkStepView::Reply(Ok(path)),
{
    law_printed_path_is_read(path, feeds, run);
    law_settled_is_read(cache, inode, build_outcome(run), now, by_builder, later, 0);
}

/// A link that was only found is resolved when it is first read, and shows no
/// failure before.
pub proof fn law_found_link_is_resolved<S>(
    cache: CacheView<S>,
    inode: u64,
    plan: LookupPlanView,
    now: u64,
    later: u64,
)
    requires
        cache.entries.dom().contains(inode),
        cache.entries[inode] == new_entry(plan, AttrKind::Derivation, now),
    ensures
        cache.readlink_step(inode, later) is Resolve,
        cache.link(inode) == Some((plan.child_path, plan.src_only)),
        cache.failure(inode) is None,
{
}

/// Whether a step can follow on `cache`: what is found was planned, and errors
/// have numbers.
pub open spec fn can_follow<S>(cache: CacheView<S>, step: Step<S>) -> bool {
    match step {
        Step::Found { plan, .. } => cache.admits(plan),
        Step::Settled { result, .. } => result matches Err(error) ==> error.errno != 0,
        _ => true,
    }
}

/// The empty cache is sound.
pub proof fn law_empty_sound<S>()
    ensures
        CacheView::<S>::empty().sound(),
{
    law_empty_mirrors::<S>();
}

/// What soundness means: every entry stands once in the order, there are no more
/// than ten thousand, each is at an attribute path and under the inode of that
/// path or of it with the suffix, and no link leads somewhere and fails at once.
pub proof fn law_sound<S>(cache: CacheView<S>, inode: u64)
    requires
        cache.sound(),
    ensures
        cache.order.no_duplicates(),
        cache.order.len() <= 10_000,
        cache.order.contains(inode) <==> cache.entries.dom().contains(inode),
        cache.entries.dom().contains(inode) ==> match cache.entries[inode] {
            EntryView::Symlink { attr_path, out_path, src_only, error, .. } => {
                &&& is_attr_path(attr_path)
                &&& inode == inode_of(
                    if src_only {
                        attr_path + "@unpacked"@
                    } else {
                        attr_path
                    },
                )
                &&& out_path is None || error is None
                &&& error matches Some((n, _)) ==> n != 0
            },
            EntryView::Dir { attr_path } => is_attr_path(attr_path) && (inode == inode_of(attr_path)
                || inode == inode_of(attr_path + "@unpacked"@)),
        },
{
    assert(cache.order.to_set().contains(inode) <==> cache.order.contains(inode));
    if cache.entries.dom().contains(inode) {
        let entry = cache.entries[inode];
        assert(sound_entry(inode, entry));
        let path = path_of(entry);
        assert(path + request_suffix(false) =~= path);
        if entry is Dir {
            let src_only = choose|src_only: bool|
                inode == inode_of(path + #[trigger] request_suffix(src_only));
            assert(inode == inode_of(path + request_suffix(src_only)));
        }
    }
}

/// Every step keeps the cache sound.
pub proof fn law_step_keeps_sound<S>(cache: CacheView<S>, step: Step<S>)
    requires
        cache.sound(),
        can_follow(cache, step),
    ensures
        step.applied(cache).sound(),
{
    let next = step.applied(cache);
    match step {
        Step::Found { plan, kind, now } => {
            let entry = new_entry(plan, kind, now);
            law_oldest_leaves(cache, plan.inode, entry);
            assert(sound_entry(plan.inode, entry)) by {
                assert(plan.inode == inode_of(plan.child_path + request_suffix(plan.src_only)));
            }
        },
        Step::Forgotten { inode } => {
            law_forgotten(cache, inode);
        },
        Step::Begun { .. } => {},
        Step::Settled { inode, result, now, by_builder } => {
            law_settle_keeps_others(cache, inode, result, now, by_builder);
            assert forall|i: u64| #[trigger] next.entries.dom().contains(i) implies sound_entry(
                i,
                next.entries[i],
            ) by {
                assert(cache.entries.dom().contains(i));
                assert(sound_entry(i, cache.entries[i]));
            }
        },
    }
}

/// A name never reaches `nix` unless it is an attribute path: what the first
/// step of a lookup asks to evaluate is one, and can then be remembered.
pub proof fn law_only_attr_paths_are_evaluated<S>(
    cache: CacheView<S>,
    parent: u64,
    name: Option<Seq<char>>,
    plan: LookupPlanView,
)
    requires
        cache.sound(),
        cache.lookup_step(parent, name) == LookupStepView::Eval(plan),
    ensures
        cache.admits(plan),
        is_attr_path(plan.child_path),
        !cache.entries.dom().contains(plan.inode),
{
    let name = name->Some_0;
    let directory = cache.directory(parent)->Ok_0;
    let attr = requested_attr(name);
    law_request_parts(name);
    assert(path_below(directory, name) =~= path_below(directory, attr) + request_suffix(
        asks_unpacked(name),
    ));
    if let Some(path) = directory {
        assert(sound_entry(parent, cache.entries[parent]));
        law_path_below_attr_path(path, attr);
    }
}

/// Whether each of `steps` can follow on `cache` and those before it.
pub open spec fn can_run<S>(cache: CacheView<S>, steps: Seq<Step<S>>) -> bool
    decreases steps.len(),
{
    steps.len() > 0 ==> can_run(cache, steps.drop_last()) && can_follow(
        after(cache, steps.drop_last()),
        steps.last(),
    )
}

/// The cache is sound at all times.
pub proof fn law_always_sound<S>(steps: Seq<Step<S>>)
    requires
        can_run(CacheView::<S>::empty(), steps),
    ensures
        after(CacheView::<S>::empty(), steps).sound(),
    decreases steps.len(),
{
    if steps.len() == 0 {
        law_empty_sound::<S>();
    } else {
        law_always_sound(steps.drop_last());
        law_step_keeps_sound(after(CacheView::<S>::empty(), steps.drop_last()), steps.last());
    }
}

/// A plan that is admitted stays so after whatever happens besides lookups.
pub proof fn law_plan_stays_admitted<S>(cache: CacheView<S>, step: Step<S>, plan: LookupPlanView)
    requires
        cache.admits(plan),
        !(step is Found),
    ensures
        step.applied(cache).admits(plan),
{
    match step {
        Step::Settled { inode, result, now, by_builder } => {
            law_settle_keeps_others(cache, inode, result, now, by_builder);
        },
        _ => {},
    }
}

/// A link is always resolved by a command on an attribute path.
pub proof fn law_only_attr_paths_are_built<S>(cache: CacheView<S>, inode: u64)
    requires
        cache.sound(),
    ensures
        cache.link(inode) matches Some((attr_path, _)) ==> is_attr_path(attr_path),
{
}

/// What a lookup answers stands: the same lookup is answered the same without
/// asking `nix` again, and so are the attributes of the file.
pub proof fn law_lookup_is_remembered<S>(
    cache: CacheView<S>,
    parent: u64,
    name: Seq<char>,
    plan: LookupPlanView,
    kind: AttrKind,
    now: u64,
)
    requires
        cache.sound(),
        cache.lookup_step(parent, Some(name)) == LookupStepView::Eval(plan),
        plan.inode != ROOT_INODE,
        cache.order.len() == MAX_ENTRIES ==> cache.order.first() != parent,
    ensures
        ({
            let next = cache.looked_up(plan, Ok(kind), now);
            let reply = lookup_reply(plan, Ok(kind));
            &&& next.lookup_step(parent, Some(name)) == LookupStepView::Reply(reply)
            &&& next.attributes(plan.inode) == reply
            &&& reply == Ok::<FileAttr, i32>(
                attr_of(plan.inode, kind_of(new_entry(plan, kind, now))),
            )
        }),
{
    law_only_attr_paths_are_evaluated(cache, parent, Some(name), plan);
    law_oldest_leaves(cache, plan.inode, new_entry(plan, kind, now));
    let next = cache.looked_up(plan, Ok(kind), now);
    assert(next.entries.dom().contains(plan.inode));
    assert(next.directory(parent) == cache.directory(parent));
}

/// An attribute and its unpacked source are different files, in every
/// directory.
pub proof fn law_unpacked_source_is_another_file(directory: Option<Seq<char>>, name: Seq<char>)
    ensures
        inode_of(path_below(directory, name)) != inode_of(
            path_below(directory, name + request_suffix(true)),
        ),
{
    let path = path_below(directory, name);
    assert(path_below(directory, name + request_suffix(true)) =~= path + request_suffix(true));
    law_suffix_changes_inode(path);
}

/// A lookup that fails leaves nothing behind.
pub proof fn law_failed_lookup_is_forgotten<S>(
    cache: CacheView<S>,
    plan: LookupPlanView,
    error: NixErrorView,
    now: u64,
)
    ensures
        cache.looked_up(plan, Err(error), now) == cache,
        lookup_reply(plan, Err(error)) == Err::<FileAttr, i32>(error.errno),
{
}

/// The directory that a directory lies in is the one it was looked up in, when
/// the name holds no dot and the parent stands under the inode of its path.
pub proof fn law_dot_dot_leads_back<S>(
    cache: CacheView<S>,
    parent: u64,
    name: Seq<char>,
    child: u64,
)
    requires
        cache.sound(),
        !name.contains('.'),
        child != ROOT_INODE,
        cache.entries.dom().contains(child),
        cache.directory(parent) matches Ok(path) && cache.entries[child] == (EntryView::Dir {
            attr_path: path_below(path, name),
        }) && (path matches Some(path) ==> parent == inode_of(path)),
    ensures
        cache.parent_inode(child) == Ok::<u64, i32>(parent),
        cache.listing(child, 0) == Ok::<Seq<DirEntryView>, i32>(dot_entries(child, parent)),
{
    let directory = cache.directory(parent)->Ok_0;
    match directory {
        None => {
            law_parent_of_child(Seq::empty(), name);
        },
        Some(path) => {
            law_parent_of_child(path, name);
            assert(sound_entry(parent, cache.entries[parent]));
            law_attr_path_characters(path);
        },
    }
    assert(dot_entries(child, parent).skip(0) =~= dot_entries(child, parent));
}

/// A listing goes on where it stopped: the offset of a name leads to the names
/// behind it.
pub proof fn law_listing_goes_on<S>(cache: CacheView<S>, inode: u64, k: int)
    requires
        cache.listing(inode, 0) is Ok,
        0 <= k < cache.listing(inode, 0)->Ok_0.len(),
    ensures
        cache.listing(inode, cache.listing(inode, 0)->Ok_0[k].offset) == Ok::<
            Seq<DirEntryView>,
            i32,
        >(cache.listing(inode, 0)->Ok_0.skip(k + 1)),
{
    let names = dot_entries(inode, cache.parent_inode(inode)->Ok_0);
    assert(names.skip(0) =~= names);
}

/// A file that can be listed is one whose attributes are those of a directory,
/// and only such a file can be looked up in.
pub proof fn law_directories_agree<S>(cache: CacheView<S>, inode: u64, offset: i64)
    ensures
        cache.listing(inode, offset) is Ok <==> cache.attributes(inode) == Ok::<FileAttr, i32>(
            attr_of(inode, FileType::Directory),
        ),
        cache.listing(inode, offset) is Ok <==> cache.directory(inode) is Ok,
{
}

/// Whether `step` leaves the entry of `inode` alone: it is not about it and
/// does not push it out.
pub open spec fn spares<S>(cache: CacheView<S>, step: Step<S>, inode: u64) -> bool {
    match step {
        Step::Found { plan, .. } => plan.inode != inode && (cache.order.len() == MAX_ENTRIES
            ==> cache.order.first() != inode),
        Step::Forgotten { inode: other } => other != inode,
        Step::Begun { .. } => true,
        Step::Settled { inode: other, .. } => other != inode,
    }
}

/// What happens to other files does not change what a file is, what its link
/// answers or why it failed.
pub proof fn law_files_are_independent<S>(
    cache: CacheView<S>,
    step: Step<S>,
    inode: u64,
    now: u64,
)
    requires
        cache.sound(),
        can_follow(cache, step),
        spares(cache, step, inode),
    ensures
        step.applied(cache).attributes(inode) == cache.attributes(inode),
        step.applied(cache).link(inode) == cache.link(inode),
        step.applied(cache).readlink_step(inode, now) == cache.readlink_step(inode, now),
        step.applied(cache).failure(inode) == cache.failure(inode),
{
    match step {
        Step::Found { plan, kind, now } => {
            law_oldest_leaves(cache, plan.inode, new_entry(plan, kind, now));
        },
        Step::Forgotten { inode: other } => {
            law_forgotten(cache, other);
        },
        Step::Begun { .. } => {},
        Step::Settled { inode: other, result, now, by_builder } => {
            law_settle_keeps_others(cache, other, result, now, by_builder);
        },
    }
}

} // verus!
