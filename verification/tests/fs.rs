use libc::{EINVAL, EIO, ENODATA, ENOENT, ENOTDIR, ETIMEDOUT};
use nixfs::cache::{Cache, EntryKind, ResolveStep, CACHE_TTL_NANOS, MAX_ENTRIES};
use nixfs::file::{make_attr, FileAttr, FileType};
use nixfs::fs::{answer_resolved, DirEntry, LookupPlan, LookupStep, NixFS, ReadlinkStep};
use nixfs::inode::inode_for_attr_path;
use nixfs::lock::lock_cache;
use nixfs::nix::{judge_build, AttrKind, NixError, Run, NIXPKGS};
use nixfs::xattr::XattrAnswer;
use std::sync::{Arc, Mutex};

/// Slots are told apart by a number.
type Fs = NixFS<u32>;

const HOUR: u64 = 3_600_000_000_000;

fn error(errno: i32, message: &str) -> NixError {
    NixError {
        errno,
        message: message.to_string(),
    }
}

fn stale_link(attr_path: &str) -> EntryKind {
    EntryKind::Symlink {
        attr_path: attr_path.to_string(),
        out_path: None,
        created: 0,
        src_only: false,
        error: None,
    }
}

#[test]
fn insert_entry_evicts_oldest_beyond_cap() {
    let mut fs = Fs::new(NIXPKGS.to_string());
    let total = MAX_ENTRIES + 50;
    {
        let cache = &mut fs.cache;
        for i in 0..total {
            cache.insert_entry(
                i as u64,
                EntryKind::Dir {
                    attr_path: format!("attr{i}"),
                },
            );
        }
        assert_eq!(cache.entries.len(), MAX_ENTRIES, "map must stay at the cap");
        assert_eq!(cache.order.len(), MAX_ENTRIES, "order must mirror the map");
        // Oldest 50 evicted, newest present.
        assert!(!cache.entries.contains_key(&0));
        assert!(!cache.entries.contains_key(&49));
        assert!(cache.entries.contains_key(&(MAX_ENTRIES as u64 + 49)));
        // remove_entry (what forget calls) drops it from both structures.
        let inode = MAX_ENTRIES as u64 + 49;
        cache.remove_entry(inode);
        assert!(!cache.entries.contains_key(&inode));
        assert!(!cache.order.contains(&inode));
    }
}

#[test]
fn an_entry_that_comes_twice_replaces_itself() {
    let mut cache: Cache<u32> = Cache::new();
    cache.insert_entry(5, stale_link("a"));
    cache.insert_entry(
        5,
        EntryKind::Dir {
            attr_path: "a".to_string(),
        },
    );
    assert_eq!(cache.entries.len(), 1);
    assert!(matches!(cache.entry(5), Some(EntryKind::Dir { .. })));
    cache.remove_entry(5);
    assert!(cache.entries.is_empty());
    assert!(cache.order.is_empty());
}

#[test]
fn resolve_symlink_dedups_concurrent_builds() {
    let mut fs = Fs::new(NIXPKGS.to_string());
    fs.cache.entries.insert(42, stale_link("foo"));
    // Four readers join before the first of them has built.
    let mut builds = 0;
    let mut readers = Vec::new();
    for fresh in 0..4 {
        match fs.cache.resolve_symlink(42, fresh) {
            ResolveStep::Fail(error) => panic!("{error:?}"),
            ResolveStep::Build {
                slot,
                attr_path,
                src_only,
            } => {
                assert_eq!(attr_path, "foo");
                assert!(!src_only);
                readers.push((*slot, true));
                builds += 1;
            }
            ResolveStep::Wait { slot } => readers.push((*slot, false)),
        }
    }
    assert_eq!(
        builds, 1,
        "four concurrent readlinks must trigger one build"
    );
    assert_eq!(readers, vec![(0, true), (0, false), (0, false), (0, false)]);
    // Each of them records what was built.
    let result = Ok("/nix/store/foo".to_string());
    for (_, is_builder) in readers {
        fs.cache.settle(42, &result, HOUR, is_builder);
        assert_eq!(
            answer_resolved(result.clone()),
            Ok("/nix/store/foo".to_string())
        );
    }
    let cache = &fs.cache;
    assert!(
        matches!(
            cache.entries.get(&42),
            Some(EntryKind::Symlink { out_path: Some(path), error: None, .. })
                if path == "/nix/store/foo"
        ),
        "cache must record the resolved path"
    );
    assert!(
        cache.inflight.is_empty(),
        "completion slot must be cleaned up"
    );
}

#[test]
fn resolve_symlink_records_failure_and_cleans_slot() {
    let mut fs = Fs::new(NIXPKGS.to_string());
    fs.cache.entries.insert(7, stale_link("bar"));
    assert_eq!(
        fs.cache.resolve_symlink(7, 0),
        ResolveStep::Build {
            slot: &0,
            attr_path: "bar".to_string(),
            src_only: false,
        }
    );
    let result = Err(error(EIO, "build boom"));
    fs.cache.settle(7, &result, HOUR, true);
    assert_eq!(answer_resolved(result), Err(EIO));
    let cache = &fs.cache;
    assert!(
        matches!(
            cache.entries.get(&7),
            Some(EntryKind::Symlink { out_path: None, error: Some((EIO, msg)), .. })
                if msg == "build boom"
        ),
        "failure must be recorded for the user.error xattr"
    );
    assert!(cache.inflight.is_empty());
}

#[test]
fn resolve_symlink_returns_enoent_for_evicted_entry() {
    let mut fs = Fs::new(NIXPKGS.to_string());
    assert_eq!(
        fs.cache.resolve_symlink(99, 0),
        ResolveStep::Fail(error(ENOENT, "entry evicted while resolving"))
    );
    assert!(fs.cache.inflight.is_empty());
}

#[test]
fn directories_are_not_resolved() {
    let mut cache: Cache<u32> = Cache::new();
    cache.insert_entry(
        3,
        EntryKind::Dir {
            attr_path: "d".to_string(),
        },
    );
    assert_eq!(cache.resolve_request(3).unwrap_err().errno, ENOENT);
    assert!(matches!(cache.resolve_symlink(3, 0), ResolveStep::Fail(_)));
    assert!(cache.inflight.is_empty());
    cache.settle(3, &Ok("/x".to_string()), 1, true);
    assert!(matches!(cache.entry(3), Some(EntryKind::Dir { attr_path }) if attr_path == "d"));
}

#[test]
fn an_evicted_link_is_settled_without_a_trace() {
    let mut cache: Cache<u32> = Cache::new();
    let (_, is_builder) = cache.join(8, 1);
    assert!(is_builder);
    cache.settle(8, &Ok("/x".to_string()), 1, false);
    assert_eq!(cache.inflight.get(&8), Some(&1));
    cache.settle(8, &Ok("/x".to_string()), 1, true);
    assert!(cache.inflight.is_empty());
    assert!(cache.entry(8).is_none());
    // The next reader builds again.
    assert_eq!(cache.join(8, 2), (&2, true));
}

#[test]
fn the_next_reader_builds_again() {
    let mut cache: Cache<u32> = Cache::new();
    cache.insert_entry(8, stale_link("a"));
    assert!(matches!(
        cache.resolve_symlink(8, 1),
        ResolveStep::Build { slot: 1, .. }
    ));
    assert_eq!(cache.resolve_symlink(8, 2), ResolveStep::Wait { slot: &1 });
    cache.settle(8, &Ok("/x".to_string()), 1, true);
    assert!(matches!(
        cache.resolve_symlink(8, 3),
        ResolveStep::Build { slot: 3, .. }
    ));
}

#[test]
fn a_link_can_leave_while_it_is_built() {
    let mut cache: Cache<u32> = Cache::new();
    cache.insert_entry(8, stale_link("a"));
    cache.resolve_symlink(8, 1);
    cache.remove_entry(8);
    assert!(matches!(cache.resolve_symlink(8, 2), ResolveStep::Fail(_)));
    assert_eq!(cache.inflight.get(&8), Some(&1));
    // Found again, it is still being built.
    cache.insert_entry(8, stale_link("a"));
    assert_eq!(cache.resolve_symlink(8, 2), ResolveStep::Wait { slot: &1 });
}

#[test]
fn the_path_that_a_build_prints_is_read() {
    let mut fs = Fs::new(NIXPKGS.to_string());
    fs.cache.insert_entry(8, stale_link("a"));
    fs.cache.resolve_symlink(8, 1);
    let result = judge_build(Run::Finished {
        success: true,
        stdout: b"/nix/store/a\n".to_vec(),
        stderr: Vec::new(),
    });
    fs.cache.settle(8, &result, 5, true);
    assert_eq!(
        fs.readlink(8, 5 + CACHE_TTL_NANOS),
        ReadlinkStep::Reply(Ok("/nix/store/a".to_string()))
    );
    assert_eq!(fs.readlink(8, 6 + CACHE_TTL_NANOS), ReadlinkStep::Resolve);
}

#[test]
fn what_happens_to_one_file_leaves_the_others() {
    let mut fs = Fs::new(NIXPKGS.to_string());
    fs.cache.insert_entry(8, stale_link("a"));
    fs.cache.insert_entry(9, stale_link("b"));
    fs.cache.settle(8, &Ok("/x".to_string()), 5, true);
    fs.cache.resolve_symlink(9, 1);
    fs.cache.settle(9, &Err(error(EIO, "boom")), 6, true);
    fs.cache.insert_entry(10, stale_link("c"));
    fs.forget(9);
    assert_eq!(fs.getattr(8), Ok(make_attr(8, FileType::Symlink)));
    assert_eq!(fs.readlink(8, 7), ReadlinkStep::Reply(Ok("/x".to_string())));
    assert_eq!(
        fs.getxattr(8, Some("user.error"), 0),
        XattrAnswer::Error(ENODATA)
    );
}

#[test]
fn the_shared_filesystem_is_the_one_behind_the_lock() {
    let shared = Arc::new(Mutex::new(Fs::new(NIXPKGS.to_string())));
    lock_cache(&shared).cache.insert_entry(8, stale_link("a"));
    assert_eq!(
        lock_cache(&shared).getattr(8),
        Ok(make_attr(8, FileType::Symlink))
    );
    // It is held until the guard is gone.
    let guard = lock_cache(&shared);
    assert!(shared.try_lock().is_err());
    drop(guard);
    assert!(shared.try_lock().is_ok());
}

#[test]
fn attributes_are_spelled_out() {
    let dir = FileAttr {
        ino: 9,
        size: 0,
        blocks: 0,
        atime: 0,
        mtime: 0,
        ctime: 0,
        crtime: 0,
        kind: FileType::Directory,
        perm: 0o555,
        nlink: 2,
        uid: 0,
        gid: 0,
        rdev: 0,
        flags: 0,
        blksize: 512,
    };
    assert_eq!(make_attr(9, FileType::Directory), dir);
    let link = FileAttr {
        kind: FileType::Symlink,
        perm: 0o444,
        nlink: 1,
        ..dir
    };
    assert_eq!(make_attr(9, FileType::Symlink), link);
    assert_eq!(make_attr(9, FileType::RegularFile).perm, 0o444);
}

#[test]
fn junk_names_are_refused() {
    let fs = Fs::new(NIXPKGS.to_string());
    let refused = LookupStep::Reply(Err(EINVAL));
    assert_eq!(fs.lookup(1, None), refused);
    for name in ["", ".git", "a b", "@unpacked", "a@unpacked@unpacked", "x;y"] {
        assert_eq!(fs.lookup(1, Some(name)), refused, "{name:?}");
        // The name is looked at before the parent.
        assert_eq!(fs.lookup(77, Some(name)), refused, "{name:?}");
    }
}

#[test]
fn lookups_are_planned_answered_and_remembered() {
    let mut fs = Fs::new(NIXPKGS.to_string());
    let inode = inode_for_attr_path("python3Packages");
    let LookupStep::Eval(plan) = fs.lookup(1, Some("python3Packages")) else {
        panic!("nothing is known yet");
    };
    assert_eq!(
        plan,
        LookupPlan {
            child_path: "python3Packages".to_string(),
            inode,
            src_only: false
        }
    );
    let attr = make_attr(inode, FileType::Directory);
    assert_eq!(fs.finish_lookup(plan, Ok(AttrKind::Directory), 5), Ok(attr));
    assert_eq!(
        fs.lookup(1, Some("python3Packages")),
        LookupStep::Reply(Ok(attr))
    );
    assert_eq!(fs.getattr(inode), Ok(attr));

    // A child of the directory, unpacked.
    let child = inode_for_attr_path("python3Packages.numpy.src@unpacked");
    let LookupStep::Eval(plan) = fs.lookup(inode, Some("numpy.src@unpacked")) else {
        panic!("nothing is known yet");
    };
    assert_eq!(
        plan,
        LookupPlan {
            child_path: "python3Packages.numpy.src".to_string(),
            inode: child,
            src_only: true
        }
    );
    let link = make_attr(child, FileType::Symlink);
    assert_eq!(fs.finish_lookup(plan, Ok(AttrKind::Derivation), 7), Ok(link));
    assert_eq!(fs.getattr(child), Ok(link));
    assert_eq!(
        fs.cache.resolve_request(child),
        Ok(("python3Packages.numpy.src".to_string(), true))
    );
    assert_eq!(fs.lookup(child, Some("x")), LookupStep::Reply(Err(ENOTDIR)));

    fs.forget(child);
    assert_eq!(fs.getattr(child), Err(ENOENT));
    assert_eq!(fs.lookup(child, Some("x")), LookupStep::Reply(Err(ENOENT)));
}

#[test]
fn failed_lookups_leave_nothing_behind() {
    let mut fs = Fs::new(NIXPKGS.to_string());
    let LookupStep::Eval(plan) = fs.lookup(1, Some("nope")) else {
        panic!("nothing is known yet");
    };
    assert_eq!(
        fs.finish_lookup(plan, Err(error(ETIMEDOUT, "timed out")), 0),
        Err(ETIMEDOUT)
    );
    assert!(fs.cache.entries.is_empty());
    assert!(fs.cache.order.is_empty());
}

#[test]
fn the_root_is_always_there() {
    let fs = Fs::new(NIXPKGS.to_string());
    assert_eq!(fs.getattr(1), Ok(make_attr(1, FileType::Directory)));
    assert_eq!(fs.getattr(2), Err(ENOENT));
    assert_eq!(fs.readlink(1, 0), ReadlinkStep::Reply(Err(ENOENT)));
}

#[test]
fn links_answer_what_was_found_while_it_holds() {
    let mut fs = Fs::new(NIXPKGS.to_string());
    fs.cache.insert_entry(4, stale_link("vim"));
    fs.cache.insert_entry(
        6,
        EntryKind::Dir {
            attr_path: "d".to_string(),
        },
    );
    assert_eq!(fs.readlink(6, 0), ReadlinkStep::Reply(Err(EINVAL)));
    assert_eq!(fs.readlink(4, 0), ReadlinkStep::Resolve);

    fs.cache.settle(4, &Ok("/nix/store/vim".to_string()), HOUR, true);
    let found = ReadlinkStep::Reply(Ok("/nix/store/vim".to_string()));
    assert_eq!(fs.readlink(4, HOUR), found);
    assert_eq!(fs.readlink(4, HOUR + CACHE_TTL_NANOS), found);
    assert_eq!(fs.readlink(4, HOUR + CACHE_TTL_NANOS + 1), ReadlinkStep::Resolve);
    // A clock that runs backwards makes nothing older.
    assert_eq!(fs.readlink(4, 0), found);

    fs.cache.settle(4, &Err(error(ETIMEDOUT, "late")), 2 * HOUR, true);
    assert_eq!(fs.readlink(4, 2 * HOUR), ReadlinkStep::Reply(Err(ETIMEDOUT)));
    assert_eq!(
        fs.readlink(4, 2 * HOUR + CACHE_TTL_NANOS + 1),
        ReadlinkStep::Resolve
    );
}

#[test]
fn failures_can_be_read() {
    let mut fs = Fs::new(NIXPKGS.to_string());
    fs.cache.insert_entry(4, stale_link("vim"));
    let none = XattrAnswer::Error(ENODATA);
    assert_eq!(fs.getxattr(4, Some("user.error"), 0), none);
    assert_eq!(fs.listxattr(4, 0), XattrAnswer::Size(0));
    assert_eq!(fs.listxattr(4, 5), XattrAnswer::Data(Vec::new()));

    fs.cache.settle(4, &Err(error(EIO, "kaputt π")), 1, true);
    assert_eq!(fs.getxattr(4, Some("user.error"), 0), XattrAnswer::Size(9));
    assert_eq!(
        fs.getxattr(4, Some("user.error"), 9),
        XattrAnswer::Data("kaputt π".as_bytes().to_vec())
    );
    assert_eq!(
        fs.getxattr(4, Some("user.error"), 8),
        XattrAnswer::Error(libc::ERANGE)
    );
    assert_eq!(fs.getxattr(4, Some("user.other"), 9), none);
    assert_eq!(fs.getxattr(4, None, 9), none);
    assert_eq!(fs.getxattr(5, Some("user.error"), 9), none);
    assert_eq!(fs.listxattr(4, 0), XattrAnswer::Size(11));
    assert_eq!(
        fs.listxattr(4, 11),
        XattrAnswer::Data(b"user.error\0".to_vec())
    );
    assert_eq!(fs.listxattr(4, 10), XattrAnswer::Error(libc::ERANGE));

    fs.cache.settle(4, &Ok("/x".to_string()), 2, true);
    assert_eq!(fs.getxattr(4, Some("user.error"), 0), none);
    assert_eq!(fs.listxattr(4, 0), XattrAnswer::Size(0));
}

#[test]
fn directories_hold_themselves_and_their_parent() {
    let mut fs = Fs::new(NIXPKGS.to_string());
    let top = inode_for_attr_path("a");
    let below = inode_for_attr_path("a.b");
    for (inode, attr_path) in [(top, "a"), (below, "a.b")] {
        fs.cache.insert_entry(
            inode,
            EntryKind::Dir {
                attr_path: attr_path.to_string(),
            },
        );
    }
    fs.cache.insert_entry(4, stale_link("vim"));
    let names = |inode: u64, parent: u64| {
        vec![
            DirEntry {
                ino: inode,
                offset: 1,
                kind: FileType::Directory,
                name: ".",
            },
            DirEntry {
                ino: parent,
                offset: 2,
                kind: FileType::Directory,
                name: "..",
            },
        ]
    };
    assert_eq!(fs.readdir(1, 0), Ok(names(1, 1)));
    assert_eq!(fs.readdir(top, 0), Ok(names(top, 1)));
    assert_eq!(fs.readdir(below, 0), Ok(names(below, top)));
    assert_eq!(fs.readdir(below, 1), Ok(names(below, top)[1..].to_vec()));
    for offset in [2, 3, i64::MAX, -1, i64::MIN] {
        assert_eq!(fs.readdir(below, offset), Ok(Vec::new()));
    }
    assert_eq!(fs.readdir(4, 0), Err(ENOTDIR));
    assert_eq!(fs.readdir(99, 0), Err(ENOTDIR));
}
