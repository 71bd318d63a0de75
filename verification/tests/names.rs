use nixfs::attr::{is_valid_attr_name, join_path, parent_attr_path, split_request};
use nixfs::inode::inode_for_attr_path;

#[test]
fn inode_for_attr_path_is_deterministic_and_distinct() {
    let a = inode_for_attr_path("vim");
    let b = inode_for_attr_path("vim");
    assert_eq!(a, b, "same path must hash to same inode");

    let c = inode_for_attr_path("python3Packages.numpy");
    assert_ne!(a, c, "different paths must hash to different inodes");

    // Parent/child paths differ (dot separator), so distinct inodes
    assert_ne!(inode_for_attr_path("python3Packages"), c);

    // The '@unpacked' suffix must change the inode
    assert_ne!(
        inode_for_attr_path("qemu.src"),
        inode_for_attr_path("qemu.src@unpacked")
    );
}

#[test]
fn inode_for_attr_path_avoids_zero() {
    // Inode 0 is reserved; the empty string must not hash to it
    assert_ne!(inode_for_attr_path(""), 0);
    // Real paths must not collide with the root
    assert_ne!(inode_for_attr_path("vim"), 1);
}

#[test]
fn inodes_are_fnv_1a() {
    assert_eq!(inode_for_attr_path(""), 0xcbf2_9ce4_8422_2325);
    assert_eq!(inode_for_attr_path("a"), 0xaf63_dc4c_8601_ec8c);
    assert_eq!(inode_for_attr_path("foobar"), 0x8594_4171_f739_67e8);
}

#[test]
fn unpacked_sources_have_their_own_inodes() {
    for path in ["", "vim", "qemu.src", "python3Packages.numpy", "π"] {
        let unpacked = inode_for_attr_path(&format!("{path}@unpacked"));
        // The suffix changes the parity.
        assert_ne!(unpacked % 2, inode_for_attr_path(path) % 2, "{path:?}");
    }
}

#[test]
fn common_suffixes_keep_inodes_apart() {
    for suffix in ["", ".src", "@unpacked", "π"] {
        let vim = inode_for_attr_path(&format!("vim{suffix}"));
        let vin = inode_for_attr_path(&format!("vin{suffix}"));
        assert_ne!(vim, vin);
    }
}

#[test]
fn is_valid_attr_name_accepts_real_nix_attrs() {
    for name in [
        "vim",
        "python3Packages.numpy",
        "qemu.src",
        "haskellPackages.2captcha", // digit-leading: reachable, must stay
        "3d-graphics-examples",
        "foo_bar-baz'qux",
        "a",
    ] {
        assert!(is_valid_attr_name(name), "{name:?} must be accepted");
    }
}

#[test]
fn is_valid_attr_name_rejects_junk() {
    for name in [
        "",
        ".",
        "..",
        ".hidden",
        "foo.",
        "foo..bar",
        "x} ; id",
        "foo bar",
        "@unpacked",
        "foo@unpacked@unpacked",
        "foo;bar",
        "foo(bar)",
        "a\"b",
        "-dash",
        "'quote",
        "π",
        "a b.c",
    ] {
        assert!(!is_valid_attr_name(name), "{name:?} must be rejected");
    }
}

#[test]
fn every_segment_is_checked() {
    assert!(is_valid_attr_name("_a.b'.c-"));
    assert!(!is_valid_attr_name("a.-b"));
    assert!(!is_valid_attr_name("a.'b"));
    assert!(!is_valid_attr_name("a.b.é"));
    assert!(!is_valid_attr_name("a\n"));
    assert!(is_valid_attr_name("Az09_.zZ"));
    assert!(!is_valid_attr_name("a`"));
    assert!(!is_valid_attr_name("a{"));
    assert!(!is_valid_attr_name("a@"));
    assert!(!is_valid_attr_name("a["));
    assert!(!is_valid_attr_name("a/"));
    assert!(!is_valid_attr_name("a:"));
}

#[test]
fn paths_below_attr_paths_are_attr_paths() {
    let path = join_path(Some("haskellPackages"), "2captcha.src");
    assert_eq!(path, "haskellPackages.2captcha.src");
    assert!(is_valid_attr_name(&path));
    assert_eq!(join_path(None, "vim"), "vim");
    assert!(!is_valid_attr_name(&join_path(Some("a"), "b c")));
}

#[test]
fn requests_are_split() {
    assert_eq!(split_request("vim"), ("vim", false));
    assert_eq!(split_request("qemu.src@unpacked"), ("qemu.src", true));
    assert_eq!(split_request("@unpacked"), ("", true));
    assert_eq!(
        split_request("foo@unpacked@unpacked"),
        ("foo@unpacked", true)
    );
    assert_eq!(split_request("π@unpacked"), ("π", true));
    assert_eq!(split_request("unpacked"), ("unpacked", false));
    assert_eq!(split_request("foo@unpackeD"), ("foo@unpackeD", false));
}

#[test]
fn parents_are_what_stands_before_the_last_dot() {
    assert_eq!(parent_attr_path("vim"), None);
    assert_eq!(parent_attr_path("a.b"), Some("a"));
    assert_eq!(parent_attr_path("a.b.c"), Some("a.b"));
    assert_eq!(parent_attr_path(".b"), Some(""));
    assert_eq!(parent_attr_path("π.b"), Some("π"));
    assert_eq!(parent_attr_path(""), None);
}
