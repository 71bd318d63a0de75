//! Inode numbers: the 64-bit FNV-1a hash of an attribute path, which is the
//! same in every process and after every remount.
use crate::attr::UNPACKED_SUFFIX;
use vstd::prelude::*;
use vstd::utf8::encode_utf8;

verus! {

/// What the hash of no bytes is.
pub const FNV_OFFSET_BASIS: u64 = 0xcbf2_9ce4_8422_2325;

/// What the hash is multiplied by after each byte.
pub const FNV_PRIME: u64 = 0x0000_0100_0000_01b3;

/// The inode of the root directory.
pub const ROOT_INODE: u64 = 1;

/// The hash after one more byte: exclusive or, then multiplication modulo 2^64.
pub open spec fn fnv_step(hash: u64, byte: u8) -> u64 {
    (((hash ^ (byte as u64)) * FNV_PRIME) % 0x1_0000_0000_0000_0000) as u64
}

/// The FNV-1a hash of `bytes`.
pub open spec fn fnv1a(bytes: Seq<u8>) -> u64
    decreases bytes.len(),
{
    if bytes.len() == 0 {
        FNV_OFFSET_BASIS
    } else {
        fnv_step(fnv1a(bytes.drop_last()), bytes.last())
    }
}

/// The inode of the attribute path `path`.
pub open spec fn inode_of(path: Seq<char>) -> u64 {
    fnv1a(encode_utf8(path))
}

/// Hashes an attribute path to its inode.
pub fn inode_for_attr_path(attr_path: &str) -> (inode: u64)
    ensures
        inode == inode_of(attr_path@),
{
    let mut hash: u64 = FNV_OFFSET_BASIS;
    let bytes = attr_path.as_bytes();
    let mut i: usize = 0;
    while i < bytes.len()
        invariant
            i <= bytes@.len(),
            bytes@ == encode_utf8(attr_path@),
            hash == fnv1a(bytes@.take(i as int)),
        decreases bytes.len() - i,
    {
        assert(bytes@.take(i + 1).drop_last() =~= bytes@.take(i as int));
        hash = hash ^ (bytes[i] as u64);
        hash = hash.wrapping_mul(FNV_PRIME);
        i += 1;
    }
    assert(bytes@.take(i as int) =~= bytes@);
    hash
}

/// A step of the hash loses nothing: different hashes stay different when the
/// same byte follows.
pub proof fn law_step_keeps_hashes_apart(g: u64, h: u64, byte: u8)
    requires
        g != h,
    ensures
        fnv_step(g, byte) != fnv_step(h, byte),
{
    let b = byte as u64;
    assert(g ^ b != h ^ b) by (bit_vector)
        requires
            g != h,
    ;
    if fnv_step(g, byte) == fnv_step(h, byte) {
        lemma_multiplication_injective(g ^ b, h ^ b);
    }
}

/// A step of the hash loses nothing: different bytes after the same hash give
/// different hashes.
pub proof fn law_step_keeps_bytes_apart(hash: u64, a: u8, b: u8)
    requires
        a != b,
    ensures
        fnv_step(hash, a) != fnv_step(hash, b),
{
    let x = a as u64;
    let y = b as u64;
    assert(hash ^ x != hash ^ y) by (bit_vector)
        requires
            x != y,
    ;
    if fnv_step(hash, a) == fnv_step(hash, b) {
        lemma_multiplication_injective(hash ^ x, hash ^ y);
    }
}

/// The prime is odd, so that multiplication by it is one to one modulo 2^64.
proof fn lemma_multiplication_injective(x: u64, y: u64)
    requires
        (x * FNV_PRIME) % 0x1_0000_0000_0000_0000 == (y * FNV_PRIME) % 0x1_0000_0000_0000_0000,
    ensures
        x == y,
{
    let m: int = 0x1_0000_0000_0000_0000;
    let q = (x * FNV_PRIME) / m - (y * FNV_PRIME) / m;
    assert((x - y) * 0x0000_0100_0000_01b3 == q * 0x1_0000_0000_0000_0000);
    // 0xce965057aff6957b is the inverse of the prime modulo 2^64.
    assert(0x0000_0100_0000_01b3 * 0xce96_5057_aff6_957bint == 1 + 887285111055
        * 0x1_0000_0000_0000_0000int);
    let t = q * 0xce96_5057_aff6_957b - (x - y) * 887285111055;
    assert(x - y == t * 0x1_0000_0000_0000_0000);
}

/// Paths with different inodes keep different inodes, and paths with the same
/// inode keep the same one, when the same text is appended to both.
pub proof fn law_common_suffix(a: Seq<char>, b: Seq<char>, suffix: Seq<char>)
    ensures
        inode_of(a + suffix) == inode_of(b + suffix) <==> inode_of(a) == inode_of(b),
{
    lemma_encode_concat(a, suffix);
    lemma_encode_concat(b, suffix);
    lemma_hash_concat(encode_utf8(a), encode_utf8(b), encode_utf8(suffix));
}

/// Two paths that differ in their last character alone, both ASCII, have
/// different inodes.
pub proof fn law_last_character(path: Seq<char>, c: char, d: char)
    requires
        c != d,
        (c as u32) < 0x80,
        (d as u32) < 0x80,
    ensures
        inode_of(path.push(c)) != inode_of(path.push(d)),
{
    lemma_encode_push_ascii(path, c);
    lemma_encode_push_ascii(path, d);
    let x = c as u32;
    let y = d as u32;
    assert(x as u8 != y as u8) by (bit_vector)
        requires
            x != y,
            x < 0x80,
            y < 0x80,
    ;
    lemma_hash_push(encode_utf8(path), x as u8);
    lemma_hash_push(encode_utf8(path), y as u8);
    law_step_keeps_bytes_apart(inode_of(path), x as u8, y as u8);
}

/// Asking for the unpacked source of an attribute changes the inode, whatever
/// the attribute.
pub proof fn law_suffix_changes_inode(path: Seq<char>)
    ensures
        inode_of(path + UNPACKED_SUFFIX@) != inode_of(path),
{
    // The prime is odd, so that the parity of the inode changes with each odd
    // byte. The suffix has five of them.
    reveal_strlit("@unpacked");
    let p1 = path.push('@');
    let p2 = p1.push('u');
    let p3 = p2.push('n');
    let p4 = p3.push('p');
    let p5 = p4.push('a');
    let p6 = p5.push('c');
    let p7 = p6.push('k');
    let p8 = p7.push('e');
    let p9 = p8.push('d');
    assert(path + UNPACKED_SUFFIX@ =~= p9);
    lemma_parity(path, '@');
    lemma_parity(p1, 'u');
    lemma_parity(p2, 'n');
    lemma_parity(p3, 'p');
    lemma_parity(p4, 'a');
    lemma_parity(p5, 'c');
    lemma_parity(p6, 'k');
    lemma_parity(p7, 'e');
    lemma_parity(p8, 'd');
    assert(is_odd(p9) != is_odd(path));
    if inode_of(p9) == inode_of(path) {
        lemma_same_parity(p9, path);
    }
}

/// What the numbering rests on: inode 0, which is reserved, is not that of the
/// empty path, an ordinary path does not have the inode of the root, and an
/// unpacked source has an inode of its own.
pub proof fn law_known_inodes()
    ensures
        inode_of(""@) != 0,
        inode_of("vim"@) != ROOT_INODE,
        inode_of("qemu.src"@) != inode_of("qemu.src@unpacked"@),
{
    reveal_strlit("");
    reveal_strlit("vim");
    reveal_strlit("qemu.src");
    reveal_strlit("qemu.src@unpacked");
    reveal_strlit("@unpacked");
    let none = Seq::<char>::empty();
    assert(""@ =~= none);
    assert(encode_utf8(none) =~= Seq::empty());
    assert("vim"@ =~= none.push('v').push('i').push('m'));
    lemma_inode_push(none, 'v');
    lemma_inode_push(none.push('v'), 'i');
    lemma_inode_push(none.push('v').push('i'), 'm');
    lemma_steps_of_vim();
    assert("qemu.src@unpacked"@ =~= "qemu.src"@ + UNPACKED_SUFFIX@);
    law_suffix_changes_inode("qemu.src"@);
}

proof fn lemma_inode_push(path: Seq<char>, c: char)
    requires
        (c as u32) < 0x80,
    ensures
        inode_of(path.push(c)) == fnv_step(inode_of(path), (c as u32) as u8),
{
    lemma_encode_push_ascii(path, c);
    lemma_hash_push(encode_utf8(path), (c as u32) as u8);
}

proof fn lemma_steps_of_vim()
    ensures
        fnv_step(fnv_step(fnv_step(FNV_OFFSET_BASIS, 0x76), 0x69), 0x6d) != ROOT_INODE,
{
    assert(0xcbf2_9ce4_8422_2325u64 ^ 0x76u64 == 0xcbf2_9ce4_8422_2353u64) by (bit_vector);
    assert(fnv_step(FNV_OFFSET_BASIS, 0x76) == 0xaf63_eb4c_8602_0609u64);
    assert(0xaf63_eb4c_8602_0609u64 ^ 0x69u64 == 0xaf63_eb4c_8602_0660u64) by (bit_vector);
    assert(fnv_step(0xaf63_eb4c_8602_0609u64, 0x69) == 0x08cf_3307_b570_d520u64);
    assert(0x08cf_3307_b570_d520u64 ^ 0x6du64 == 0x08cf_3307_b570_d54du64) by (bit_vector);
    assert(fnv_step(0x08cf_3307_b570_d520u64, 0x6d) == 0x68e9_0319_4eba_71d7u64);
}

/// Whether the inode of `path` is odd.
#[verifier::opaque]
spec fn is_odd(path: Seq<char>) -> bool {
    inode_of(path) % 2 == 1
}

proof fn lemma_same_parity(a: Seq<char>, b: Seq<char>)
    requires
        inode_of(a) == inode_of(b),
    ensures
        is_odd(a) == is_odd(b),
{
    reveal(is_odd);
}

proof fn lemma_parity(path: Seq<char>, c: char)
    requires
        (c as u32) < 0x80,
    ensures
        is_odd(path.push(c)) == (is_odd(path) != ((c as u32) % 2 == 1)),
{
    reveal(is_odd);
    lemma_inode_push(path, c);
    lemma_step_parity(inode_of(path), (c as u32) as u8);
}

proof fn lemma_step_parity(hash: u64, byte: u8)
    ensures
        fnv_step(hash, byte) % 2 == 1 <==> (hash % 2 == 1) != (byte % 2 == 1),
{
    let b = byte as u64;
    let x = hash ^ b;
    assert((hash ^ b) % 2 == 1 <==> (hash % 2 == 1) != (b % 2 == 1)) by (bit_vector);
    lemma_odd_multiple(x as int);
}

/// The prime is odd, so that multiplication by it modulo 2^64 keeps the parity.
proof fn lemma_odd_multiple(x: int)
    ensures
        ((x * FNV_PRIME) % 0x1_0000_0000_0000_0000) % 2 == x % 2,
{
    let product = x * FNV_PRIME;
    lemma_reduced_parity(product);
    lemma_even_difference(product, x, x * 0x80_0000_00d9);
}

proof fn lemma_reduced_parity(product: int)
    ensures
        (product % 0x1_0000_0000_0000_0000) % 2 == product % 2,
{
    let quotient = product / 0x1_0000_0000_0000_0000;
    let reduced = product % 0x1_0000_0000_0000_0000;
    lemma_even_difference(product, reduced, quotient * 0x8000_0000_0000_0000);
}

proof fn lemma_even_difference(a: int, b: int, half: int)
    requires
        a == b + 2 * half,
    ensures
        a % 2 == b % 2,
{
}

proof fn lemma_hash_push(bytes: Seq<u8>, byte: u8)
    ensures
        fnv1a(bytes.push(byte)) == fnv_step(fnv1a(bytes), byte),
{
    assert(bytes.push(byte).drop_last() =~= bytes);
}

proof fn lemma_hash_concat(x: Seq<u8>, y: Seq<u8>, tail: Seq<u8>)
    ensures
        fnv1a(x + tail) == fnv1a(y + tail) <==> fnv1a(x) == fnv1a(y),
    decreases tail.len(),
{
    if tail.len() == 0 {
        assert(x + tail =~= x);
        assert(y + tail =~= y);
    } else {
        let rest = tail.drop_last();
        assert((x + tail).drop_last() =~= x + rest);
        assert((y + tail).drop_last() =~= y + rest);
        lemma_hash_concat(x, y, rest);
        if fnv1a(x + rest) != fnv1a(y + rest) {
            law_step_keeps_hashes_apart(fnv1a(x + rest), fnv1a(y + rest), tail.last());
        }
    }
}

proof fn lemma_encode_concat(s: Seq<char>, t: Seq<char>)
    ensures
        encode_utf8(s + t) == encode_utf8(s) + encode_utf8(t),
    decreases s.len(),
{
    if s.len() == 0 {
        assert(s + t =~= t);
        assert(encode_utf8(s) + encode_utf8(t) =~= encode_utf8(t));
    } else {
        assert((s + t).drop_first() =~= s.drop_first() + t);
        lemma_encode_concat(s.drop_first(), t);
        assert(encode_utf8(s + t) =~= encode_utf8(s) + encode_utf8(t));
    }
}

proof fn lemma_encode_push_ascii(s: Seq<char>, c: char)
    requires
        (c as u32) < 0x80,
    ensures
        encode_utf8(s.push(c)) == encode_utf8(s).push((c as u32) as u8),
{
    let last = seq![c];
    assert(s.push(c) =~= s + last);
    lemma_encode_concat(s, last);
    assert(last.drop_first() =~= Seq::<char>::empty());
    assert(encode_utf8(last) =~= seq![(c as u32) as u8]) by {
        reveal_with_fuel(encode_utf8, 2);
        let n = c as u32;
        assert((n & 0x7F) as u8 == n as u8) by (bit_vector)
            requires
                n < 0x80,
        ;
    }
    assert(encode_utf8(s) + seq![(c as u32) as u8] =~= encode_utf8(s).push((c as u32) as u8));
}

/// The hash, byte by byte: it starts from the offset basis, and each byte is
/// combined by exclusive or before the multiplication by the prime, modulo
/// 2^64. The inode of a path is the hash of its UTF-8 encoding.
pub proof fn law_fnv_1a(bytes: Seq<u8>, byte: u8, path: Seq<char>)
    ensures
        fnv1a(Seq::empty()) == 0xcbf2_9ce4_8422_2325,
        fnv1a(bytes.push(byte)) == ((fnv1a(bytes) ^ (byte as u64)) * 0x100_0000_01b3)
            % 0x1_0000_0000_0000_0000,
        inode_of(path) == fnv1a(encode_utf8(path)),
        ROOT_INODE == 1,
{
    lemma_hash_push(bytes, byte);
}

} // verus!
