//! Names of Nix attributes and dotted paths of them.
use crate::text::{
    chars_of, lemma_split_nonempty, lemma_split_of_joined, split, strip_suffix,
};
use vstd::prelude::*;

verus! {

/// An ASCII letter or digit.
pub open spec fn is_alphanumeric(c: char) -> bool {
    ||| 'a' <= c <= 'z'
    ||| 'A' <= c <= 'Z'
    ||| '0' <= c <= '9'
}

/// What a segment of a path may start with.
pub open spec fn starts_segment(c: char) -> bool {
    is_alphanumeric(c) || c == '_'
}

/// What may follow the first character of a segment.
pub open spec fn continues_segment(c: char) -> bool {
    is_alphanumeric(c) || c == '_' || c == '\'' || c == '-'
}

/// One segment of an attribute path.
pub open spec fn is_segment(s: Seq<char>) -> bool {
    &&& s.len() > 0
    &&& starts_segment(s[0])
    &&& forall|i: int| 0 < i < s.len() ==> continues_segment(#[trigger] s[i])
}

/// The pieces of `s` between its dots: one more than there are dots.
pub open spec fn segments(s: Seq<char>) -> Seq<Seq<char>> {
    split(s, '.')
}

/// Whether every piece is a segment.
pub open spec fn all_segments(pieces: Seq<Seq<char>>) -> bool {
    forall|k: int| 0 <= k < pieces.len() ==> is_segment(#[trigger] pieces[k])
}

/// A path of attribute names with dots between them.
pub open spec fn is_attr_path(s: Seq<char>) -> bool {
    all_segments(segments(s))
}

fn may_start_segment(c: char) -> (b: bool)
    ensures
        b == starts_segment(c),
{
    ('a' <= c && c <= 'z') || ('A' <= c && c <= 'Z') || ('0' <= c && c <= '9') || c == '_'
}

fn may_continue_segment(c: char) -> (b: bool)
    ensures
        b == continues_segment(c),
{
    may_start_segment(c) || c == '\'' || c == '-'
}

/// A piece that is closed by a dot stays what it is, whatever follows.
proof fn lemma_closed_segment_stays(s: Seq<char>, i: int, k: int)
    requires
        0 <= i <= s.len(),
        0 <= k < segments(s.take(i)).len() - 1,
    ensures
        k < segments(s).len() - 1,
        segments(s)[k] == segments(s.take(i))[k],
    decreases s.len() - i,
{
    if i < s.len() {
        assert(s.take(i + 1).drop_last() =~= s.take(i));
        lemma_closed_segment_stays(s, i + 1, k);
    } else {
        assert(s.take(i) =~= s);
    }
}

/// A piece that cannot begin or go on as it does is no segment, whatever follows.
proof fn lemma_open_segment_broken(s: Seq<char>, i: int, at: int)
    requires
        0 <= i <= s.len(),
        0 <= at < segments(s.take(i)).last().len(),
        at == 0 ==> !starts_segment(segments(s.take(i)).last()[0]),
        at > 0 ==> !continues_segment(segments(s.take(i)).last()[at]),
    ensures
        !is_attr_path(s),
    decreases s.len() - i,
{
    lemma_split_nonempty(s.take(i), '.');
    let open = segments(s.take(i)).last();
    let k = segments(s.take(i)).len() - 1;
    if i < s.len() {
        assert(s.take(i + 1).drop_last() =~= s.take(i));
        if s[i] == '.' {
            lemma_closed_segment_stays(s, i + 1, k);
            assert(segments(s)[k] == open);
            assert(!is_segment(open));
        } else {
            lemma_open_segment_broken(s, i + 1, at);
        }
    } else {
        assert(s.take(i) =~= s);
        assert(segments(s)[k] == open);
        assert(!is_segment(open));
    }
}

/// Whether `name` is an attribute path: non-empty segments with dots between
/// them, each starting with an ASCII letter, a digit or `_` and going on with
/// letters, digits, `_`, `'` and `-`.
pub fn is_valid_attr_name(name: &str) -> (valid: bool)
    ensures
        valid == is_attr_path(name@),
{
    let chars: Vec<char> = chars_of(name);
    let mut at_start = true;
    let mut i: usize = 0;
    let ghost mut pieces: Seq<Seq<char>> = seq![Seq::empty()];
    assert(name@.take(0) =~= Seq::empty());
    while i < chars.len()
        invariant
            i <= chars.len(),
            chars@ == name@,
            pieces == segments(name@.take(i as int)),
            pieces.len() > 0,
            at_start == (pieces.last().len() == 0),
            !at_start ==> is_segment(pieces.last()),
            all_segments(pieces.drop_last()),
        decreases chars.len() - i,
    {
        let c: char = chars[i];
        let ghost done = pieces;
        proof {
            assert(name@.take(i + 1).drop_last() =~= name@.take(i as int));
            assert(name@.take(i + 1).last() == c);
            pieces = segments(name@.take(i + 1));
        }
        if c == '.' {
            if at_start {
                proof {
                    lemma_closed_segment_stays(name@, i + 1, done.len() - 1);
                    assert(segments(name@)[done.len() - 1] == done.last());
                }
                return false;
            }
            at_start = true;
            assert(pieces.drop_last() =~= done.drop_last().push(done.last()));
        } else {
            let fits: bool = if at_start { may_start_segment(c) } else { may_continue_segment(c) };
            assert(pieces.drop_last() =~= done.drop_last());
            if !fits {
                proof {
                    lemma_open_segment_broken(name@, i + 1, done.last().len() as int);
                }
                return false;
            }
            at_start = false;
        }
        i += 1;
    }
    proof {
        assert(name@.take(name@.len() as int) =~= name@);
        assert(pieces =~= pieces.drop_last().push(pieces.last()));
        if at_start {
            assert(!is_segment(pieces[pieces.len() - 1]));
        }
    }
    !at_start
}

/// What stands behind the name of an attribute to ask for its unpacked source.
pub const UNPACKED_SUFFIX: &'static str = "@unpacked";

/// The text behind the attribute name of a request: the suffix when the
/// unpacked source is asked for, else nothing.
pub open spec fn request_suffix(src_only: bool) -> Seq<char> {
    if src_only {
        UNPACKED_SUFFIX@
    } else {
        Seq::empty()
    }
}

/// Whether a requested name asks for the unpacked source.
pub open spec fn asks_unpacked(name: Seq<char>) -> bool {
    UNPACKED_SUFFIX@.is_suffix_of(name)
}

/// The name of the attribute in a requested name.
pub open spec fn requested_attr(name: Seq<char>) -> Seq<char> {
    if asks_unpacked(name) {
        name.take(name.len() - UNPACKED_SUFFIX@.len())
    } else {
        name
    }
}

/// Splits a requested name into the name of the attribute and whether its
/// unpacked source is asked for.
pub fn split_request(name: &str) -> (request: (&str, bool))
    ensures
        request.0@ == requested_attr(name@),
        request.1 == asks_unpacked(name@),
        request.1 ==> name@ == request.0@ + "@unpacked"@,
        !request.1 ==> name@ == request.0@ && !"@unpacked"@.is_suffix_of(name@),
{
    match strip_suffix(name, UNPACKED_SUFFIX) {
        Some(base) => {
            assert(requested_attr(name@) =~= base@);
            (base, true)
        },
        None => (name, false),
    }
}

/// A requested name is the name of the attribute and, for the unpacked
/// source, the suffix.
pub proof fn law_request_parts(name: Seq<char>)
    ensures
        name == requested_attr(name) + request_suffix(asks_unpacked(name)),
{
    assert(name =~= requested_attr(name) + request_suffix(asks_unpacked(name)));
}

/// The path of `name` below `parent`, which is no path for the root.
pub open spec fn path_below(parent: Option<Seq<char>>, name: Seq<char>) -> Seq<char> {
    match parent {
        Some(parent) => parent + seq!['.'] + name,
        None => name,
    }
}

/// The path of `name` below `parent`, which is no path for the root.
pub fn join_path(parent: Option<&str>, name: &str) -> (path: String)
    ensures
        path@ == path_below(
            match parent {
                Some(parent) => Some(parent@),
                None => None,
            },
            name@,
        ),
        parent matches Some(parent) ==> path@ == parent@ + seq!['.'] + name@,
        parent is None ==> path@ == name@,
{
    match parent {
        Some(parent) => {
            let mut path: String = parent.to_string();
            proof {
                reveal_strlit(".");
            }
            path.append(".");
            assert(path@ =~= parent@ + seq!['.']);
            path.append(name);
            path
        },
        None => name.to_string(),
    }
}

/// What stands in front of the last dot of `s`, if there is a dot.
pub open spec fn before_last_dot(s: Seq<char>) -> Option<Seq<char>>
    decreases s.len(),
{
    if s.len() == 0 {
        None
    } else if s.last() == '.' {
        Some(s.drop_last())
    } else {
        before_last_dot(s.drop_last())
    }
}

/// What stands in front of the last dot of `path`, if there is a dot.
pub fn parent_attr_path(path: &str) -> (parent: Option<&str>)
    ensures
        match parent {
            Some(parent) => before_last_dot(path@) == Some(parent@),
            None => before_last_dot(path@) is None,
        },
{
    let chars: Vec<char> = chars_of(path);
    let mut n: usize = chars.len();
    assert(path@.take(n as int) =~= path@);
    while n > 0
        invariant
            n <= chars.len(),
            chars@ == path@,
            before_last_dot(path@.take(n as int)) == before_last_dot(path@),
        decreases n,
    {
        assert(path@.take(n as int).drop_last() =~= path@.take(n - 1));
        n -= 1;
        if chars[n] == '.' {
            return Some(path.substring_char(0, n));
        }
    }
    None
}

/// The pieces with a dot between each and the next.
pub open spec fn dotted(pieces: Seq<Seq<char>>) -> Seq<char>
    decreases pieces.len(),
{
    if pieces.len() == 0 {
        Seq::empty()
    } else if pieces.len() == 1 {
        pieces[0]
    } else {
        dotted(pieces.drop_last()) + seq!['.'] + pieces.last()
    }
}

/// `segments` splits at the dots and loses nothing: no piece holds a dot, and
/// the pieces with dots between them are the text again.
pub proof fn law_segments_split_at_dots(s: Seq<char>)
    ensures
        dotted(segments(s)) == s,
        segments(s).len() > 0,
        forall|k: int| 0 <= k < segments(s).len() ==> !(#[trigger] segments(s)[k]).contains('.'),
    decreases s.len(),
{
    if s.len() == 0 {
        assert(s =~= Seq::empty());
    } else {
        let before = segments(s.drop_last());
        let after = segments(s);
        law_segments_split_at_dots(s.drop_last());
        assert(after.drop_last() =~= if s.last() == '.' { before } else { before.drop_last() });
        assert(s =~= s.drop_last().push(s.last()));
        if s.last() == '.' {
            assert(dotted(after) =~= s);
        } else {
            if before.len() == 1 {
                assert(dotted(after) =~= s);
            } else {
                assert(dotted(before) == dotted(before.drop_last()) + seq!['.'] + before.last());
                assert(dotted(after) =~= s);
            }
        }
        assert forall|k: int| 0 <= k < after.len() implies !(#[trigger] after[k]).contains('.') by {
            if k < after.len() - 1 {
                assert(after[k] == before[k]);
            } else if s.last() != '.' {
                assert forall|j: int| 0 <= j < after[k].len() implies after[k][j] != '.' by {
                    if j < before.last().len() {
                        assert(before.last().contains(before.last()[j]));
                        assert(before[before.len() - 1] == before.last());
                    }
                }
            }
        }
    }
}

/// An attribute path below an attribute path is an attribute path.
pub proof fn law_path_below_attr_path(parent: Seq<char>, name: Seq<char>)
    ensures
        is_attr_path(path_below(Some(parent), name)) <==> is_attr_path(parent) && is_attr_path(
            name,
        ),
{
    lemma_split_of_joined(parent, name, '.');
    let all = segments(parent) + segments(name);
    let n = segments(parent).len();
    if all_segments(all) {
        assert forall|k: int| 0 <= k < n implies is_segment(#[trigger] segments(parent)[k]) by {
            assert(all[k] == segments(parent)[k]);
        }
        assert forall|k: int| 0 <= k < segments(name).len() implies is_segment(
            #[trigger] segments(name)[k],
        ) by {
            assert(all[n + k] == segments(name)[k]);
        }
    }
}

/// An attribute path is not empty and holds nothing but letters, digits, `_`,
/// `'`, `-` and dots: no blank, quote, bracket, semicolon or `@`.
pub proof fn law_attr_path_characters(path: Seq<char>)
    requires
        is_attr_path(path),
    ensures
        path.len() > 0,
        forall|i: int|
            0 <= i < path.len() ==> continues_segment(#[trigger] path[i]) || path[i] == '.',
{
    law_segments_split_at_dots(path);
    assert(is_segment(segments(path)[0]));
    lemma_dotted_characters(segments(path));
}

proof fn lemma_dotted_characters(pieces: Seq<Seq<char>>)
    requires
        all_segments(pieces),
    ensures
        pieces.len() > 0 ==> dotted(pieces).len() > 0,
        forall|i: int|
            0 <= i < dotted(pieces).len() ==> continues_segment(#[trigger] dotted(pieces)[i])
                || dotted(pieces)[i] == '.',
    decreases pieces.len(),
{
    if pieces.len() > 0 {
        let last = pieces[pieces.len() - 1];
        assert(is_segment(last));
        assert(forall|i: int| 0 <= i < last.len() ==> continues_segment(#[trigger] last[i]));
        if pieces.len() > 1 {
            lemma_dotted_characters(pieces.drop_last());
        }
    }
}

/// What stands in front of the last dot of a path below `parent` is `parent`,
/// when the name holds no dot.
pub proof fn law_parent_of_child(parent: Seq<char>, name: Seq<char>)
    requires
        !name.contains('.'),
    ensures
        before_last_dot(path_below(Some(parent), name)) == Some(parent),
        before_last_dot(path_below(None, name)) is None,
    decreases name.len(),
{
    let path = parent + seq!['.'] + name;
    if name.len() == 0 {
        assert(path.drop_last() =~= parent);
    } else {
        assert(name.contains(name.last()));
        assert(path.drop_last() =~= parent + seq!['.'] + name.drop_last());
        assert forall|i: int|
            0 <= i < name.drop_last().len() implies name.drop_last()[i] != '.' by {
            assert(name.contains(name[i]));
        }
        law_parent_of_child(parent, name.drop_last());
    }
}

/// No attribute path ends with the suffix that asks for the unpacked source,
/// so that the two requests for an attribute are never the same text.
pub proof fn law_suffix_is_no_attr_path(name: Seq<char>)
    requires
        is_attr_path(name),
    ensures
        !asks_unpacked(name),
{
    reveal_strlit("@unpacked");
    law_attr_path_characters(name);
    if asks_unpacked(name) {
        let at = name.len() - UNPACKED_SUFFIX@.len();
        assert(name.skip(at)[0] == '@');
        assert(name[at] == '@');
    }
}

/// An attribute path, character by character: it is not empty, an ASCII
/// letter, a digit or `_` stands at its start and behind every dot, all others
/// are letters, digits, `_`, `'`, `-` and dots, and it does not end with a dot.
pub proof fn law_attr_path_by_character(s: Seq<char>)
    ensures
        is_attr_path(s) <==> {
            &&& s.len() > 0
            &&& s.last() != '.'
            &&& ('a' <= s[0] <= 'z' || 'A' <= s[0] <= 'Z' || '0' <= s[0] <= '9' || s[0] == '_')
            &&& forall|i: int|
                0 <= i < s.len() ==> {
                    ||| 'a' <= #[trigger] s[i] <= 'z' || 'A' <= s[i] <= 'Z' || '0' <= s[i] <= '9'
                    ||| s[i] == '_' || s[i] == '\'' || s[i] == '-' || s[i] == '.'
                }
            &&& forall|i: int, j: int|
                #![trigger s[i], s[j]]
                0 <= i < s.len() && j == i + 1 && j < s.len() && s[i] == '.' ==> {
                    ||| 'a' <= s[j] <= 'z' || 'A' <= s[j] <= 'Z' || '0' <= s[j] <= '9'
                    ||| s[j] == '_'
                }
        },
{
    lemma_begun_path(s);
    lemma_split_nonempty(s, '.');
    let pieces = segments(s);
    assert(pieces =~= pieces.drop_last().push(pieces.last()));
    if is_attr_path(s) {
        assert(is_segment(pieces[pieces.len() - 1]));
        assert(all_segments(pieces.drop_last())) by {
            assert forall|k: int| 0 <= k < pieces.drop_last().len() implies is_segment(
                #[trigger] pieces.drop_last()[k],
            ) by {
                assert(pieces[k] == pieces.drop_last()[k]);
            }
        }
        assert(is_begun(s));
    }
    if is_begun(s) && s.len() > 0 && s.last() != '.' {
        assert forall|k: int| 0 <= k < pieces.len() implies is_segment(#[trigger] pieces[k]) by {
            if k < pieces.len() - 1 {
                assert(pieces.drop_last()[k] == pieces[k]);
            }
        }
    }
}

/// Whether `s` is the beginning of an attribute path: all pieces but the last
/// are segments, and the last one is one as far as it goes.
spec fn is_begun(s: Seq<char>) -> bool {
    let pieces = segments(s);
    all_segments(pieces.drop_last()) && (pieces.last().len() == 0 || is_segment(pieces.last()))
}

spec fn is_begun_by_character(s: Seq<char>) -> bool {
    &&& s.len() > 0 ==> starts_segment(s[0])
    &&& forall|i: int| 0 <= i < s.len() ==> continues_segment(#[trigger] s[i]) || s[i] == '.'
    &&& forall|i: int, j: int|
        #![trigger s[i], s[j]]
        0 <= i < s.len() && j == i + 1 && j < s.len() && s[i] == '.' ==> starts_segment(s[j])
}

proof fn lemma_begun_path(s: Seq<char>)
    ensures
        is_begun(s) <==> is_begun_by_character(s),
        segments(s).last().len() == 0 <==> s.len() == 0 || s.last() == '.',
    decreases s.len(),
{
    lemma_split_nonempty(s, '.');
    if s.len() > 0 {
        let rest = s.drop_last();
        let c = s.last();
        let before = segments(rest);
        let after = segments(s);
        lemma_begun_path(rest);
        lemma_split_nonempty(rest, '.');
        assert(s[s.len() - 1] == c);
        assert(s.len() > 1 ==> rest[rest.len() - 1] == rest.last() && s[s.len() - 2]
            == rest.last());
        assert(is_begun_by_character(s) <==> {
            &&& is_begun_by_character(rest)
            &&& if s.len() == 1 || rest.last() == '.' {
                starts_segment(c)
            } else {
                continues_segment(c) || c == '.'
            }
        }) by {
            if is_begun_by_character(s) {
                assert forall|i: int| 0 <= i < rest.len() implies continues_segment(
                    #[trigger] rest[i],
                ) || rest[i] == '.' by {
                    assert(s[i] == rest[i]);
                }
                assert forall|i: int, j: int|
                    #![trigger rest[i], rest[j]]
                    0 <= i < rest.len() && j == i + 1 && j < rest.len() && rest[i]
                        == '.' implies starts_segment(rest[j]) by {
                    assert(s[i] == rest[i] && s[j] == rest[j]);
                }
            }
            if is_begun_by_character(rest) && (if s.len() == 1 || rest.last() == '.' {
                starts_segment(c)
            } else {
                continues_segment(c) || c == '.'
            }) {
                assert forall|i: int| 0 <= i < s.len() implies continues_segment(#[trigger] s[i])
                    || s[i] == '.' by {
                    if i < rest.len() {
                        assert(s[i] == rest[i]);
                    }
                }
                assert forall|i: int, j: int|
                    #![trigger s[i], s[j]]
                    0 <= i < s.len() && j == i + 1 && j < s.len() && s[i]
                        == '.' implies starts_segment(s[j]) by {
                    if j < rest.len() {
                        assert(s[i] == rest[i] && s[j] == rest[j]);
                    }
                }
            }
        }
        if c == '.' {
            assert(after.drop_last() =~= before);
            assert(before =~= before.drop_last().push(before.last()));
            if all_segments(before) {
                assert(is_segment(before[before.len() - 1]));
                assert forall|k: int| 0 <= k < before.drop_last().len() implies is_segment(
                    #[trigger] before.drop_last()[k],
                ) by {
                    assert(before[k] == before.drop_last()[k]);
                }
            }
            if is_begun(rest) && before.last().len() > 0 {
                assert forall|k: int| 0 <= k < before.len() implies is_segment(
                    #[trigger] before[k],
                ) by {
                    if k < before.len() - 1 {
                        assert(before.drop_last()[k] == before[k]);
                    }
                }
            }
        } else {
            assert(after.drop_last() =~= before.drop_last());
            let open = before.last();
            assert(after.last() == open.push(c));
            if is_segment(open.push(c)) && open.len() > 0 {
                assert(open.push(c)[0] == open[0]);
                assert(open.push(c)[open.len() as int] == c);
                assert forall|i: int| 0 < i < open.len() implies continues_segment(
                    #[trigger] open[i],
                ) by {
                    assert(open.push(c)[i] == open[i]);
                }
            }
        }
    } else {
        assert(segments(s).drop_last() =~= Seq::empty());
    }
}

/// A name with `@unpacked` behind it asks for the unpacked source of the
/// attribute; every other name asks for the attribute that it is.
pub proof fn law_requests(name: Seq<char>)
    ensures
        asks_unpacked(name + "@unpacked"@),
        requested_attr(name + "@unpacked"@) == name,
        !"@unpacked"@.is_suffix_of(name) ==> !asks_unpacked(name) && requested_attr(name) == name,
        request_suffix(true) == "@unpacked"@,
        request_suffix(false) == Seq::<char>::empty(),
{
    let full = name + "@unpacked"@;
    assert(full.subrange(full.len() - "@unpacked"@.len(), full.len() as int) =~= "@unpacked"@);
    assert(requested_attr(full) =~= name);
}

/// A path below a directory is that of the directory, a dot and the name; in
/// the root it is the name.
pub proof fn law_path_below(parent: Seq<char>, name: Seq<char>)
    ensures
        path_below(Some(parent), name) == parent + seq!['.'] + name,
        path_below(None, name) == name,
{
}

/// What stands in front of the last dot of a text.
pub proof fn law_before_last_dot(s: Seq<char>, rest: Seq<char>)
    requires
        !rest.contains('.'),
    ensures
        before_last_dot(s + seq!['.'] + rest) == Some(s),
        before_last_dot(rest) is None,
{
    law_parent_of_child(s, rest);
}

} // verus!
