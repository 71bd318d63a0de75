//! Searching, splitting and comparing text.
use vstd::prelude::*;
use vstd::utf8::{encode_utf8, valid_utf8};

verus! {

/// Whether `needle` occurs in `hay`.
pub open spec fn occurs(needle: Seq<char>, hay: Seq<char>) -> bool {
    exists|i: int| #[trigger] occurs_at(needle, hay, i)
}

/// Whether `needle` occurs in `hay`, starting at position `i`.
pub open spec fn occurs_at(needle: Seq<char>, hay: Seq<char>, i: int) -> bool {
    0 <= i && i + needle.len() <= hay.len() && hay.subrange(i, i + needle.len()) == needle
}

/// The characters of `s`.
pub fn chars_of(s: &str) -> (chars: Vec<char>)
    ensures
        chars@ == s@,
{
    let mut chars: Vec<char> = Vec::new();
    for c in it: s.chars()
        invariant
            chars@ == it.seq().take(it.index()),
            it.seq() == s@,
    {
        chars.push(c);
    }
    chars
}

/// Whether `a` and `b` are the same text.
pub fn same_text(a: &str, b: &str) -> (same: bool)
    ensures
        same == (a@ == b@),
{
    let x = a.as_bytes();
    let y = b.as_bytes();
    proof {
        vstd::utf8::encode_utf8_decode_utf8(a@);
        vstd::utf8::encode_utf8_decode_utf8(b@);
    }
    if x.len() != y.len() {
        return false;
    }
    for i in 0..x.len()
        invariant
            x@.len() == y@.len(),
            forall|j: int| 0 <= j < i ==> x@[j] == y@[j],
            x@ == encode_utf8(a@),
            y@ == encode_utf8(b@),
    {
        if x[i] != y[i] {
            return false;
        }
    }
    assert(x@ =~= y@);
    true
}

/// Whether `needle` occurs in `hay`.
pub fn contains(hay: &Vec<char>, needle: &str) -> (found: bool)
    ensures
        found == occurs(needle@, hay@),
{
    let sought: Vec<char> = chars_of(needle);
    if sought.len() > hay.len() {
        return false;
    }
    let last: usize = hay.len() - sought.len();
    let mut i: usize = 0;
    loop
        invariant
            i <= last,
            last + sought.len() == hay.len(),
            sought@ == needle@,
            forall|k: int| 0 <= k < i ==> !#[trigger] occurs_at(needle@, hay@, k),
        decreases last - i,
    {
        let mut j: usize = 0;
        while j < sought.len() && hay[i + j] == sought[j]
            invariant
                i <= last,
                j <= sought.len(),
                last + sought.len() == hay.len(),
                forall|k: int| 0 <= k < j ==> hay@[i + k] == sought@[k],
            decreases sought.len() - j,
        {
            j += 1;
        }
        if j == sought.len() {
            assert(hay@.subrange(i as int, i + needle@.len()) =~= needle@);
            assert(occurs_at(needle@, hay@, i as int));
            return true;
        }
        assert(!occurs_at(needle@, hay@, i as int)) by {
            assert(hay@.subrange(i as int, i + needle@.len())[j as int] == hay@[i + j]);
        }
        if i == last {
            return false;
        }
        i += 1;
    }
}

/// `s` without `prefix` in front of it, if it starts with `prefix`.
pub fn strip_prefix<'a>(s: &'a str, prefix: &str) -> (rest: Option<&'a str>)
    ensures
        match rest {
            Some(rest) => s@ == prefix@ + rest@,
            None => !prefix@.is_prefix_of(s@),
        },
{
    let n: usize = s.unicode_len();
    let m: usize = prefix.unicode_len();
    if n < m {
        return None;
    }
    if same_text(s.substring_char(0, m), prefix) {
        let rest = s.substring_char(m, n);
        assert(s@ =~= prefix@ + rest@);
        Some(rest)
    } else {
        None
    }
}

/// `s` without `suffix` behind it, if it ends with `suffix`.
pub fn strip_suffix<'a>(s: &'a str, suffix: &str) -> (rest: Option<&'a str>)
    ensures
        match rest {
            Some(rest) => s@ == rest@ + suffix@,
            None => !suffix@.is_suffix_of(s@),
        },
{
    let n: usize = s.unicode_len();
    let m: usize = suffix.unicode_len();
    if n < m {
        return None;
    }
    if same_text(s.substring_char(n - m, n), suffix) {
        let rest = s.substring_char(0, n - m);
        assert(s@ =~= rest@ + suffix@);
        Some(rest)
    } else {
        None
    }
}

/// The pieces of `s` between the characters `separator`: one more than there
/// are of these.
pub open spec fn split(s: Seq<char>, separator: char) -> Seq<Seq<char>>
    decreases s.len(),
{
    if s.len() == 0 {
        seq![Seq::empty()]
    } else {
        let before = split(s.drop_last(), separator);
        if s.last() == separator {
            before.push(Seq::empty())
        } else {
            before.drop_last().push(before.last().push(s.last()))
        }
    }
}

/// There is at least one piece.
pub(crate) proof fn lemma_split_nonempty(s: Seq<char>, separator: char)
    ensures
        split(s, separator).len() > 0,
    decreases s.len(),
{
    if s.len() > 0 {
        lemma_split_nonempty(s.drop_last(), separator);
    }
}

/// The pieces of two texts with a separator between them are those of the
/// first and then those of the second.
pub(crate) proof fn lemma_split_of_joined(a: Seq<char>, b: Seq<char>, separator: char)
    ensures
        split(a + seq![separator] + b, separator) == split(a, separator) + split(b, separator),
    decreases b.len(),
{
    let joined = a + seq![separator] + b;
    lemma_split_nonempty(b, separator);
    if b.len() == 0 {
        assert(joined.drop_last() =~= a);
        assert(split(joined, separator) =~= split(a, separator) + split(b, separator));
    } else {
        let first = split(a, separator);
        let before = split(b.drop_last(), separator);
        assert(joined.drop_last() =~= a + seq![separator] + b.drop_last());
        lemma_split_of_joined(a, b.drop_last(), separator);
        lemma_split_nonempty(b.drop_last(), separator);
        assert((first + before).drop_last() =~= first + before.drop_last());
        assert(split(joined, separator) =~= first + split(b, separator));
    }
}

/// Text without a separator is one piece.
pub(crate) proof fn lemma_split_of_one(s: Seq<char>, separator: char)
    requires
        !s.contains(separator),
    ensures
        split(s, separator) == seq![s],
    decreases s.len(),
{
    if s.len() > 0 {
        assert forall|i: int| 0 <= i < s.drop_last().len() implies s.drop_last()[i]
            != separator by {
            assert(s.contains(s[i]));
        }
        lemma_split_of_one(s.drop_last(), separator);
        assert(s.contains(s[s.len() - 1]));
        assert(s =~= s.drop_last().push(s.last()));
    } else {
        assert(s =~= Seq::empty());
    }
    assert(split(s, separator) =~= seq![s]);
}

/// `s` without the characters `c` at its end.
pub open spec fn without_trailing(s: Seq<char>, c: char) -> Seq<char>
    decreases s.len(),
{
    if s.len() > 0 && s.last() == c {
        without_trailing(s.drop_last(), c)
    } else {
        s
    }
}

/// `s` without the line feeds at its end.
pub fn trim_newlines(s: &str) -> (trimmed: &str)
    ensures
        trimmed@ == without_trailing(s@, '\n'),
{
    let chars: Vec<char> = chars_of(s);
    let mut n: usize = chars.len();
    assert(s@.take(n as int) =~= s@);
    while n > 0 && chars[n - 1] == '\n'
        invariant
            n <= chars@.len(),
            chars@ == s@,
            without_trailing(s@.take(n as int), '\n') == without_trailing(s@, '\n'),
        decreases n,
    {
        assert(s@.take(n as int).drop_last() =~= s@.take(n - 1));
        n -= 1;
    }
    s.substring_char(0, n)
}

/// Whether `c` has the Unicode property `White_Space`.
pub open spec fn is_white_space(c: char) -> bool {
    let n = c as u32;
    ||| 0x09 <= n <= 0x0d
    ||| n == 0x20
    ||| n == 0x85
    ||| n == 0xa0
    ||| n == 0x1680
    ||| 0x2000 <= n <= 0x200a
    ||| n == 0x2028
    ||| n == 0x2029
    ||| n == 0x202f
    ||| n == 0x205f
    ||| n == 0x3000
}

/// `s` without the white space in front of it.
pub open spec fn trimmed_start(s: Seq<char>) -> Seq<char>
    decreases s.len(),
{
    if s.len() > 0 && is_white_space(s.first()) {
        trimmed_start(s.drop_first())
    } else {
        s
    }
}

/// `s` without the white space behind it.
pub open spec fn trimmed_end(s: Seq<char>) -> Seq<char>
    decreases s.len(),
{
    if s.len() > 0 && is_white_space(s.last()) {
        trimmed_end(s.drop_last())
    } else {
        s
    }
}

/// `s` without the white space at its two ends.
pub open spec fn trimmed(s: Seq<char>) -> Seq<char> {
    trimmed_end(trimmed_start(s))
}

fn may_be_trimmed(c: char) -> (white: bool)
    ensures
        white == is_white_space(c),
{
    let n: u32 = c as u32;
    (0x09 <= n && n <= 0x0d) || n == 0x20 || n == 0x85 || n == 0xa0 || n == 0x1680 || (0x2000 <= n
        && n <= 0x200a) || n == 0x2028 || n == 0x2029 || n == 0x202f || n == 0x205f || n == 0x3000
}

/// How much white space stands in front of `chars`.
pub fn leading_white_space(chars: &Vec<char>) -> (n: usize)
    ensures
        n <= chars@.len(),
        trimmed_start(chars@) == chars@.skip(n as int),
{
    let mut n: usize = 0;
    assert(chars@.skip(0) =~= chars@);
    while n < chars.len() && may_be_trimmed(chars[n])
        invariant
            n <= chars@.len(),
            trimmed_start(chars@.skip(n as int)) == trimmed_start(chars@),
        decreases chars.len() - n,
    {
        assert(chars@.skip(n as int).drop_first() =~= chars@.skip(n + 1));
        n += 1;
    }
    n
}

/// `s` without the white space at its two ends.
pub fn trim(s: &str) -> (t: &str)
    ensures
        t@ == trimmed(s@),
{
    let chars: Vec<char> = chars_of(s);
    let start: usize = leading_white_space(&chars);
    let mut end: usize = chars.len();
    assert(s@.subrange(start as int, end as int) =~= s@.skip(start as int));
    while end > start && may_be_trimmed(chars[end - 1])
        invariant
            start <= end <= chars@.len(),
            chars@ == s@,
            trimmed_end(s@.subrange(start as int, end as int)) == trimmed(s@),
        decreases end,
    {
        assert(s@.subrange(start as int, end as int).drop_last() =~= s@.subrange(
            start as int,
            end - 1,
        ));
        end -= 1;
    }
    s.substring_char(start, end)
}

/// The text that `String::from_utf8_lossy` makes of `bytes`.
pub uninterp spec fn lossy_text(bytes: Seq<u8>) -> Seq<char>;

/// `String::from_utf8_lossy`: the text depends on the bytes alone, and bytes
/// that are UTF-8 are read as the text that they encode.
#[verifier::external_body]
pub(crate) fn from_utf8_lossy(bytes: &[u8]) -> (s: String)
    ensures
        s@ == lossy_text(bytes@),
        valid_utf8(bytes@) ==> encode_utf8(s@) == bytes@,
{
    String::from_utf8_lossy(bytes).into_owned()
}

/// What the error of `String::from_utf8` on `bytes` says.
pub uninterp spec fn utf8_fault(bytes: Seq<u8>) -> Seq<char>;

/// `String::from_utf8`: bytes that are UTF-8 are read as the text that they
/// encode; all others are refused, with an error that depends on the bytes
/// alone.
#[verifier::external_body]
pub(crate) fn from_utf8(bytes: Vec<u8>) -> (r: Result<String, String>)
    ensures
        match r {
            Ok(s) => valid_utf8(bytes@) && encode_utf8(s@) == bytes@,
            Err(fault) => !valid_utf8(bytes@) && fault@ == utf8_fault(bytes@),
        },
{
    match String::from_utf8(bytes) {
        Ok(s) => Ok(s),
        Err(e) => Err(e.to_string()),
    }
}

proof fn lemma_trimmed_start(s: Seq<char>)
    ensures
        trimmed_start(s).len() <= s.len(),
        trimmed_start(s) == s.skip(s.len() - trimmed_start(s).len()),
        forall|i: int|
            0 <= i < s.len() - trimmed_start(s).len() ==> is_white_space(#[trigger] s[i]),
        trimmed_start(s).len() > 0 ==> !is_white_space(trimmed_start(s).first()),
    decreases s.len(),
{
    if s.len() > 0 && is_white_space(s.first()) {
        let rest = s.drop_first();
        lemma_trimmed_start(rest);
        let n = s.len() - trimmed_start(s).len();
        assert(s.skip(n) =~= rest.skip(n - 1));
        assert forall|i: int| 0 <= i < n implies is_white_space(#[trigger] s[i]) by {
            if i > 0 {
                assert(rest[i - 1] == s[i]);
            }
        }
    } else {
        assert(s.skip(0) =~= s);
    }
}

proof fn lemma_trimmed_end(s: Seq<char>)
    ensures
        trimmed_end(s).len() <= s.len(),
        trimmed_end(s) == s.take(trimmed_end(s).len() as int),
        forall|i: int| trimmed_end(s).len() <= i < s.len() ==> is_white_space(#[trigger] s[i]),
        trimmed_end(s).len() > 0 ==> !is_white_space(trimmed_end(s).last()),
    decreases s.len(),
{
    if s.len() > 0 && is_white_space(s.last()) {
        let rest = s.drop_last();
        lemma_trimmed_end(rest);
        let n = trimmed_end(s).len() as int;
        assert(s.take(n) =~= rest.take(n));
        assert forall|i: int| n <= i < s.len() implies is_white_space(#[trigger] s[i]) by {
            if i < rest.len() {
                assert(rest[i] == s[i]);
            }
        }
    } else {
        assert(s.take(s.len() as int) =~= s);
    }
}

/// Trimmed text has no white space at its ends, and every phrase of the text
/// that has none at its own ends is still in it.
pub proof fn law_trimming_keeps_phrases(s: Seq<char>, phrase: Seq<char>)
    requires
        phrase.len() > 0,
        !is_white_space(phrase.first()),
        !is_white_space(phrase.last()),
    ensures
        trimmed(s).len() > 0 ==> !is_white_space(trimmed(s).first()) && !is_white_space(
            trimmed(s).last(),
        ),
        occurs(phrase, trimmed(s)) <==> occurs(phrase, s),
{
    let start = trimmed_start(s);
    let both = trimmed(s);
    lemma_trimmed_start(s);
    lemma_trimmed_end(start);
    let cut = s.len() - start.len();
    if occurs(phrase, s) {
        let i = choose|i: int| occurs_at(phrase, s, i);
        assert(s.subrange(i, i + phrase.len())[0] == s[i]);
        assert(s.subrange(i, i + phrase.len())[phrase.len() - 1] == s[i + phrase.len() - 1]);
        assert(i >= cut);
        assert(start[i + phrase.len() - 1 - cut] == s[i + phrase.len() - 1]);
        assert(i + phrase.len() - cut <= both.len());
        assert(both.subrange(i - cut, i - cut + phrase.len()) =~= phrase);
        assert(occurs_at(phrase, both, i - cut));
    }
    if occurs(phrase, both) {
        let i = choose|i: int| occurs_at(phrase, both, i);
        assert(s.subrange(i + cut, i + cut + phrase.len()) =~= both.subrange(i, i + phrase.len()));
        assert(occurs_at(phrase, s, i + cut));
    }
}

/// Text is split at every separator and nowhere else, and nothing is lost.
pub proof fn law_split(front: Seq<char>, back: Seq<char>, whole: Seq<char>, separator: char)
    requires
        !whole.contains(separator),
    ensures
        split(front + seq![separator] + back, separator) == split(front, separator) + split(
            back,
            separator,
        ),
        split(whole, separator) == seq![whole],
{
    lemma_split_of_joined(front, back, separator);
    lemma_split_of_one(whole, separator);
}

/// A phrase occurs in a text if and only if the text is the phrase with
/// something, or nothing, in front of it and behind it.
pub proof fn law_occurs(phrase: Seq<char>, text: Seq<char>)
    ensures
        occurs(phrase, text) <==> exists|front: Seq<char>, back: Seq<char>|
            text == #[trigger] (front + phrase + back),
{
    if occurs(phrase, text) {
        let i = choose|i: int| occurs_at(phrase, text, i);
        let front = text.take(i);
        let back = text.skip(i + phrase.len());
        assert(text.subrange(i, i + phrase.len()) == phrase);
        assert forall|k: int| 0 <= k < phrase.len() implies phrase[k] == text[i + k] by {
            assert(text.subrange(i, i + phrase.len())[k] == text[i + k]);
        }
        assert(text =~= front + phrase + back);
    }
    if exists|front: Seq<char>, back: Seq<char>| text == #[trigger] (front + phrase + back) {
        let (front, back) = choose|front: Seq<char>, back: Seq<char>|
            text == #[trigger] (front + phrase + back);
        let i = front.len() as int;
        assert(text.subrange(i, i + phrase.len()) =~= phrase);
        assert(occurs_at(phrase, text, i));
    }
}

/// What is taken from the end of a text is the character, as often as it
/// stands there, and nothing else.
pub proof fn law_without_trailing(s: Seq<char>, c: char)
    ensures
        without_trailing(s, c).len() <= s.len(),
        s == without_trailing(s, c) + Seq::new(
            (s.len() - without_trailing(s, c).len()) as nat,
            |i: int| c,
        ),
        without_trailing(s, c).len() > 0 ==> without_trailing(s, c).last() != c,
    decreases s.len(),
{
    let left = without_trailing(s, c);
    if s.len() > 0 && s.last() == c {
        law_without_trailing(s.drop_last(), c);
        assert(s =~= s.drop_last().push(c));
        assert(s =~= left + Seq::new((s.len() - left.len()) as nat, |i: int| c));
    } else {
        assert(s =~= left + Seq::new(0, |i: int| c));
    }
}

/// White space, character by character.
pub proof fn law_white_space(c: char)
    ensures
        is_white_space(c) <==> {
            ||| c == '\t' || c == '\n' || c == '\u{b}' || c == '\u{c}' || c == '\r' || c == ' '
            ||| c == '\u{85}' || c == '\u{a0}' || c == '\u{1680}'
            ||| '\u{2000}' <= c <= '\u{200a}'
            ||| c == '\u{2028}' || c == '\u{2029}' || c == '\u{202f}' || c == '\u{205f}'
            ||| c == '\u{3000}'
        },
{
}

/// What is trimmed from a text is the white space at its two ends and nothing
/// else.
pub proof fn law_trimmed(s: Seq<char>)
    ensures
        exists|front: Seq<char>, back: Seq<char>|
            {
                &&& s == #[trigger] (front + trimmed(s) + back)
                &&& forall|i: int| 0 <= i < front.len() ==> is_white_space(#[trigger] front[i])
                &&& forall|i: int| 0 <= i < back.len() ==> is_white_space(#[trigger] back[i])
            },
        trimmed(s).len() > 0 ==> !is_white_space(trimmed(s).first()) && !is_white_space(
            trimmed(s).last(),
        ),
{
    let start = trimmed_start(s);
    let both = trimmed(s);
    lemma_trimmed_start(s);
    lemma_trimmed_end(start);
    let front = s.take(s.len() - start.len());
    let back = start.skip(both.len() as int);
    assert(s =~= front + both + back);
}

/// What is trimmed from the start of a text is the white space there and
/// nothing else.
pub proof fn law_trimmed_start(s: Seq<char>)
    ensures
        exists|front: Seq<char>|
            {
                &&& s == #[trigger] (front + trimmed_start(s))
                &&& forall|i: int| 0 <= i < front.len() ==> is_white_space(#[trigger] front[i])
            },
        trimmed_start(s).len() > 0 ==> !is_white_space(trimmed_start(s).first()),
{
    lemma_trimmed_start(s);
    assert(s =~= s.take(s.len() - trimmed_start(s).len()) + trimmed_start(s));
}

} // verus!
