//! Character- and byte-level helpers for the strings that pass through the
//! history: equality, the byte order by which timestamps are compared, and
//! trimming of control and whitespace characters.

use vstd::prelude::*;
use vstd::string::*;
use vstd::utf8::*;

verus! {

broadcast use vstd::string::group_string_axioms;

/// Two character sequences with the same UTF-8 encoding are the same sequence.
pub proof fn lemma_encoding_is_injective(a: Seq<char>, b: Seq<char>)
    requires
        encode_utf8(a) == encode_utf8(b),
    ensures
        a == b,
{
    encode_utf8_decode_utf8(a);
    encode_utf8_decode_utf8(b);
}

/// Whether two strings hold the same characters.
pub fn same_text(a: &str, b: &str) -> (same: bool)
    ensures
        same == (a@ == b@),
{
    let x = a.as_bytes();
    let y = b.as_bytes();
    if x.len() != y.len() {
        return false;
    }
    let mut i: usize = 0;
    while i < x.len()
        invariant
            i <= x.len(),
            x.len() == y.len(),
            x@ == encode_utf8(a@),
            y@ == encode_utf8(b@),
            forall|k: int| 0 <= k < i ==> x@[k] == y@[k],
        decreases x.len() - i,
    {
        if x[i] != y[i] {
            return false;
        }
        i += 1;
    }
    proof {
        assert(x@ =~= y@);
        lemma_encoding_is_injective(a@, b@);
    }
    true
}

/// Strict lexicographic order on byte strings: the first differing byte
/// decides, and a proper prefix comes before each of its extensions.
pub open spec fn lex_lt(a: Seq<u8>, b: Seq<u8>) -> bool
    decreases a.len(),
{
    if b.len() == 0 {
        false
    } else if a.len() == 0 {
        true
    } else if a[0] != b[0] {
        a[0] < b[0]
    } else {
        lex_lt(a.drop_first(), b.drop_first())
    }
}

/// No byte string comes before itself.
pub proof fn lemma_lex_irreflexive(a: Seq<u8>)
    ensures
        !lex_lt(a, a),
    decreases a.len(),
{
    if a.len() > 0 {
        lemma_lex_irreflexive(a.drop_first());
    }
}

/// What comes before a byte string comes before all that it comes before.
pub proof fn lemma_lex_transitive(a: Seq<u8>, b: Seq<u8>, c: Seq<u8>)
    requires
        lex_lt(a, b),
        lex_lt(b, c),
    ensures
        lex_lt(a, c),
    decreases a.len(),
{
    if a.len() > 0 && a[0] == b[0] && b[0] == c[0] {
        lemma_lex_transitive(a.drop_first(), b.drop_first(), c.drop_first());
    }
}

/// Of two different byte strings one comes before the other.
pub proof fn lemma_lex_total(a: Seq<u8>, b: Seq<u8>)
    requires
        a != b,
    ensures
        lex_lt(a, b) || lex_lt(b, a),
    decreases a.len(),
{
    if a.len() > 0 && b.len() > 0 && a[0] == b[0] {
        if a.drop_first() == b.drop_first() {
            assert(a =~= seq![a[0]] + a.drop_first());
            assert(b =~= seq![b[0]] + b.drop_first());
        }
        lemma_lex_total(a.drop_first(), b.drop_first());
    } else if a.len() == 0 && b.len() == 0 {
        assert(a =~= b);
    }
}

/// Decides `lex_lt` on two byte slices.
pub fn bytes_before(a: &[u8], b: &[u8]) -> (before: bool)
    ensures
        before == lex_lt(a@, b@),
{
    let mut i: usize = 0;
    proof {
        assert(a@.skip(0) =~= a@);
        assert(b@.skip(0) =~= b@);
    }
    while i < a.len() && i < b.len()
        invariant
            i <= a.len(),
            i <= b.len(),
            lex_lt(a@, b@) == lex_lt(a@.skip(i as int), b@.skip(i as int)),
        decreases a.len() - i,
    {
        proof {
            assert(a@.skip(i as int)[0] == a@[i as int]);
            assert(b@.skip(i as int)[0] == b@[i as int]);
            assert(a@.skip(i as int).drop_first() =~= a@.skip(i as int + 1));
            assert(b@.skip(i as int).drop_first() =~= b@.skip(i as int + 1));
        }
        if a[i] != b[i] {
            return a[i] < b[i];
        }
        i += 1;
    }
    i < b.len()
}

/// The order of two texts by their UTF-8 encodings, byte by byte.
pub open spec fn text_lt(a: Seq<char>, b: Seq<char>) -> bool {
    lex_lt(encode_utf8(a), encode_utf8(b))
}

/// Decides `text_lt`.
pub fn text_before(a: &str, b: &str) -> (before: bool)
    ensures
        before == text_lt(a@, b@),
{
    bytes_before(a.as_bytes(), b.as_bytes())
}

/// The characters of a string, in order.
pub fn chars_of(s: &str) -> (chars: Vec<char>)
    ensures
        chars@ == s@,
{
    let mut chars: Vec<char> = Vec::new();
    for c in it: s.chars()
        invariant
            it.seq() == s@,
            chars@ == it.seq().subrange(0, it.index() as int),
    {
        chars.push(c);
    }
    chars
}

/// What `char::is_control` answers for `c`.
pub uninterp spec fn is_control_char(c: char) -> bool;

/// What `char::is_whitespace` answers for `c`.
pub uninterp spec fn is_whitespace_char(c: char) -> bool;

/// `char::is_control`: whether `c` is a control code. The answer depends on
/// `c` alone and is taken on trust under the name `is_control_char`.
#[verifier::external_body]
fn char_is_control(c: char) -> (yes: bool)
    ensures
        yes == is_control_char(c),
{
    c.is_control()
}

/// `char::is_whitespace`: whether `c` has the Unicode property White_Space.
/// The answer depends on `c` alone and is taken on trust under the name
/// `is_whitespace_char`.
#[verifier::external_body]
fn char_is_whitespace(c: char) -> (yes: bool)
    ensures
        yes == is_whitespace_char(c),
{
    c.is_whitespace()
}

/// The characters that trimming removes from both ends of a text.
pub open spec fn is_edge_char(c: char) -> bool {
    is_control_char(c) || is_whitespace_char(c)
}

/// Decides `is_edge_char`.
pub fn edge_char(c: char) -> (yes: bool)
    ensures
        yes == is_edge_char(c),
{
    char_is_control(c) || char_is_whitespace(c)
}

/// How many edge characters stand at the start of `s`.
pub open spec fn leading_edge(s: Seq<char>) -> nat
    decreases s.len(),
{
    if s.len() > 0 && is_edge_char(s[0]) {
        1 + leading_edge(s.drop_first())
    } else {
        0
    }
}

/// How many edge characters stand at the end of `s`.
pub open spec fn trailing_edge(s: Seq<char>) -> nat
    decreases s.len(),
{
    if s.len() > 0 && is_edge_char(s.last()) {
        1 + trailing_edge(s.drop_last())
    } else {
        0
    }
}

/// `s` without the edge characters at its start and at its end.
pub open spec fn trimmed(s: Seq<char>) -> Seq<char> {
    if leading_edge(s) == s.len() {
        Seq::empty()
    } else {
        s.subrange(leading_edge(s) as int, s.len() - trailing_edge(s))
    }
}

/// `lo` leading characters of `s` are edge characters and the next one, if
/// there is one, is not: then `lo` is the leading edge.
pub proof fn lemma_leading_edge(s: Seq<char>, lo: int)
    requires
        0 <= lo <= s.len(),
        forall|k: int| 0 <= k < lo ==> is_edge_char(s[k]),
        lo < s.len() ==> !is_edge_char(s[lo]),
    ensures
        leading_edge(s) == lo,
    decreases lo,
{
    if lo > 0 {
        let rest = s.drop_first();
        assert forall|k: int| 0 <= k < lo - 1 implies is_edge_char(rest[k]) by {
            assert(rest[k] == s[k + 1]);
        }
        lemma_leading_edge(rest, lo - 1);
    }
}

/// The characters of `s` from `hi` on are edge characters and the one before,
/// if there is one, is not: then `s.len() - hi` is the trailing edge.
pub proof fn lemma_trailing_edge(s: Seq<char>, hi: int)
    requires
        0 <= hi <= s.len(),
        forall|k: int| hi <= k < s.len() ==> is_edge_char(s[k]),
        hi > 0 ==> !is_edge_char(s[hi - 1]),
    ensures
        trailing_edge(s) == s.len() - hi,
    decreases s.len() - hi,
{
    if hi < s.len() {
        let rest = s.drop_last();
        assert forall|k: int| hi <= k < rest.len() implies is_edge_char(rest[k]) by {
            assert(rest[k] == s[k]);
        }
        lemma_trailing_edge(rest, hi);
    }
}

/// A trimmed text is what is left of the text between the edge characters
/// at its start and those at its end: neither of its own ends is an edge
/// character, and only edge characters were cut off.
pub proof fn lemma_trimmed_is_tight(s: Seq<char>)
    ensures
        trimmed(s).len() > 0 ==> !is_edge_char(trimmed(s)[0]) && !is_edge_char(trimmed(s).last()),
        trimmed(s).len() > 0 ==> leading_edge(s) + trimmed(s).len() + trailing_edge(s) == s.len(),
        trimmed(s).len() == 0 ==> leading_edge(s) == s.len(),
        forall|k: int| 0 <= k < leading_edge(s) ==> is_edge_char(#[trigger] s[k]),
        forall|k: int| s.len() - trailing_edge(s) <= k < s.len() ==> is_edge_char(#[trigger] s[k]),
{
    lemma_edges_are_edges(s);
}

proof fn lemma_edges_are_edges(s: Seq<char>)
    ensures
        leading_edge(s) <= s.len(),
        trailing_edge(s) <= s.len(),
        leading_edge(s) < s.len() ==> !is_edge_char(s[leading_edge(s) as int]),
        trailing_edge(s) < s.len() ==> !is_edge_char(s[s.len() - trailing_edge(s) - 1]),
        leading_edge(s) < s.len() ==> leading_edge(s) + trailing_edge(s) < s.len(),
        forall|k: int| 0 <= k < leading_edge(s) ==> is_edge_char(s[k]),
        forall|k: int| s.len() - trailing_edge(s) <= k < s.len() ==> is_edge_char(s[k]),
    decreases s.len(),
{
    if s.len() > 0 {
        lemma_edges_are_edges(s.drop_first());
        lemma_edges_are_edges(s.drop_last());
        if is_edge_char(s[0]) {
            let rest = s.drop_first();
            assert forall|k: int| 0 <= k < leading_edge(s) implies is_edge_char(s[k]) by {
                if k > 0 {
                    assert(rest[k - 1] == s[k]);
                }
            }
            if leading_edge(rest) < rest.len() {
                assert(rest[leading_edge(rest) as int] == s[leading_edge(s) as int]);
            }
        }
        if is_edge_char(s.last()) {
            let rest = s.drop_last();
            assert forall|k: int| s.len() - trailing_edge(s) <= k < s.len() implies is_edge_char(
                s[k],
            ) by {
                if k < s.len() - 1 {
                    assert(rest[k] == s[k]);
                }
            }
            if trailing_edge(rest) < rest.len() {
                assert(rest[rest.len() - trailing_edge(rest) - 1] == s[s.len() - trailing_edge(s)
                    - 1]);
            }
        }
        if leading_edge(s) < s.len() {
            let lo = leading_edge(s) as int;
            let hi = s.len() - trailing_edge(s);
            if hi <= lo {
                lemma_trailing_covers(s, lo);
            }
        }
    }
}

/// A character that is no edge character is not within the trailing edge.
proof fn lemma_trailing_covers(s: Seq<char>, at: int)
    requires
        0 <= at < s.len(),
        !is_edge_char(s[at]),
    ensures
        at < s.len() - trailing_edge(s),
    decreases s.len(),
{
    if is_edge_char(s.last()) {
        let rest = s.drop_last();
        assert(rest[at] == s[at]);
        lemma_trailing_covers(rest, at);
    }
}

/// Removes the control and whitespace characters from both ends of `text`.
pub fn trim_edges(text: &str) -> (inner: &str)
    ensures
        inner@ == trimmed(text@),
        inner@.len() > 0 ==> !is_edge_char(inner@[0]) && !is_edge_char(inner@.last()),
{
    proof {
        lemma_trimmed_is_tight(text@);
    }
    let chars = chars_of(text);
    let n = chars.len();
    let mut lo: usize = 0;
    while lo < n && edge_char(chars[lo])
        invariant
            lo <= n,
            n == chars@.len(),
            forall|k: int| 0 <= k < lo ==> is_edge_char(chars@[k]),
        decreases n - lo,
    {
        lo += 1;
    }
    proof {
        lemma_leading_edge(chars@, lo as int);
    }
    if lo == n {
        return text.substring_char(n, n);
    }
    let mut hi: usize = n;
    while hi > lo && edge_char(chars[hi - 1])
        invariant
            lo <= hi <= n,
            n == chars@.len(),
            forall|k: int| hi <= k < n ==> is_edge_char(chars@[k]),
        decreases hi,
    {
        hi -= 1;
    }
    proof {
        lemma_trailing_edge(chars@, hi as int);
    }
    text.substring_char(lo, hi)
}

} // verus!
