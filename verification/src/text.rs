//! Text primitives shared by the request parser.
//!
//! All specifications are stated over `Seq<char>`, the view of `str` and
//! `String`. The executable functions work on borrowed string slices and never
//! copy the text they inspect.

use vstd::prelude::*;
use vstd::string::*;
use vstd::utf8::*;

verus! {

/// The position of the first occurrence of `c` in `s`, or `s.len()` when `c`
/// does not occur.
pub open spec fn index_of(s: Seq<char>, c: char) -> int
    decreases s.len(),
{
    if s.len() == 0 || s[0] == c {
        0
    } else {
        1 + index_of(s.skip(1), c)
    }
}

/// `index_of` stays within `0..=s.len()`, points at `c` when it is inside the
/// text, and nothing before it is `c`.
pub proof fn lemma_index_of(s: Seq<char>, c: char)
    ensures
        0 <= index_of(s, c) <= s.len(),
        index_of(s, c) < s.len() ==> s[index_of(s, c)] == c,
        forall|j: int| 0 <= j < index_of(s, c) ==> s[j] != c,
    decreases s.len(),
{
    if s.len() > 0 && s[0] != c {
        lemma_index_of(s.skip(1), c);
        assert forall|j: int| 0 <= j < index_of(s, c) implies s[j] != c by {
            if j > 0 {
                assert(s.skip(1)[j - 1] == s[j]);
            }
        }
    }
}

/// Any position `i` that holds `c` (or the end of the text) with no `c`
/// before it is the one `index_of` names.
pub proof fn lemma_index_of_unique(s: Seq<char>, c: char, i: int)
    requires
        0 <= i <= s.len(),
        i < s.len() ==> s[i] == c,
        forall|j: int| 0 <= j < i ==> s[j] != c,
    ensures
        index_of(s, c) == i,
{
    lemma_index_of(s, c);
}

/// The pieces of `s` between occurrences of `sep`, in order. A text without
/// `sep` is a single piece; `n` separators always give `n + 1` pieces, some of
/// which may be empty.
pub open spec fn pieces(s: Seq<char>, sep: char) -> Seq<Seq<char>>
    decreases s.len(),
{
    let i = index_of(s, sep);
    if 0 <= i < s.len() {
        seq![s.take(i)] + pieces(s.skip(i + 1), sep)
    } else {
        seq![s]
    }
}

/// A text without the separator is a single piece.
pub proof fn lemma_pieces_without_separator(s: Seq<char>, sep: char)
    requires
        !s.contains(sep),
    ensures
        pieces(s, sep) == seq![s],
{
    lemma_index_of_unique(s, sep, s.len() as int);
}

/// A text with the separator at `i` has the text before `i` as its first
/// piece, followed by the pieces of the text after `i`, if no separator
/// stands before `i`.
pub proof fn lemma_pieces_at_separator(s: Seq<char>, sep: char, i: int)
    requires
        0 <= i < s.len(),
        s[i] == sep,
        !s.take(i).contains(sep),
    ensures
        pieces(s, sep) == seq![s.take(i)] + pieces(s.skip(i + 1), sep),
{
    assert forall|j: int| 0 <= j < i implies s[j] != sep by {
        assert(s.take(i)[j] == s[j]);
    }
    lemma_index_of_unique(s, sep, i);
}

/// The views of a vector of string slices.
pub open spec fn views(parts: Seq<&str>) -> Seq<Seq<char>> {
    parts.map_values(|p: &str| p@)
}

/// Whether `c` has the Unicode `White_Space` property.
pub open spec fn is_whitespace(c: char) -> bool {
    ||| '\u{0009}' <= c <= '\u{000D}'
    ||| c == '\u{0020}'
    ||| c == '\u{0085}'
    ||| c == '\u{00A0}'
    ||| c == '\u{1680}'
    ||| '\u{2000}' <= c <= '\u{200A}'
    ||| c == '\u{2028}'
    ||| c == '\u{2029}'
    ||| c == '\u{202F}'
    ||| c == '\u{205F}'
    ||| c == '\u{3000}'
}

/// `s` without its leading whitespace.
pub open spec fn trimmed_start(s: Seq<char>) -> Seq<char>
    decreases s.len(),
{
    if s.len() > 0 && is_whitespace(s[0]) {
        trimmed_start(s.skip(1))
    } else {
        s
    }
}

/// `s` without its trailing whitespace.
pub open spec fn trimmed_end(s: Seq<char>) -> Seq<char>
    decreases s.len(),
{
    if s.len() > 0 && is_whitespace(s.last()) {
        trimmed_end(s.drop_last())
    } else {
        s
    }
}

/// `s` without its leading and trailing whitespace.
pub open spec fn trimmed(s: Seq<char>) -> Seq<char> {
    trimmed_end(trimmed_start(s))
}

/// Whether `s` begins with `prefix`.
pub open spec fn has_prefix(s: Seq<char>, prefix: Seq<char>) -> bool {
    prefix.len() <= s.len() && s.take(prefix.len() as int) == prefix
}

/// When the first `a` characters of `s` are whitespace and the next one, if
/// any, is not, trimming the start drops exactly those `a` characters.
pub proof fn lemma_trimmed_start(s: Seq<char>, a: int)
    requires
        0 <= a <= s.len(),
        forall|j: int| 0 <= j < a ==> is_whitespace(s[j]),
        a < s.len() ==> !is_whitespace(s[a]),
    ensures
        trimmed_start(s) == s.skip(a),
    decreases a,
{
    if a > 0 {
        lemma_trimmed_start(s.skip(1), a - 1);
    }
}

/// When everything in `s` from position `b` on is whitespace and the
/// character before `b`, if any, is not, trimming the end keeps exactly the
/// first `b` characters.
pub proof fn lemma_trimmed_end(s: Seq<char>, b: int)
    requires
        0 <= b <= s.len(),
        forall|j: int| b <= j < s.len() ==> is_whitespace(s[j]),
        b > 0 ==> !is_whitespace(s[b - 1]),
    ensures
        trimmed_end(s) == s.take(b),
    decreases s.len() - b,
{
    if b < s.len() {
        lemma_trimmed_end(s.drop_last(), b);
    }
}

/// Whether two string slices hold the same text.
pub fn same_text(a: &str, b: &str) -> (r: bool)
    ensures
        r == (a@ == b@),
{
    let x = a.as_bytes();
    let y = b.as_bytes();
    proof {
        encode_utf8_decode_utf8(a@);
        encode_utf8_decode_utf8(b@);
    }
    if x.len() != y.len() {
        return false;
    }
    let mut i: usize = 0;
    while i < x.len()
        invariant
            i <= x.len(),
            x.len() == y.len(),
            x@ == encode_utf8(a@),
            y@ == encode_utf8(b@),
            forall|j: int| 0 <= j < i ==> x@[j] == y@[j],
        decreases x.len() - i,
    {
        if x[i] != y[i] {
            return false;
        }
        i += 1;
    }
    assert(x@ =~= y@);
    true
}

/// Finds the first occurrence of `c` in `s`.
pub fn find_char(s: &str, c: char) -> (r: Option<usize>)
    ensures
        match r {
            Some(i) => i < s@.len() && i == index_of(s@, c),
            None => index_of(s@, c) == s@.len(),
        },
{
    let len = s.unicode_len();
    let mut i: usize = 0;
    for x in it: s.chars()
        invariant
            it.seq() == s@,
            len == s@.len(),
            i == it.index(),
            forall|j: int| 0 <= j < i ==> s@[j] != c,
    {
        if x == c {
            proof {
                lemma_index_of_unique(s@, c, i as int);
            }
            return Some(i);
        }
        i += 1;
    }
    proof {
        lemma_index_of_unique(s@, c, s@.len() as int);
    }
    None
}

/// Splits `s` at every occurrence of `sep`.
pub fn split<'a>(s: &'a str, sep: char) -> (parts: Vec<&'a str>)
    ensures
        views(parts@) == pieces(s@, sep),
{
    let mut parts: Vec<&'a str> = Vec::new();
    let mut rest: &'a str = s;
    loop
        invariant
            pieces(s@, sep) == views(parts@) + pieces(rest@, sep),
        decreases rest@.len(),
    {
        let len = rest.unicode_len();
        match find_char(rest, sep) {
            Some(i) => {
                let head = rest.substring_char(0, i);
                let tail = rest.substring_char(i + 1, len);
                parts.push(head);
                rest = tail;
            },
            None => {
                parts.push(rest);
                return parts;
            },
        }
    }
}

/// Tells whether `c` is a whitespace character.
pub fn whitespace(c: char) -> (r: bool)
    ensures
        r == is_whitespace(c),
{
    ('\u{0009}' <= c && c <= '\u{000D}')
        || c == '\u{0020}'
        || c == '\u{0085}'
        || c == '\u{00A0}'
        || c == '\u{1680}'
        || ('\u{2000}' <= c && c <= '\u{200A}')
        || c == '\u{2028}'
        || c == '\u{2029}'
        || c == '\u{202F}'
        || c == '\u{205F}'
        || c == '\u{3000}'
}

/// Removes leading and trailing whitespace.
pub fn trim<'a>(s: &'a str) -> (r: &'a str)
    ensures
        r@ == trimmed(s@),
{
    let len = s.unicode_len();
    let mut start: usize = 0;
    let mut end: usize = 0;
    let mut seen: bool = false;
    let mut i: usize = 0;
    for c in it: s.chars()
        invariant
            it.seq() == s@,
            len == s@.len(),
            i == it.index(),
            !seen ==> start == 0 && end == 0,
            !seen ==> forall|j: int| 0 <= j < i ==> is_whitespace(s@[j]),
            seen ==> start < end <= i,
            seen ==> !is_whitespace(s@[start as int]) && !is_whitespace(s@[end - 1]),
            seen ==> forall|j: int| 0 <= j < start ==> is_whitespace(s@[j]),
            seen ==> forall|j: int| end <= j < i ==> is_whitespace(s@[j]),
    {
        if !whitespace(c) {
            if !seen {
                start = i;
                seen = true;
            }
            end = i + 1;
        }
        i += 1;
    }
    if seen {
        let r = s.substring_char(start, end);
        proof {
            lemma_trimmed_start(s@, start as int);
            lemma_trimmed_end(s@.skip(start as int), end - start);
        }
        r
    } else {
        let r = s.substring_char(0, 0);
        proof {
            lemma_trimmed_start(s@, len as int);
        }
        r
    }
}

/// Tells whether `s` begins with `prefix`.
pub fn starts_with(s: &str, prefix: &str) -> (r: bool)
    ensures
        r == has_prefix(s@, prefix@),
{
    let n = prefix.unicode_len();
    if s.unicode_len() < n {
        false
    } else {
        let head = s.substring_char(0, n);
        same_text(head, prefix)
    }
}

} // verus!
