//! Text primitives: searching, splitting, joining, and decimal numbers.
//!
//! A string is modelled by the sequence of its characters.

use vstd::prelude::*;
use vstd::utf8::*;

verus! {

// ---------------------------------------------------------------------------
// Characters
// ---------------------------------------------------------------------------

pub open spec fn is_ascii_char(c: char) -> bool {
    (c as u32) < 128
}

/// Decimal digits `0` to `9`.
pub open spec fn is_digit(c: char) -> bool {
    '0' <= c && c <= '9'
}

pub open spec fn is_ascii_letter(c: char) -> bool {
    ('a' <= c && c <= 'z') || ('A' <= c && c <= 'Z')
}

/// Hexadecimal digits in either case.
pub open spec fn is_hex_digit(c: char) -> bool {
    is_digit(c) || ('a' <= c && c <= 'f') || ('A' <= c && c <= 'F')
}

pub open spec fn ascii_lower(c: char) -> char {
    if 'A' <= c && c <= 'Z' {
        ((c as u32) + 32) as char
    } else {
        c
    }
}

/// The ASCII members of the Unicode `White_Space` property.
pub open spec fn is_ascii_space(c: char) -> bool {
    c == ' ' || ('\t' <= c && c <= '\r')
}

/// The members of the Unicode `White_Space` property beyond ASCII.
pub open spec fn is_wide_space(c: char) -> bool {
    ||| c == '\u{85}' || c == '\u{a0}' || c == '\u{1680}'
    ||| '\u{2000}' <= c && c <= '\u{200a}'
    ||| c == '\u{2028}' || c == '\u{2029}' || c == '\u{202f}' || c == '\u{205f}'
    ||| c == '\u{3000}'
}

/// Whether a character beyond ASCII is alphabetic or numeric in Unicode.
pub uninterp spec fn unicode_alphanumeric(c: char) -> bool;

/// Whether a character beyond ASCII is numeric in Unicode.
pub uninterp spec fn unicode_numeric(c: char) -> bool;

/// The Unicode lowercase mapping of a text that is not all ASCII.
pub uninterp spec fn unicode_lowercase(s: Seq<char>) -> Seq<char>;

pub open spec fn is_space(c: char) -> bool {
    is_ascii_space(c) || is_wide_space(c)
}

pub open spec fn is_alphanumeric(c: char) -> bool {
    if is_ascii_char(c) {
        is_digit(c) || is_ascii_letter(c)
    } else {
        unicode_alphanumeric(c)
    }
}

pub open spec fn is_numeric(c: char) -> bool {
    if is_ascii_char(c) {
        is_digit(c)
    } else {
        unicode_numeric(c)
    }
}

pub open spec fn lowercase(s: Seq<char>) -> Seq<char> {
    if is_ascii_chars(s) {
        s.map_values(|c: char| ascii_lower(c))
    } else {
        unicode_lowercase(s)
    }
}

/// `char::is_whitespace` answers whether the character has the Unicode
/// `White_Space` property: the space and the five control characters from tab to
/// carriage return, and the characters beyond ASCII that `is_wide_space` lists.
pub assume_specification[ char::is_whitespace ](c: char) -> (b: bool)
    ensures
        b == is_space(c),
;

/// `char::is_alphanumeric` answers whether the character is alphabetic or
/// numeric in Unicode; within ASCII those are the letters and the digits.
pub assume_specification[ char::is_alphanumeric ](c: char) -> (b: bool)
    ensures
        b == (if is_ascii_char(c) {
            is_digit(c) || is_ascii_letter(c)
        } else {
            unicode_alphanumeric(c)
        }),
;

/// `char::is_numeric` answers whether the character has one of the Unicode
/// numeric categories; within ASCII those are the ten digits.
pub assume_specification[ char::is_numeric ](c: char) -> (b: bool)
    ensures
        b == (if is_ascii_char(c) {
            is_digit(c)
        } else {
            unicode_numeric(c)
        }),
;

/// `str::to_lowercase` applies the Unicode lowercase mapping; on a text that is
/// all ASCII this lowers the letters `A` to `Z` one by one.
pub assume_specification[ str::to_lowercase ](s: &str) -> (res: String)
    ensures
        res@ == (if is_ascii_chars(s@) {
            s@.map_values(|c: char| ascii_lower(c))
        } else {
            unicode_lowercase(s@)
        }),
;

/// `String::push` appends the character.
pub assume_specification[ String::push ](s: &mut String, c: char)
    ensures
        final(s)@ == old(s)@.push(c),
;

pub fn lower_ascii_char(c: char) -> (r: char)
    ensures
        r == ascii_lower(c),
{
    if 'A' <= c && c <= 'Z' {
        let code: u8 = c as u8;
        (code + 32) as char
    } else {
        c
    }
}

// ---------------------------------------------------------------------------
// From text to characters and back
// ---------------------------------------------------------------------------

/// The characters of a text.
pub fn chars_of(s: &str) -> (v: Vec<char>)
    ensures
        v@ == s@,
{
    let mut v: Vec<char> = Vec::new();
    for c in it: s.chars()
        invariant
            it.seq() == s@,
            v@ == it.seq().take(it.index()),
    {
        v.push(c);
    }
    v
}

/// The text of the characters from `from` up to but not including `to`.
pub fn substring(v: &Vec<char>, from: usize, to: usize) -> (s: String)
    requires
        from <= to <= v.len(),
    ensures
        s@ == v@.subrange(from as int, to as int),
{
    let mut s: String = String::new();
    let mut i: usize = from;
    while i < to
        invariant
            from <= i <= to <= v.len(),
            s@ == v@.subrange(from as int, i as int),
        decreases to - i,
    {
        s.push(v[i]);
        i += 1;
        assert(v@.subrange(from as int, i as int) == v@.subrange(from as int, i - 1).push(v@[i - 1]));
    }
    s
}

/// Whether two texts are the same.
pub fn same(a: &str, b: &str) -> (r: bool)
    ensures
        r == (a@ == b@),
{
    let x: &[u8] = a.as_bytes();
    let y: &[u8] = b.as_bytes();
    proof {
        encode_utf8_decode_utf8(a@);
        encode_utf8_decode_utf8(b@);
    }
    if x.len() != y.len() {
        return false;
    }
    let mut i: usize = 0;
    while i < x.len()
        invariant
            i <= x.len(),
            x.len() == y.len(),
            x@ == encode_utf8(a@),
            y@ == encode_utf8(b@),
            forall|j: int| 0 <= j < i ==> x@[j] == y@[j],
        decreases x.len() - i,
    {
        if x[i] != y[i] {
            return false;
        }
        i += 1;
    }
    assert(x@ =~= y@);
    true
}

// ---------------------------------------------------------------------------
// Searching
// ---------------------------------------------------------------------------

/// The first position of `c`, or the length where it does not occur.
pub open spec fn index_of(s: Seq<char>, c: char) -> nat
    decreases s.len(),
{
    if s.len() == 0 || s[0] == c {
        0
    } else {
        1 + index_of(s.skip(1), c)
    }
}

/// `k` is the first position of `c`, or the length where it does not occur.
pub open spec fn is_index_of(s: Seq<char>, c: char, k: int) -> bool {
    &&& 0 <= k <= s.len()
    &&& forall|j: int| 0 <= j < k ==> s[j] != c
    &&& k < s.len() ==> s[k] == c
}

pub proof fn lemma_index_of(s: Seq<char>, c: char)
    ensures
        is_index_of(s, c, index_of(s, c) as int),
    decreases s.len(),
{
    if s.len() != 0 && s[0] != c {
        lemma_index_of(s.skip(1), c);
        let k = index_of(s, c) as int;
        assert forall|j: int| 0 <= j < k implies s[j] != c by {
            if j > 0 {
                assert(s[j] == s.skip(1)[j - 1]);
            }
        }
    }
}

pub proof fn lemma_index_of_unique(s: Seq<char>, c: char, k: int)
    requires
        is_index_of(s, c, k),
    ensures
        index_of(s, c) == k,
{
    lemma_index_of(s, c);
    let i = index_of(s, c) as int;
    if i < k {
        assert(s[i] != c);
    } else if k < i {
        assert(s[k] != c);
    }
}

/// Whether `p` occurs in `s` at position `i`.
pub open spec fn occurs_at(s: Seq<char>, p: Seq<char>, i: int) -> bool {
    0 <= i && i + p.len() <= s.len() && s.subrange(i, i + p.len()) == p
}

/// Whether `p` occurs anywhere in `s`.
pub open spec fn contains(s: Seq<char>, p: Seq<char>) -> bool {
    exists|i: int| #[trigger] occurs_at(s, p, i)
}

pub open spec fn starts_with(s: Seq<char>, p: Seq<char>) -> bool {
    occurs_at(s, p, 0)
}

pub(crate) fn occurs(v: &Vec<char>, p: &Vec<char>, i: usize) -> (r: bool)
    requires
        i <= v.len(),
    ensures
        r == occurs_at(v@, p@, i as int),
{
    if v.len() - i < p.len() {
        return false;
    }
    let mut j: usize = 0;
    while j < p.len()
        invariant
            j <= p.len(),
            i + p.len() <= v.len(),
            forall|k: int| 0 <= k < j ==> v@[i + k] == p@[k],
        decreases p.len() - j,
    {
        if v[i + j] != p[j] {
            assert(v@.subrange(i as int, i + p.len())[j as int] != p@[j as int]);
            return false;
        }
        j += 1;
    }
    assert(v@.subrange(i as int, i + p.len()) =~= p@);
    true
}

/// Whether `pattern` occurs anywhere in `s`.
pub fn has_substring(s: &str, pattern: &str) -> (r: bool)
    ensures
        r == contains(s@, pattern@),
{
    let v = chars_of(s);
    let p = chars_of(pattern);
    let mut i: usize = 0;
    while i < v.len()
        invariant
            i <= v.len(),
            v@ == s@,
            p@ == pattern@,
            forall|k: int| 0 <= k < i ==> !occurs_at(v@, p@, k),
        decreases v.len() - i,
    {
        if occurs(&v, &p, i) {
            return true;
        }
        i += 1;
    }
    let r = occurs(&v, &p, i);
    proof {
        if !r {
            assert forall|k: int| !occurs_at(v@, p@, k) by {}
        }
    }
    r
}

/// Whether `s` begins with `prefix`.
pub fn has_prefix(s: &str, prefix: &str) -> (r: bool)
    ensures
        r == starts_with(s@, prefix@),
{
    let v = chars_of(s);
    let p = chars_of(prefix);
    occurs(&v, &p, 0)
}

/// Whether `s` begins with the character `c`.
pub fn has_first(s: &str, c: char) -> (r: bool)
    ensures
        r == (s@.len() > 0 && s@[0] == c),
{
    let v = chars_of(s);
    v.len() > 0 && v[0] == c
}

// ---------------------------------------------------------------------------
// Splitting and joining
// ---------------------------------------------------------------------------

/// The pieces between the separators: one more than there are separators.
pub open spec fn split(s: Seq<char>, sep: char) -> Seq<Seq<char>>
    decreases s.len(),
{
    let i = index_of(s, sep) as int;
    if i >= s.len() {
        seq![s]
    } else {
        seq![s.take(i)] + split(s.skip(i + 1), sep)
    }
}

/// At most `n` pieces: the last one holds the rest, separators included.
pub open spec fn split_at_most(s: Seq<char>, sep: char, n: nat) -> Seq<Seq<char>>
    decreases n,
{
    let i = index_of(s, sep) as int;
    if n == 0 {
        seq![]
    } else if n == 1 || i >= s.len() {
        seq![s]
    } else {
        seq![s.take(i)] + split_at_most(s.skip(i + 1), sep, (n - 1) as nat)
    }
}

/// What stands before and after the first separator, where there is one.
pub open spec fn split_once(s: Seq<char>, sep: char) -> Option<(Seq<char>, Seq<char>)> {
    let i = index_of(s, sep) as int;
    if i >= s.len() {
        None
    } else {
        Some((s.take(i), s.skip(i + 1)))
    }
}

/// A line without the carriage return that ended it.
pub open spec fn without_return(s: Seq<char>) -> Seq<char> {
    if s.len() > 0 && s.last() == '\r' {
        s.drop_last()
    } else {
        s
    }
}

/// The lines of a text. Each ends in a line feed, or in a carriage return and a
/// line feed; the last may end without one.
pub open spec fn lines(s: Seq<char>) -> Seq<Seq<char>>
    decreases s.len(),
{
    let i = index_of(s, '\n') as int;
    if s.len() == 0 {
        seq![]
    } else if i >= s.len() {
        seq![s]
    } else {
        seq![without_return(s.take(i))] + lines(s.skip(i + 1))
    }
}

/// The pieces put together with the separator between each two.
pub open spec fn join(parts: Seq<Seq<char>>, sep: Seq<char>) -> Seq<char>
    decreases parts.len(),
{
    if parts.len() == 0 {
        seq![]
    } else if parts.len() == 1 {
        parts[0]
    } else {
        join(parts.drop_last(), sep) + sep + parts.last()
    }
}

/// The texts of a sequence of strings.
pub open spec fn texts(v: Seq<String>) -> Seq<Seq<char>> {
    v.map_values(|s: String| s@)
}

pub fn split_text(s: &str, sep: char) -> (parts: Vec<String>)
    ensures
        texts(parts@) == split(s@, sep),
        parts.len() > 0,
{
    let v = chars_of(s);
    let mut parts: Vec<String> = Vec::new();
    let mut start: usize = 0;
    let mut i: usize = 0;
    assert(s@.skip(0) =~= s@);
    while i < v.len()
        invariant
            start <= i <= v.len(),
            v@ == s@,
            forall|j: int| start <= j < i ==> v@[j] != sep,
            texts(parts@) + split(s@.skip(start as int), sep) == split(s@, sep),
        decreases v.len() - i,
    {
        if v[i] == sep {
            let ghost rest = s@.skip(start as int);
            let ghost done = texts(parts@);
            let ghost piece = v@.subrange(start as int, i as int);
            proof {
                lemma_index_of_unique(rest, sep, i - start);
                assert(rest.take(i - start) =~= piece);
                assert(rest.skip(i - start + 1) =~= s@.skip(i + 1));
            }
            parts.push(substring(&v, start, i));
            start = i + 1;
            assert(texts(parts@) =~= done.push(piece));
            assert(texts(parts@) + split(s@.skip(start as int), sep) =~= done + split(rest, sep));
        }
        i += 1;
    }
    let ghost rest = s@.skip(start as int);
    let ghost done = texts(parts@);
    proof {
        lemma_index_of_unique(rest, sep, rest.len() as int);
        assert(rest =~= v@.subrange(start as int, i as int));
    }
    parts.push(substring(&v, start, i));
    assert(texts(parts@) =~= done + seq![rest]);
    parts
}

pub fn split_text_at_most(s: &str, sep: char, n: usize) -> (parts: Vec<String>)
    ensures
        texts(parts@) == split_at_most(s@, sep, n as nat),
{
    let v = chars_of(s);
    let mut parts: Vec<String> = Vec::new();
    if n == 0 {
        assert(texts(parts@) =~= seq![]);
        return parts;
    }
    let mut start: usize = 0;
    let mut i: usize = 0;
    let mut left: usize = n;
    assert(s@.skip(0) =~= s@);
    assert(texts(parts@) + split_at_most(s@, sep, n as nat) =~= split_at_most(s@, sep, n as nat));
    while i < v.len() && left > 1
        invariant
            start <= i <= v.len(),
            1 <= left <= n,
            v@ == s@,
            forall|j: int| start <= j < i ==> v@[j] != sep,
            texts(parts@) + split_at_most(s@.skip(start as int), sep, left as nat)
                == split_at_most(s@, sep, n as nat),
        decreases v.len() - i,
    {
        if v[i] == sep {
            let ghost rest = s@.skip(start as int);
            let ghost done = texts(parts@);
            let ghost piece = v@.subrange(start as int, i as int);
            proof {
                lemma_index_of_unique(rest, sep, i - start);
                assert(rest.take(i - start) =~= piece);
                assert(rest.skip(i - start + 1) =~= s@.skip(i + 1));
            }
            parts.push(substring(&v, start, i));
            start = i + 1;
            left -= 1;
            assert(texts(parts@) =~= done.push(piece));
            assert(texts(parts@) + split_at_most(s@.skip(start as int), sep, left as nat)
                =~= done + split_at_most(rest, sep, (left + 1) as nat));
        }
        i += 1;
    }
    let ghost rest = s@.skip(start as int);
    let ghost done = texts(parts@);
    proof {
        if left > 1 {
            lemma_index_of_unique(rest, sep, rest.len() as int);
        }
        assert(rest =~= v@.subrange(start as int, v@.len() as int));
    }
    let end: usize = v.len();
    parts.push(substring(&v, start, end));
    assert(texts(parts@) =~= done + seq![rest]);
    parts
}

pub fn split_text_once(s: &str, sep: char) -> (r: Option<(String, String)>)
    ensures
        match r {
            Some((a, b)) => split_once(s@, sep) == Some((a@, b@)),
            None => split_once(s@, sep) is None,
        },
{
    let v = chars_of(s);
    let mut i: usize = 0;
    while i < v.len()
        invariant
            i <= v.len(),
            v@ == s@,
            forall|j: int| 0 <= j < i ==> v@[j] != sep,
        decreases v.len() - i,
    {
        if v[i] == sep {
            proof {
                lemma_index_of_unique(s@, sep, i as int);
                assert(s@.take(i as int) =~= v@.subrange(0, i as int));
                assert(s@.skip(i + 1) =~= v@.subrange(i + 1, v@.len() as int));
            }
            let end: usize = v.len();
            return Some((substring(&v, 0, i), substring(&v, i + 1, end)));
        }
        i += 1;
    }
    proof {
        lemma_index_of_unique(s@, sep, s@.len() as int);
    }
    None
}

pub fn lines_of(s: &str) -> (parts: Vec<String>)
    ensures
        texts(parts@) == lines(s@),
{
    let v = chars_of(s);
    let mut parts: Vec<String> = Vec::new();
    let mut start: usize = 0;
    let mut i: usize = 0;
    assert(s@.skip(0) =~= s@);
    assert(texts(parts@) + lines(s@) =~= lines(s@));
    while i < v.len()
        invariant
            start <= i <= v.len(),
            v@ == s@,
            forall|j: int| start <= j < i ==> v@[j] != '\n',
            texts(parts@) + lines(s@.skip(start as int)) == lines(s@),
        decreases v.len() - i,
    {
        if v[i] == '\n' {
            let ghost rest = s@.skip(start as int);
            let ghost done = texts(parts@);
            let ghost line = rest.take(i - start);
            proof {
                lemma_index_of_unique(rest, '\n', i - start);
                assert(line =~= v@.subrange(start as int, i as int));
                assert(rest.skip(i - start + 1) =~= s@.skip(i + 1));
            }
            if start < i && v[i - 1] == '\r' {
                assert(line.last() == v@[i - 1]);
                assert(line.drop_last() =~= v@.subrange(start as int, i - 1));
                parts.push(substring(&v, start, i - 1));
            } else {
                if start < i {
                    assert(line.last() == v@[i - 1]);
                }
                parts.push(substring(&v, start, i));
            }
            start = i + 1;
            assert(texts(parts@) =~= done.push(without_return(line)));
            assert(texts(parts@) + lines(s@.skip(start as int)) =~= done + lines(rest));
        }
        i += 1;
    }
    let ghost rest = s@.skip(start as int);
    let ghost done = texts(parts@);
    if start < i {
        proof {
            lemma_index_of_unique(rest, '\n', rest.len() as int);
            assert(rest =~= v@.subrange(start as int, i as int));
        }
        parts.push(substring(&v, start, i));
        assert(texts(parts@) =~= done + seq![rest]);
    } else {
        assert(texts(parts@) =~= done + lines(rest));
    }
    parts
}

pub fn join_texts(parts: &Vec<String>, sep: &str) -> (r: String)
    ensures
        r@ == join(texts(parts@), sep@),
{
    let mut r: String = String::new();
    let ghost all = texts(parts@);
    let mut i: usize = 0;
    while i < parts.len()
        invariant
            i <= parts.len(),
            all == texts(parts@),
            r@ == join(all.take(i as int), sep@),
        decreases parts.len() - i,
    {
        proof {
            assert(all.take(i + 1).drop_last() =~= all.take(i as int));
        }
        if i > 0 {
            r.append(sep);
        }
        r.append(parts[i].as_str());
        i += 1;
    }
    assert(all.take(i as int) =~= all);
    r
}

// ---------------------------------------------------------------------------
// Words and filters
// ---------------------------------------------------------------------------

/// The number of leading characters of `s` that are not white space.
pub open spec fn word_length(s: Seq<char>) -> nat
    decreases s.len(),
{
    if s.len() == 0 || is_space(s[0]) {
        0
    } else {
        1 + word_length(s.skip(1))
    }
}

/// The maximal runs of characters that are not white space.
pub open spec fn words(s: Seq<char>) -> Seq<Seq<char>>
    decreases s.len(),
{
    if s.len() == 0 {
        seq![]
    } else if is_space(s[0]) {
        words(s.skip(1))
    } else {
        let n = word_length(s) as int;
        proof {
            lemma_word_length(s);
        }
        seq![s.take(n)] + words(s.skip(n))
    }
}

/// `k` counts the leading characters of `s` that are not white space.
pub open spec fn is_word_length(s: Seq<char>, k: int) -> bool {
    &&& 0 <= k <= s.len()
    &&& forall|j: int| 0 <= j < k ==> !is_space(#[trigger] s[j])
    &&& k < s.len() ==> is_space(s[k])
}

pub proof fn lemma_word_length(s: Seq<char>)
    ensures
        is_word_length(s, word_length(s) as int),
    decreases s.len(),
{
    if s.len() != 0 && !is_space(s[0]) {
        lemma_word_length(s.skip(1));
        let k = word_length(s) as int;
        assert forall|j: int| 0 <= j < k implies !is_space(#[trigger] s[j]) by {
            if j > 0 {
                assert(s[j] == s.skip(1)[j - 1]);
            }
        }
    }
}

proof fn lemma_word_length_unique(s: Seq<char>, k: int)
    requires
        is_word_length(s, k),
    ensures
        word_length(s) == k,
{
    lemma_word_length(s);
    let i = word_length(s) as int;
    if i < k {
        assert(!is_space(s[i]));
    } else if k < i {
        assert(!is_space(s[k]));
    }
}

pub fn words_of(s: &str) -> (parts: Vec<String>)
    ensures
        texts(parts@) == words(s@),
{
    let v = chars_of(s);
    let mut parts: Vec<String> = Vec::new();
    let mut start: usize = 0;
    assert(s@.skip(0) =~= s@);
    assert(texts(parts@) + words(s@) =~= words(s@));
    while start < v.len()
        invariant
            start <= v.len(),
            v@ == s@,
            texts(parts@) + words(s@.skip(start as int)) == words(s@),
        decreases v.len() - start,
    {
        let ghost rest = s@.skip(start as int);
        let ghost done = texts(parts@);
        if v[start].is_whitespace() {
            assert(rest.skip(1) =~= s@.skip(start + 1));
            start += 1;
        } else {
            let mut end: usize = start;
            while end < v.len() && !v[end].is_whitespace()
                invariant
                    start <= end <= v.len(),
                    v@ == s@,
                    forall|j: int| start <= j < end ==> !is_space(#[trigger] v@[j]),
                ensures
                    start <= end <= v.len(),
                    forall|j: int| start <= j < end ==> !is_space(#[trigger] v@[j]),
                    end < v.len() ==> is_space(v@[end as int]),
                decreases v.len() - end,
            {
                end += 1;
            }
            let ghost word = v@.subrange(start as int, end as int);
            proof {
                assert(is_word_length(rest, end - start)) by {
                    assert forall|j: int| 0 <= j < end - start implies !is_space(
                        #[trigger] rest[j],
                    ) by {
                        assert(rest[j] == v@[start + j]);
                    }
                }
                lemma_word_length_unique(rest, end - start);
                assert(rest.take(end - start) =~= word);
                assert(rest.skip(end - start) =~= s@.skip(end as int));
                assert(!is_space(v@[start as int]));
            }
            parts.push(substring(&v, start, end));
            start = end;
            assert(texts(parts@) =~= done.push(word));
            assert(texts(parts@) + words(s@.skip(start as int)) =~= done + words(rest));
        }
    }
    assert(texts(parts@) + words(s@.skip(start as int)) =~= texts(parts@));
    parts
}

/// `s` without the trailing characters that are not numeric.
pub open spec fn trim_end_non_numeric(s: Seq<char>) -> Seq<char>
    decreases s.len(),
{
    if s.len() == 0 || is_numeric(s.last()) {
        s
    } else {
        trim_end_non_numeric(s.drop_last())
    }
}

pub fn trim_to_numeric_end(s: &str) -> (r: String)
    ensures
        r@ == trim_end_non_numeric(s@),
{
    let v = chars_of(s);
    let mut end: usize = v.len();
    assert(s@.take(end as int) =~= s@);
    while end > 0 && !v[end - 1].is_numeric()
        invariant
            end <= v.len(),
            v@ == s@,
            trim_end_non_numeric(s@.take(end as int)) == trim_end_non_numeric(s@),
        ensures
            end <= v.len(),
            trim_end_non_numeric(s@.take(end as int)) == trim_end_non_numeric(s@),
            end > 0 ==> is_numeric(v@[end - 1]),
        decreases end,
    {
        assert(s@.take(end as int).drop_last() =~= s@.take(end - 1));
        end -= 1;
    }
    assert(s@.take(end as int) =~= v@.subrange(0, end as int));
    substring(&v, 0, end)
}

// ---------------------------------------------------------------------------
// Decimal numbers
// ---------------------------------------------------------------------------

pub open spec fn digit_char(d: int) -> char {
    (48 + d) as char
}

/// The decimal notation of a natural number.
pub open spec fn decimal(n: nat) -> Seq<char>
    decreases n,
{
    if n < 10 {
        seq![digit_char(n as int)]
    } else {
        decimal(n / 10).push(digit_char((n % 10) as int))
    }
}

/// The decimal notation of an integer.
pub open spec fn decimal_int(i: int) -> Seq<char> {
    if i < 0 {
        seq!['-'] + decimal((-i) as nat)
    } else {
        decimal(i as nat)
    }
}

pub open spec fn digit_value(c: char) -> int {
    c as int - 48
}

pub open spec fn all_digits(s: Seq<char>) -> bool {
    &&& s.len() > 0
    &&& forall|i: int| 0 <= i < s.len() ==> is_digit(#[trigger] s[i])
}

/// The number that a sequence of digits denotes.
pub open spec fn decimal_value(s: Seq<char>) -> int
    decreases s.len(),
{
    if s.len() == 0 {
        0
    } else {
        decimal_value(s.drop_last()) * 10 + digit_value(s.last())
    }
}

/// The number written in `s`: digits after an optional plus sign, at most `max`.
pub open spec fn parsed_unsigned(s: Seq<char>, max: int) -> Option<int> {
    let digits = if s.len() > 0 && s[0] == '+' {
        s.skip(1)
    } else {
        s
    };
    if all_digits(digits) && decimal_value(digits) <= max {
        Some(decimal_value(digits))
    } else {
        None
    }
}

/// The number written in `s`: digits after an optional sign, from `min` to `max`.
pub open spec fn parsed_signed(s: Seq<char>, min: int, max: int) -> Option<int> {
    if s.len() > 0 && s[0] == '-' {
        if all_digits(s.skip(1)) && -decimal_value(s.skip(1)) >= min {
            Some(-decimal_value(s.skip(1)))
        } else {
            None
        }
    } else {
        parsed_unsigned(s, max)
    }
}

pub fn decimal_of(n: u64) -> (s: String)
    ensures
        s@ == decimal(n as nat),
    decreases n,
{
    let d: u8 = (n % 10) as u8;
    if n < 10 {
        let mut s: String = String::new();
        s.push((48 + d) as char);
        assert(s@ =~= decimal(n as nat));
        s
    } else {
        let mut s = decimal_of(n / 10);
        s.push((48 + d) as char);
        s
    }
}

pub fn decimal_of_int(i: i64) -> (s: String)
    ensures
        s@ == decimal_int(i as int),
{
    if i < 0 {
        let mut s: String = String::new();
        s.push('-');
        let m: u64 = (-(i + 1)) as u64 + 1;
        let digits = decimal_of(m);
        s.append(digits.as_str());
        assert(s@ =~= decimal_int(i as int));
        s
    } else {
        decimal_of(i as u64)
    }
}

proof fn lemma_decimal_value_grows(s: Seq<char>, k: int)
    requires
        0 <= k <= s.len(),
        forall|i: int| 0 <= i < s.len() ==> is_digit(#[trigger] s[i]),
    ensures
        0 <= decimal_value(s.take(k)) <= decimal_value(s),
    decreases s.len(), s.len() - k,
{
    if k == s.len() {
        assert(s.take(k) =~= s);
        if s.len() > 0 {
            let t = s.drop_last();
            assert forall|i: int| 0 <= i < t.len() implies is_digit(#[trigger] t[i]) by {
                assert(t[i] == s[i]);
            }
            lemma_decimal_value_grows(t, t.len() as int);
            assert(t.take(t.len() as int) =~= t);
            assert(is_digit(s[s.len() - 1]));
        }
    } else {
        let t = s.drop_last();
        assert forall|i: int| 0 <= i < t.len() implies is_digit(#[trigger] t[i]) by {
            assert(t[i] == s[i]);
        }
        lemma_decimal_value_grows(t, k);
        assert(t.take(k) =~= s.take(k));
        assert(is_digit(s[s.len() - 1]));
    }
}

/// The value of the digits from `from` on, where they are digits and it fits.
fn magnitude(v: &Vec<char>, from: usize) -> (r: Option<u64>)
    requires
        from <= v.len(),
    ensures
        match r {
            Some(n) => all_digits(v@.skip(from as int)) && decimal_value(v@.skip(from as int)) == n,
            None => !all_digits(v@.skip(from as int)) || decimal_value(v@.skip(from as int))
                > u64::MAX,
        },
{
    let ghost s = v@.skip(from as int);
    if from == v.len() {
        return None;
    }
    let mut n: u64 = 0;
    let mut i: usize = from;
    while i < v.len()
        invariant
            from <= i <= v.len(),
            from < v.len(),
            s == v@.skip(from as int),
            forall|j: int| 0 <= j < i - from ==> is_digit(#[trigger] s[j]),
            n == decimal_value(s.take(i - from)),
        decreases v.len() - i,
    {
        let c = v[i];
        assert(s[i - from] == c);
        if !('0' <= c && c <= '9') {
            return None;
        }
        let d: u64 = (c as u8 - 48) as u64;
        assert(s.take(i - from + 1).drop_last() =~= s.take(i - from));
        assert(decimal_value(s.take(i - from + 1)) == n * 10 + d);
        if n > (u64::MAX - d) / 10 {
            proof {
                if all_digits(s) {
                    lemma_decimal_value_grows(s, i - from + 1);
                }
            }
            return None;
        }
        n = n * 10 + d;
        i += 1;
    }
    assert(s.take(i - from) =~= s);
    Some(n)
}

/// Reads an unsigned number as `str::parse` does for a type that ends at `max`.
pub fn parse_unsigned(s: &str, max: u64) -> (r: Option<u64>)
    ensures
        match r {
            Some(n) => parsed_unsigned(s@, max as int) == Some(n as int) && n <= max,
            None => parsed_unsigned(s@, max as int) is None,
        },
{
    let v = chars_of(s);
    assert(v@.skip(0) =~= s@);
    let from: usize = if v.len() > 0 && v[0] == '+' {
        1
    } else {
        0
    };
    match magnitude(&v, from) {
        Some(n) if n <= max => Some(n),
        _ => None,
    }
}

/// Reads a signed number as `str::parse` does for a type from `min` to `max`.
pub fn parse_signed(s: &str, min: i64, max: i64) -> (r: Option<i64>)
    requires
        min <= 0 <= max,
    ensures
        match r {
            Some(n) => parsed_signed(s@, min as int, max as int) == Some(n as int) && min <= n
                <= max,
            None => parsed_signed(s@, min as int, max as int) is None,
        },
{
    let v = chars_of(s);
    assert(v@.skip(0) =~= s@);
    if v.len() > 0 && v[0] == '-' {
        match magnitude(&v, 1) {
            Some(n) => {
                if n == 0 {
                    Some(0)
                } else if min < 0 && n - 1 <= (-(min + 1)) as u64 {
                    Some(-((n - 1) as i64) - 1)
                } else {
                    None
                }
            },
            None => None,
        }
    } else {
        match parse_unsigned(s, max as u64) {
            Some(n) => Some(n as i64),
            None => None,
        }
    }
}

/// What `decimal` writes is digits only, and denotes the number it was given.
pub proof fn lemma_decimal_value(n: nat)
    ensures
        all_digits(decimal(n)),
        decimal_value(decimal(n)) == n,
    decreases n,
{
    if n < 10 {
        let s = decimal(n);
        assert(s.drop_last() =~= seq![]);
        assert(decimal_value(s.drop_last()) == 0);
    } else {
        lemma_decimal_value(n / 10);
        let s = decimal(n);
        assert(s.drop_last() =~= decimal(n / 10));
        assert forall|i: int| 0 <= i < s.len() implies is_digit(#[trigger] s[i]) by {
            if i < s.len() - 1 {
                assert(s[i] == decimal(n / 10)[i]);
            }
        }
    }
}

/// A number reads back from its decimal notation.
pub proof fn law_decimal_reads_back(i: int, min: int, max: int)
    requires
        min <= i <= max,
    ensures
        parsed_signed(decimal_int(i), min, max) == Some(i),
        i >= 0 ==> parsed_unsigned(decimal_int(i), max) == Some(i),
{
    if i < 0 {
        lemma_decimal_value((-i) as nat);
        assert(decimal_int(i).skip(1) =~= decimal((-i) as nat));
    } else {
        lemma_decimal_value(i as nat);
        assert(is_digit(decimal(i as nat)[0]));
    }
}

// ---------------------------------------------------------------------------
// UTF-8 lengths
// ---------------------------------------------------------------------------

/// The number of bytes that a character takes in UTF-8.
pub open spec fn width(c: char) -> nat {
    if (c as u32) < 0x80 {
        1
    } else if (c as u32) < 0x800 {
        2
    } else if (c as u32) < 0x10000 {
        3
    } else {
        4
    }
}

/// The number of bytes that a text takes in UTF-8.
pub open spec fn byte_len(s: Seq<char>) -> nat
    decreases s.len(),
{
    if s.len() == 0 {
        0
    } else {
        byte_len(s.drop_last()) + width(s.last())
    }
}

/// The beginning of `s` that takes exactly `n` bytes, where one does.
pub open spec fn byte_prefix(s: Seq<char>, n: nat) -> Option<Seq<char>>
    decreases s.len(),
{
    if byte_len(s) == n {
        Some(s)
    } else if s.len() == 0 {
        None
    } else {
        byte_prefix(s.drop_last(), n)
    }
}

proof fn lemma_byte_len_first(s: Seq<char>)
    requires
        s.len() > 0,
    ensures
        byte_len(s) == width(s.first()) + byte_len(s.drop_first()),
    decreases s.len(),
{
    if s.len() == 1 {
        assert(s.drop_last() =~= Seq::<char>::empty());
        assert(s.drop_first() =~= Seq::<char>::empty());
    } else {
        lemma_byte_len_first(s.drop_last());
        assert(s.drop_first().drop_last() =~= s.drop_last().drop_first());
    }
}

/// `byte_len` is the length of the UTF-8 encoding.
pub proof fn lemma_byte_len(s: Seq<char>)
    ensures
        encode_utf8(s).len() == byte_len(s),
    decreases s.len(),
{
    if s.len() > 0 {
        lemma_byte_len_first(s);
        lemma_byte_len(s.drop_first());
        char_is_scalar(s[0]);
    }
}

proof fn lemma_byte_len_grows(s: Seq<char>, k: int)
    requires
        0 <= k <= s.len(),
    ensures
        byte_len(s.take(k)) <= byte_len(s),
        k < s.len() ==> byte_len(s.take(k)) < byte_len(s),
    decreases s.len() - k,
{
    if k == s.len() {
        assert(s.take(k) =~= s);
    } else {
        lemma_byte_len_grows(s, k + 1);
        assert(s.take(k + 1).drop_last() =~= s.take(k));
    }
}

proof fn lemma_byte_prefix_found(s: Seq<char>, k: int, n: nat)
    requires
        0 <= k <= s.len(),
        byte_len(s.take(k)) == n,
    ensures
        byte_prefix(s, n) == Some(s.take(k)),
    decreases s.len(),
{
    lemma_byte_len_grows(s, k);
    if k == s.len() {
        assert(s.take(k) =~= s);
    } else {
        assert(s.drop_last().take(k) =~= s.take(k));
        lemma_byte_prefix_found(s.drop_last(), k, n);
    }
}

proof fn lemma_byte_prefix_absent(s: Seq<char>, k: int, n: nat)
    requires
        0 <= k <= s.len(),
        byte_len(s.take(k)) < n,
        k < s.len() ==> byte_len(s.take(k + 1)) > n,
    ensures
        byte_prefix(s, n) is None,
    decreases s.len(),
{
    if k == s.len() {
        assert(s.take(k) =~= s);
        if s.len() > 0 {
            assert(s.drop_last().take(k - 1) =~= s.take(k - 1));
            lemma_byte_len_grows(s, k - 1);
            lemma_byte_prefix_absent(s.drop_last(), k - 1, n);
        }
    } else {
        lemma_byte_len_grows(s, k + 1);
        if k + 1 == s.len() {
            assert(s.take(k + 1) =~= s);
            assert(s.drop_last() =~= s.take(k));
            assert(s.drop_last().take(k) =~= s.take(k));
        } else {
            assert(s.drop_last().take(k + 1) =~= s.take(k + 1));
            assert(s.drop_last().take(k) =~= s.take(k));
        }
        lemma_byte_prefix_absent(s.drop_last(), k, n);
    }
}

pub fn width_of(c: char) -> (n: usize)
    ensures
        n == width(c),
{
    let code: u32 = c as u32;
    if code < 0x80 {
        1
    } else if code < 0x800 {
        2
    } else if code < 0x10000 {
        3
    } else {
        4
    }
}

pub fn byte_length(s: &str) -> (n: usize)
    ensures
        n == byte_len(s@),
{
    proof {
        lemma_byte_len(s@);
    }
    s.as_bytes().len()
}

/// The beginning of `s` that takes exactly `n` bytes, where one does.
pub fn prefix_of_bytes(s: &str, n: usize) -> (r: Option<String>)
    ensures
        match r {
            Some(p) => byte_prefix(s@, n as nat) == Some(p@),
            None => byte_prefix(s@, n as nat) is None,
        },
{
    let v = chars_of(s);
    let total: usize = byte_length(s);
    let mut bytes: usize = 0;
    let mut k: usize = 0;
    while k < v.len() && bytes < n
        invariant
            k <= v.len(),
            v@ == s@,
            total == byte_len(s@),
            bytes == byte_len(s@.take(k as int)),
            k > 0 ==> byte_len(s@.take(k - 1)) < n,
        decreases v.len() - k,
    {
        proof {
            lemma_byte_len_grows(s@, k + 1);
            assert(s@.take(k + 1).drop_last() =~= s@.take(k as int));
        }
        bytes = bytes + width_of(v[k]);
        k = k + 1;
    }
    if bytes == n {
        proof {
            lemma_byte_prefix_found(s@, k as int, n as nat);
        }
        Some(substring(&v, 0, k))
    } else {
        proof {
            if bytes > n {
                lemma_byte_prefix_absent(s@, k - 1, n as nat);
            } else {
                lemma_byte_prefix_absent(s@, k as int, n as nat);
            }
        }
        None
    }
}

/// Equal but for the case of ASCII letters.
pub open spec fn same_ignoring_case(a: Seq<char>, b: Seq<char>) -> bool {
    &&& a.len() == b.len()
    &&& forall|i: int| 0 <= i < a.len() ==> ascii_lower(#[trigger] a[i]) == ascii_lower(b[i])
}

pub fn same_ignore_case(a: &str, b: &str) -> (r: bool)
    ensures
        r == same_ignoring_case(a@, b@),
{
    let x = chars_of(a);
    let y = chars_of(b);
    if x.len() != y.len() {
        return false;
    }
    let mut i: usize = 0;
    while i < x.len()
        invariant
            i <= x.len(),
            x.len() == y.len(),
            x@ == a@,
            y@ == b@,
            forall|j: int| 0 <= j < i ==> ascii_lower(#[trigger] a@[j]) == ascii_lower(b@[j]),
        decreases x.len() - i,
    {
        if lower_ascii_char(x[i]) != lower_ascii_char(y[i]) {
            proof {
                assert(ascii_lower(a@[i as int]) != ascii_lower(b@[i as int]));
            }
            return false;
        }
        i = i + 1;
    }
    true
}

/// Words are not empty, hold no white space, and hold only what the text holds.
pub proof fn lemma_words(s: Seq<char>, p: spec_fn(char) -> bool)
    requires
        forall|i: int| 0 <= i < s.len() ==> p(#[trigger] s[i]),
    ensures
        forall|w: int| 0 <= w < words(s).len() ==> (#[trigger] words(s)[w]).len() > 0,
        forall|w: int, i: int|
            0 <= w < words(s).len() && 0 <= i < words(s)[w].len() ==> p(#[trigger] words(s)[w][i])
                && !is_space(words(s)[w][i]),
    decreases s.len(),
{
    if s.len() == 0 {
    } else if is_space(s[0]) {
        assert forall|i: int| 0 <= i < s.skip(1).len() implies p(#[trigger] s.skip(1)[i]) by {
            assert(s.skip(1)[i] == s[i + 1]);
        }
        lemma_words(s.skip(1), p);
        assert(words(s) == words(s.skip(1)));
    } else {
        let n = word_length(s) as int;
        lemma_word_length(s);
        let rest = s.skip(n);
        assert forall|i: int| 0 <= i < rest.len() implies p(#[trigger] rest[i]) by {
            assert(rest[i] == s[i + n]);
        }
        lemma_words(rest, p);
        let all = words(s);
        assert(all == seq![s.take(n)] + words(rest));
        assert(n > 0) by {
            assert(!is_space(s[0]));
        }
        assert(all[0] == s.take(n));
        assert forall|w: int| 0 <= w < all.len() implies (#[trigger] all[w]).len() > 0 by {
            if w > 0 {
                assert(all[w] == words(rest)[w - 1]);
            }
        }
        assert forall|w: int, i: int|
            0 <= w < all.len() && 0 <= i < all[w].len() implies p(#[trigger] all[w][i])
            && !is_space(all[w][i]) by {
            if w > 0 {
                assert(all[w] == words(rest)[w - 1]);
            } else {
                assert(all[w][i] == s[i]);
            }
        }
    }
}

/// Parts joined hold only what the parts and the separator hold; they begin as
/// the first part does and end as the last.
pub proof fn lemma_join(parts: Seq<Seq<char>>, sep: Seq<char>, p: spec_fn(char) -> bool)
    requires
        forall|w: int| 0 <= w < parts.len() ==> (#[trigger] parts[w]).len() > 0,
        forall|w: int, i: int|
            0 <= w < parts.len() && 0 <= i < parts[w].len() ==> p(#[trigger] parts[w][i]),
        forall|i: int| 0 <= i < sep.len() ==> p(#[trigger] sep[i]),
    ensures
        forall|i: int| 0 <= i < join(parts, sep).len() ==> p(#[trigger] join(parts, sep)[i]),
        parts.len() > 0 ==> join(parts, sep).len() > 0 && join(parts, sep).first()
            == parts.first().first() && join(parts, sep).last() == parts.last().last(),
        parts.len() == 0 ==> join(parts, sep).len() == 0,
    decreases parts.len(),
{
    if parts.len() > 1 {
        let rest = parts.drop_last();
        assert forall|w: int| 0 <= w < rest.len() implies (#[trigger] rest[w]).len() > 0 by {
            assert(rest[w] == parts[w]);
        }
        assert forall|w: int, i: int| 0 <= w < rest.len() && 0 <= i < rest[w].len() implies p(
            #[trigger] rest[w][i],
        ) by {
            assert(rest[w] == parts[w]);
        }
        lemma_join(rest, sep, p);
        let head = join(rest, sep);
        let whole = join(parts, sep);
        assert forall|i: int| 0 <= i < whole.len() implies p(#[trigger] whole[i]) by {
            if i < head.len() {
                assert(whole[i] == head[i]);
            } else if i < head.len() + sep.len() {
                assert(whole[i] == sep[i - head.len()]);
            } else {
                assert(whole[i] == parts[parts.len() - 1][i - head.len() - sep.len()]);
            }
        }
    }
}

// ---------------------------------------------------------------------------
// Lists of texts
// ---------------------------------------------------------------------------

/// Whether `s` is listed in `v`.
pub fn is_listed(v: &Vec<String>, s: &str) -> (r: bool)
    ensures
        r == texts(v@).contains(s@),
{
    let mut i: usize = 0;
    while i < v.len()
        invariant
            i <= v.len(),
            forall|j: int| 0 <= j < i ==> (#[trigger] v@[j])@ != s@,
        decreases v.len() - i,
    {
        if same(v[i].as_str(), s) {
            proof {
                assert(texts(v@)[i as int] == s@);
            }
            return true;
        }
        i = i + 1;
    }
    proof {
        assert forall|j: int| 0 <= j < v@.len() implies texts(v@)[j] != s@ by {
            assert(texts(v@)[j] == v@[j]@);
        }
    }
    false
}

pub proof fn lemma_push_to_set(s: Seq<Seq<char>>, x: Seq<char>)
    ensures
        s.push(x).to_set() == s.to_set().insert(x),
{
    assert forall|y: Seq<char>| s.push(x).to_set().contains(y) == s.to_set().insert(x).contains(
        y,
    ) by {
        if s.contains(y) {
            let j = choose|j: int| 0 <= j < s.len() && s[j] == y;
            assert(s.push(x)[j] == y);
        }
        assert(s.push(x)[s.len() as int] == x);
    }
    assert(s.push(x).to_set() =~= s.to_set().insert(x));
}

/// A text of ASCII characters can be cut after any byte.
pub proof fn lemma_ascii_prefix(s: Seq<char>, n: nat)
    requires
        forall|i: int| 0 <= i < s.len() ==> (#[trigger] s[i] as u32) < 128,
        n <= s.len(),
    ensures
        byte_len(s) == s.len(),
        byte_prefix(s, n) == Some(s.take(n as int)),
    decreases s.len(),
{
    if s.len() > 0 {
        let rest = s.drop_last();
        assert forall|i: int| 0 <= i < rest.len() implies (#[trigger] rest[i] as u32) < 128 by {
            assert(rest[i] == s[i]);
        }
        if n < s.len() {
            lemma_ascii_prefix(rest, n);
            assert(rest.take(n as int) =~= s.take(n as int));
        } else {
            lemma_ascii_prefix(rest, 0);
            assert(s.take(n as int) =~= s);
        }
        assert(s.last() == s[s.len() - 1]);
    } else {
        assert(s.take(0) =~= s);
    }
}

pub proof fn lemma_byte_len_concat(a: Seq<char>, b: Seq<char>)
    ensures
        byte_len(a + b) == byte_len(a) + byte_len(b),
    decreases b.len(),
{
    if b.len() == 0 {
        assert(a + b =~= a);
    } else {
        lemma_byte_len_concat(a, b.drop_last());
        assert((a + b).drop_last() =~= a + b.drop_last());
    }
}

pub proof fn lemma_byte_prefix_len(s: Seq<char>, n: nat)
    requires
        byte_prefix(s, n) is Some,
    ensures
        byte_len(byte_prefix(s, n)->0) == n,
        byte_prefix(s, n)->0.is_prefix_of(s),
    decreases s.len(),
{
    if byte_len(s) != n {
        lemma_byte_prefix_len(s.drop_last(), n);
    }
}

/// A number without a sign is not negative.
pub proof fn lemma_parsed_unsigned(s: Seq<char>, max: int)
    ensures
        parsed_unsigned(s, max) matches Some(n) ==> 0 <= n <= max,
{
    let digits = if s.len() > 0 && s[0] == '+' {
        s.skip(1)
    } else {
        s
    };
    if all_digits(digits) {
        lemma_decimal_value_grows(digits, 0);
    }
}

// ---------------------------------------------------------------------------
// Laws
// ---------------------------------------------------------------------------

/// A text occurs in another just where it stands between a beginning and an end, and
/// the other begins with it just where it stands before an end.
pub proof fn law_substrings(s: Seq<char>, p: Seq<char>)
    ensures
        contains(s, p) <==> exists|a: Seq<char>, b: Seq<char>| s == #[trigger] (a + p + b),
        starts_with(s, p) <==> exists|b: Seq<char>| s == #[trigger] (p + b),
{
    if contains(s, p) {
        let i = choose|i: int| #[trigger] occurs_at(s, p, i);
        assert(s =~= s.take(i) + p + s.skip(i + p.len()));
    }
    if exists|a: Seq<char>, b: Seq<char>| s == #[trigger] (a + p + b) {
        let (a, b) = choose|a: Seq<char>, b: Seq<char>| s == #[trigger] (a + p + b);
        assert(s.subrange(a.len() as int, (a.len() + p.len()) as int) =~= p);
        assert(occurs_at(s, p, a.len() as int));
    }
    if starts_with(s, p) {
        assert(s =~= p + s.skip(p.len() as int));
    }
    if exists|b: Seq<char>| s == #[trigger] (p + b) {
        let b = choose|b: Seq<char>| s == #[trigger] (p + b);
        assert(s.subrange(0, p.len() as int) =~= p);
    }
}

/// A text is cut at its first separator: what comes out are the texts around it, and a
/// text without the separator is not cut.
pub proof fn law_split_once(a: Seq<char>, sep: char, b: Seq<char>)
    requires
        !a.contains(sep),
    ensures
        split_once(a + seq![sep] + b, sep) == Some((a, b)),
        split_once(a, sep) is None,
{
    let s = a + seq![sep] + b;
    assert forall|j: int| 0 <= j < a.len() implies s[j] != sep by {
        assert(a.contains(a[j]));
    }
    lemma_index_of_unique(s, sep, a.len() as int);
    assert(s.take(a.len() as int) =~= a);
    assert(s.skip(a.len() as int + 1) =~= b);
    assert forall|j: int| 0 <= j < a.len() implies a[j] != sep by {
        assert(a.contains(a[j]));
    }
    lemma_index_of_unique(a, sep, a.len() as int);
}

/// The pieces of a text are what stands between its separators: a piece and a separator
/// before a text add the piece before the pieces of that text, and a text without the
/// separator is one piece.
pub proof fn law_split(a: Seq<char>, sep: char, b: Seq<char>)
    requires
        !a.contains(sep),
    ensures
        split(a + seq![sep] + b, sep) == seq![a] + split(b, sep),
        split(a, sep) == seq![a],
{
    law_split_once(a, sep, b);
    let s = a + seq![sep] + b;
    assert forall|j: int| 0 <= j < a.len() implies a[j] != sep && s[j] != sep by {
        assert(a.contains(a[j]));
        assert(s[j] == a[j]);
    }
    lemma_index_of_unique(s, sep, a.len() as int);
    lemma_index_of_unique(a, sep, a.len() as int);
    assert(s.take(a.len() as int) =~= a);
    assert(s.skip(a.len() as int + 1) =~= b);
}

/// As many pieces as asked for, the last of which is the rest of the text.
pub proof fn law_split_at_most(a: Seq<char>, sep: char, b: Seq<char>, n: nat)
    requires
        !a.contains(sep),
    ensures
        split_at_most(a + seq![sep] + b, sep, n + 2) == seq![a] + split_at_most(b, sep, n + 1),
        split_at_most(a, sep, n + 1) == seq![a],
        split_at_most(b, sep, 1) == seq![b],
        split_at_most(b, sep, 0) == Seq::<Seq<char>>::empty(),
{
    let s = a + seq![sep] + b;
    assert forall|j: int| 0 <= j < a.len() implies a[j] != sep && s[j] != sep by {
        assert(a.contains(a[j]));
        assert(s[j] == a[j]);
    }
    lemma_index_of_unique(s, sep, a.len() as int);
    lemma_index_of_unique(a, sep, a.len() as int);
    assert(s.take(a.len() as int) =~= a);
    assert(s.skip(a.len() as int + 1) =~= b);
}

/// Pieces without the separator that are joined with it come apart again as they were.
pub proof fn law_joined_pieces_come_apart(parts: Seq<Seq<char>>, sep: char)
    requires
        parts.len() > 0,
        forall|i: int| 0 <= i < parts.len() ==> !(#[trigger] parts[i]).contains(sep),
    ensures
        split(join(parts, seq![sep]), sep) == parts,
    decreases parts.len(),
{
    if parts.len() == 1 {
        law_split(parts[0], sep, Seq::empty());
        assert(parts =~= seq![parts[0]]);
    } else {
        let rest = parts.drop_first();
        assert forall|i: int| 0 <= i < rest.len() implies !(#[trigger] rest[i]).contains(sep) by {
            assert(rest[i] == parts[i + 1]);
        }
        law_joined_pieces_come_apart(rest, sep);
        lemma_join_first(parts, seq![sep]);
        law_split(parts[0], sep, join(rest, seq![sep]));
        assert(parts =~= seq![parts[0]] + rest);
    }
}

pub proof fn lemma_join_first(parts: Seq<Seq<char>>, sep: Seq<char>)
    requires
        parts.len() > 1,
    ensures
        join(parts, sep) == parts[0] + sep + join(parts.drop_first(), sep),
    decreases parts.len(),
{
    let rest = parts.drop_first();
    if parts.len() == 2 {
        assert(parts.drop_last() =~= seq![parts[0]]);
        assert(join(parts.drop_last(), sep) == parts[0]);
        assert(rest =~= seq![parts[1]]);
        assert(join(rest, sep) == parts[1]);
    } else {
        lemma_join_first(parts.drop_last(), sep);
        assert(parts.drop_last().drop_first() =~= rest.drop_last());
        assert(join(parts, sep) =~= parts[0] + sep + join(rest, sep));
    }
}

/// Joined pieces stand one after the other, with the separator between each two.
pub proof fn law_join(parts: Seq<Seq<char>>, sep: Seq<char>, piece: Seq<char>)
    ensures
        join(Seq::empty(), sep) == Seq::<char>::empty(),
        join(seq![piece], sep) == piece,
        parts.len() > 0 ==> join(parts.push(piece), sep) == join(parts, sep) + sep + piece,
{
    assert(parts.push(piece).drop_last() =~= parts);
}

/// The lines of a text: a line and its end before a text add that line before the lines
/// of the text, without the carriage return of its end; what is left without an end is
/// a line, unless it is empty.
pub proof fn law_lines(a: Seq<char>, b: Seq<char>)
    requires
        !a.contains('\n'),
    ensures
        a.len() == 0 || a.last() != '\r' ==> lines(a + seq!['\n'] + b) == seq![a] + lines(b),
        lines(a + seq!['\r', '\n'] + b) == seq![a] + lines(b),
        a.len() > 0 ==> lines(a) == seq![a],
        lines(Seq::empty()) == Seq::<Seq<char>>::empty(),
{
    lemma_line(a, b);
    let c = a.push('\r');
    assert forall|j: int| 0 <= j < c.len() implies c[j] != '\n' by {
        if j < a.len() {
            assert(a.contains(a[j]));
        }
    }
    lemma_line(c, b);
    assert(a + seq!['\r', '\n'] + b =~= c + seq!['\n'] + b);
    assert(c.drop_last() =~= a);
}

proof fn lemma_line(a: Seq<char>, b: Seq<char>)
    requires
        !a.contains('\n'),
    ensures
        lines(a + seq!['\n'] + b) == seq![without_return(a)] + lines(b),
        a.len() > 0 ==> lines(a) == seq![a],
{
    let s = a + seq!['\n'] + b;
    assert forall|j: int| 0 <= j < a.len() implies a[j] != '\n' && s[j] != '\n' by {
        assert(a.contains(a[j]));
        assert(s[j] == a[j]);
    }
    lemma_index_of_unique(s, '\n', a.len() as int);
    lemma_index_of_unique(a, '\n', a.len() as int);
    assert(s.take(a.len() as int) =~= a);
    assert(s.skip(a.len() as int + 1) =~= b);
}

/// Each of these lines, ended by a line feed.
pub open spec fn ended(list: Seq<Seq<char>>) -> Seq<char>
    decreases list.len(),
{
    if list.len() == 0 {
        Seq::empty()
    } else {
        list.first() + seq!['\n'] + ended(list.drop_first())
    }
}

/// Lines read back from the text that they make.
pub proof fn law_lines_read_back(list: Seq<Seq<char>>)
    requires
        forall|i: int|
            0 <= i < list.len() ==> !(#[trigger] list[i]).contains('\n') && (list[i].len() > 0
                ==> list[i].last() != '\r'),
    ensures
        lines(ended(list)) == list,
    decreases list.len(),
{
    if list.len() == 0 {
        law_lines(Seq::empty(), Seq::empty());
        assert(list =~= Seq::empty());
    } else {
        let rest = list.drop_first();
        assert forall|i: int| 0 <= i < rest.len() implies !(#[trigger] rest[i]).contains('\n') && (
        rest[i].len() > 0 ==> rest[i].last() != '\r') by {
            assert(rest[i] == list[i + 1]);
        }
        law_lines_read_back(rest);
        law_lines(list[0], ended(rest));
        assert(list =~= seq![list[0]] + rest);
    }
}

/// White space, in full.
pub proof fn law_white_space(c: char)
    ensures
        is_space(c) <==> {
            ||| c == ' ' || 0x9 <= c as u32 <= 0xd || c as u32 == 0x85 || c as u32 == 0xa0
            ||| c as u32 == 0x1680 || 0x2000 <= c as u32 <= 0x200a || c as u32 == 0x2028
            ||| c as u32 == 0x2029 || c as u32 == 0x202f || c as u32 == 0x205f
            ||| c as u32 == 0x3000
        },
{
}

/// The words of a text are its longest pieces without white space, in their order.
pub proof fn law_words(word: Seq<char>, space: char, rest: Seq<char>)
    requires
        word.len() > 0,
        forall|i: int| 0 <= i < word.len() ==> !is_space(#[trigger] word[i]),
        is_space(space),
    ensures
        words(word + seq![space] + rest) == seq![word] + words(rest),
        words(word) == seq![word],
        words(seq![space] + rest) == words(rest),
        words(Seq::empty()) == Seq::<Seq<char>>::empty(),
{
    let s = word + seq![space] + rest;
    let n = word.len() as int;
    assert forall|j: int| 0 <= j < n implies !is_space(#[trigger] s[j]) by {
        assert(s[j] == word[j]);
    }
    lemma_word_length_unique(s, n);
    lemma_word_length_unique(word, n);
    assert(s.take(n) =~= word);
    assert(s.skip(n) =~= seq![space] + rest);
    assert((seq![space] + rest).skip(1) =~= rest);
    assert(words(seq![space] + rest) == words(rest));
    assert(!is_space(word[0]) && !is_space(s[0]));
    assert(word.take(n) =~= word);
    assert(word.skip(n) =~= Seq::empty());
    assert(words(word.skip(n)) =~= Seq::empty());
}

/// A number in decimal: its last digit stands behind the notation of the rest.
pub proof fn law_decimal(n: nat, d: nat)
    requires
        d < 10,
    ensures
        decimal(d) == seq!["0123456789"@[d as int]],
        n > 0 ==> decimal(10 * n + d) == decimal(n).push("0123456789"@[d as int]),
        decimal_int(n as int) == decimal(n),
        n > 0 ==> decimal_int(-(n as int)) == seq!['-'] + decimal(n),
{
    reveal_strlit("0123456789");
    assert((10 * n + d) / 10 == n);
    assert((10 * n + d) % 10 == d);
}

/// How numbers are read: digit by digit, each of which counts ten times what stands
/// behind it; nothing but digits and one sign before them is a number, and none beyond
/// the limits.
pub proof fn law_numbers_are_read(s: Seq<char>, c: char, min: int, max: int)
    requires
        min <= 0 <= max,
    ensures
        parsed_unsigned(Seq::empty(), max) is None,
        parsed_unsigned(seq![c], max) == (if '0' <= c <= '9' && c as u32 - 48 <= max {
            Some(c as u32 - 48)
        } else {
            None
        }),
        s.len() > 0 && s != seq!['+'] ==> parsed_unsigned(s.push(c), max) == (match parsed_unsigned(
            s,
            max,
        ) {
            Some(v) => if '0' <= c <= '9' && 10 * v + (c as u32 - 48) <= max {
                Some(10 * v + (c as u32 - 48))
            } else {
                None
            },
            None => None,
        }),
        parsed_unsigned(seq!['+', c], max) == (if c == '+' {
            None
        } else {
            parsed_unsigned(seq![c], max)
        }),
        parsed_signed(seq!['-'] + s, min, max) == (if s.len() > 0 && s[0] == '+' {
            None
        } else {
            match parsed_unsigned(s, -min) {
                Some(v) => Some(-v),
                None => None,
            }
        }),
        s.len() == 0 || s[0] != '-' ==> parsed_signed(s, min, max) == parsed_unsigned(s, max),
{
    assert(seq![c].drop_last() =~= Seq::<char>::empty());
    assert(seq![c].last() == c);
    assert(decimal_value(seq![c].drop_last()) == 0);
    assert(decimal_value(seq![c]) == c as int - 48);
    if is_digit(c) {
        assert(all_digits(seq![c]));
    } else {
        assert(!is_digit(seq![c][0]));
    }
    assert(seq!['+', c].skip(1) =~= seq![c]);
    if c == '+' {
        assert(!is_digit(seq![c][0]));
        assert(seq![c].skip(1) =~= Seq::<char>::empty());
    }
    assert((seq!['-'] + s).skip(1) =~= s);
    if s.len() > 0 && s[0] == '+' {
        assert(!is_digit(s[0]));
    }
    if s.len() > 0 && s != seq!['+'] {
        lemma_parsed_push(s, c, max);
    }
}

proof fn lemma_parsed_push(s: Seq<char>, c: char, max: int)
    requires
        0 <= max,
        s.len() > 0,
        s != seq!['+'],
    ensures
        parsed_unsigned(s.push(c), max) == (match parsed_unsigned(s, max) {
            Some(v) => if '0' <= c <= '9' && 10 * v + (c as u32 - 48) <= max {
                Some(10 * v + (c as u32 - 48))
            } else {
                None
            },
            None => None,
        }),
{
    let plus = s[0] == '+';
    let d0 = if plus {
        s.skip(1)
    } else {
        s
    };
    let d1 = if plus {
        s.push(c).skip(1)
    } else {
        s.push(c)
    };
    assert(d1 =~= d0.push(c));
    if plus && d0.len() == 0 {
        assert(s =~= seq!['+']);
    }
    assert(d1.drop_last() =~= d0);
    if all_digits(d1) {
        assert forall|i: int| 0 <= i < d0.len() implies is_digit(#[trigger] d0[i]) by {
            assert(d0[i] == d1[i]);
        }
        assert(is_digit(d1[d1.len() - 1]));
        lemma_decimal_value_grows(d0, d0.len() as int);
        assert(d0.take(d0.len() as int) =~= d0);
    }
    if all_digits(d0) && is_digit(c) {
        assert forall|i: int| 0 <= i < d1.len() implies is_digit(#[trigger] d1[i]) by {
            if i < d0.len() {
                assert(d1[i] == d0[i]);
            }
        }
    }
}

/// The length of a text in bytes is that of its UTF-8 encoding, and a beginning of so
/// many bytes is one whose encoding has that length.
pub proof fn law_bytes_are_utf8(s: Seq<char>, n: nat, k: int)
    requires
        0 <= k <= s.len(),
    ensures
        byte_len(s) == encode_utf8(s).len(),
        encode_utf8(s.take(k)).len() == n ==> byte_prefix(s, n) == Some(s.take(k)),
        byte_prefix(s, n) matches Some(p) ==> encode_utf8(p).len() == n && p.len() <= s.len() && p
            == s.take(p.len() as int),
{
    lemma_byte_len(s);
    lemma_byte_len(s.take(k));
    if encode_utf8(s.take(k)).len() == n {
        lemma_byte_prefix_found(s, k, n);
    }
    lemma_byte_prefix_is_prefix(s, n);
    if byte_prefix(s, n) is Some {
        lemma_byte_len(byte_prefix(s, n)->0);
    }
}

proof fn lemma_byte_prefix_is_prefix(s: Seq<char>, n: nat)
    ensures
        byte_prefix(s, n) matches Some(p) ==> byte_len(p) == n && p.len() <= s.len() && p == s.take(
            p.len() as int,
        ),
    decreases s.len(),
{
    if byte_len(s) == n {
        assert(s.take(s.len() as int) =~= s);
    } else if s.len() > 0 {
        lemma_byte_prefix_is_prefix(s.drop_last(), n);
        if byte_prefix(s, n) is Some {
            let p = byte_prefix(s, n)->0;
            assert(s.drop_last().take(p.len() as int) =~= s.take(p.len() as int));
        }
    }
}

/// Letters in lower case: those from `A` to `Z` become those from `a` to `z`, and every
/// other character of an ASCII text stays. Two texts are equal but for their case where
/// they are equal in lower case.
pub proof fn law_lower_case(s: Seq<char>, a: Seq<char>, b: Seq<char>)
    ensures
        is_ascii_chars(s) ==> lowercase(s).len() == s.len() && forall|i: int|
            0 <= i < s.len() ==> #[trigger] lowercase(s)[i] == (if 'A' <= s[i] <= 'Z' {
                (s[i] as u32 + 32) as char
            } else {
                s[i]
            }),
        same_ignoring_case(a, b) <==> a.len() == b.len() && forall|i: int|
            0 <= i < a.len() ==> {
                ||| #[trigger] a[i] == b[i]
                ||| 'A' <= a[i] <= 'Z' && b[i] as u32 == a[i] as u32 + 32
                ||| 'A' <= b[i] <= 'Z' && a[i] as u32 == b[i] as u32 + 32
            },
        is_ascii_chars(a) && is_ascii_chars(b) ==> (same_ignoring_case(a, b) <==> lowercase(a)
            == lowercase(b)),
{
    if is_ascii_chars(a) && is_ascii_chars(b) {
        if same_ignoring_case(a, b) {
            assert(lowercase(a) =~= lowercase(b));
        }
        if lowercase(a) == lowercase(b) {
            assert(lowercase(a).len() == a.len() && lowercase(b).len() == b.len());
            assert forall|i: int| 0 <= i < a.len() implies ascii_lower(#[trigger] a[i])
                == ascii_lower(b[i]) by {
                assert(lowercase(a)[i] == lowercase(b)[i]);
            }
        }
    }
}

/// Of a text with something numeric in it stays what ends with the last numeric
/// character; of one without, nothing.
pub proof fn law_numeric_end(s: Seq<char>, digit: char, rest: Seq<char>)
    requires
        '0' <= digit <= '9' || digit as u32 >= 128 && unicode_numeric(digit),
        forall|i: int|
            0 <= i < rest.len() ==> !('0' <= #[trigger] rest[i] <= '9') && ((rest[i] as u32) < 128
                || !unicode_numeric(rest[i])),
    ensures
        trim_end_non_numeric(s.push(digit) + rest) == s.push(digit),
        trim_end_non_numeric(rest) == Seq::<char>::empty(),
    decreases rest.len(),
{
    if rest.len() == 0 {
        assert(s.push(digit) + rest =~= s.push(digit));
        assert(rest =~= Seq::empty());
    } else {
        let shorter = rest.drop_last();
        assert forall|i: int| 0 <= i < shorter.len() implies !('0' <= #[trigger] shorter[i] <= '9')
            && ((shorter[i] as u32) < 128 || !unicode_numeric(shorter[i])) by {
            assert(shorter[i] == rest[i]);
        }
        law_numeric_end(s, digit, shorter);
        assert((s.push(digit) + rest).drop_last() =~= s.push(digit) + shorter);
        assert(rest.last() == rest[rest.len() - 1]);
        assert((s.push(digit) + rest).last() == rest.last());
    }
}

/// The texts of strings, one by one.
pub proof fn law_texts(v: Seq<String>)
    ensures
        texts(v).len() == v.len(),
        forall|i: int| 0 <= i < v.len() ==> #[trigger] texts(v)[i] == v[i]@,
{
}

/// What is read lies between the limits.
pub proof fn law_numbers_are_within_limits(s: Seq<char>, min: int, max: int)
    requires
        min <= 0 <= max,
    ensures
        parsed_unsigned(s, max) matches Some(v) ==> 0 <= v <= max,
        parsed_signed(s, min, max) matches Some(v) ==> min <= v <= max,
{
    let rest = s.skip(1);
    if all_digits(s) {
        lemma_decimal_value_grows(s, 0);
        assert(s.take(0) =~= Seq::empty());
    }
    if s.len() > 0 && all_digits(rest) {
        lemma_decimal_value_grows(rest, 0);
        assert(rest.take(0) =~= Seq::empty());
    }
}

pub proof fn lemma_ended(list: Seq<Seq<char>>, line: Seq<char>)
    ensures
        ended(list.push(line)) == (ended(list) + line).push('\n'),
    decreases list.len(),
{
    let all = list.push(line);
    if list.len() == 0 {
        assert(all.drop_first() =~= Seq::empty());
        assert(ended(all.drop_first()) =~= Seq::<char>::empty());
        assert(ended(all) =~= (ended(list) + line).push('\n'));
    } else {
        lemma_ended(list.drop_first(), line);
        assert(all.drop_first() =~= list.drop_first().push(line));
        assert(ended(all) =~= (ended(list) + line).push('\n'));
    }
}

/// Letters and digits: of ASCII those of the alphabet in either case and the ten digits,
/// beyond it what Unicode says.
pub proof fn law_letters_and_digits(c: char)
    ensures
        (c as u32) < 128 ==> (is_alphanumeric(c) <==> '0' <= c <= '9' || 'a' <= c <= 'z' || 'A' <= c
            <= 'Z'),
        c as u32 >= 128 ==> is_alphanumeric(c) == unicode_alphanumeric(c),
        (c as u32) < 128 ==> (is_numeric(c) <==> '0' <= c <= '9'),
        c as u32 >= 128 ==> is_numeric(c) == unicode_numeric(c),
        is_hex_digit(c) <==> '0' <= c <= '9' || 'a' <= c <= 'f' || 'A' <= c <= 'F',
{
}

}
