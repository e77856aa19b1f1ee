//! Character-level text operations with their specifications: equality,
//! substring search, Unicode white space, trimming and splitting, ASCII
//! case folding, decimal parsing and UTF-8 byte lengths.

use vstd::prelude::*;

verus! {

// ---------------------------------------------------------------------
// Characters of a string
// ---------------------------------------------------------------------

/// The characters of `s`, in order.
pub fn chars_of(s: &str) -> (v: Vec<char>)
    ensures
        v@ == s@,
{
    let n = s.unicode_len();
    let mut v: Vec<char> = Vec::new();
    let mut i: usize = 0;
    while i < n
        invariant
            n == s@.len(),
            i <= n,
            v@ == s@.take(i as int),
        decreases n - i,
    {
        v.push(s.get_char(i));
        i += 1;
        assert(v@ =~= s@.take(i as int));
    }
    assert(s@.take(n as int) =~= s@);
    v
}

/// Appends one character to a string (`String::push`).
#[verifier::external_body]
pub(crate) fn push_char(s: &mut String, c: char)
    ensures
        final(s)@ == old(s)@.push(c),
{
    s.push(c);
}

/// A string holding exactly the characters `cs`.
pub fn string_from_chars(cs: &[char]) -> (s: String)
    ensures
        s@ == cs@,
{
    let mut s = String::new();
    let mut i: usize = 0;
    while i < cs.len()
        invariant
            i <= cs@.len(),
            s@ == cs@.take(i as int),
        decreases cs@.len() - i,
    {
        push_char(&mut s, cs[i]);
        i += 1;
        assert(s@ =~= cs@.take(i as int));
    }
    assert(cs@.take(cs@.len() as int) =~= cs@);
    s
}

/// Character-wise equality of two sequences of characters.
pub fn chars_eq(a: &[char], b: &[char]) -> (r: bool)
    ensures
        r == (a@ == b@),
{
    if a.len() != b.len() {
        return false;
    }
    let mut i: usize = 0;
    while i < a.len()
        invariant
            a@.len() == b@.len(),
            i <= a@.len(),
            forall|k: int| 0 <= k < i ==> a@[k] == b@[k],
        decreases a@.len() - i,
    {
        if a[i] != b[i] {
            return false;
        }
        i += 1;
    }
    assert(a@ =~= b@);
    true
}

/// Equality of two strings, compared by their characters.
pub fn str_eq(a: &str, b: &str) -> (r: bool)
    ensures
        r == (a@ == b@),
{
    let ca = chars_of(a);
    let cb = chars_of(b);
    chars_eq(ca.as_slice(), cb.as_slice())
}

// ---------------------------------------------------------------------
// Substrings
// ---------------------------------------------------------------------

/// `needle` occurs in `hay` starting at position `i`.
pub open spec fn occurs_at(hay: Seq<char>, needle: Seq<char>, i: int) -> bool {
    0 <= i && i + needle.len() <= hay.len() && hay.subrange(i, i + needle.len()) == needle
}

/// `needle` occurs somewhere in `hay` (`str::contains` with a string
/// pattern); the empty needle occurs in every string.
pub open spec fn contains_text(hay: Seq<char>, needle: Seq<char>) -> bool {
    exists|i: int| #[trigger] occurs_at(hay, needle, i)
}

fn occurs_at_exec(hay: &[char], needle: &[char], i: usize) -> (r: bool)
    requires
        i + needle@.len() <= hay@.len(),
    ensures
        r == occurs_at(hay@, needle@, i as int),
{
    let m = needle.len();
    let mut j: usize = 0;
    while j < m
        invariant
            m == needle@.len(),
            i + m <= hay@.len(),
            hay@.len() == hay.len(),
            j <= m,
            forall|k: int| 0 <= k < j ==> hay@[i + k] == needle@[k],
        decreases m - j,
    {
        if hay[i + j] != needle[j] {
            assert(hay@.subrange(i as int, i + m)[j as int] != needle@[j as int]);
            return false;
        }
        j += 1;
    }
    assert(hay@.subrange(i as int, i + m) =~= needle@);
    true
}

/// Whether `needle` occurs in `hay`.
pub fn contains_chars(hay: &[char], needle: &[char]) -> (r: bool)
    ensures
        r == contains_text(hay@, needle@),
{
    let n = hay.len();
    let m = needle.len();
    if m > n {
        assert forall|i: int| !occurs_at(hay@, needle@, i) by {}
        return false;
    }
    let last = n - m;
    let mut i: usize = 0;
    while i < last
        invariant
            n == hay@.len(),
            m == needle@.len(),
            last == n - m,
            i <= last,
            forall|k: int| 0 <= k < i ==> !occurs_at(hay@, needle@, k),
        decreases last - i,
    {
        if occurs_at_exec(hay, needle, i) {
            assert(occurs_at(hay@, needle@, i as int));
            return true;
        }
        i += 1;
    }
    if occurs_at_exec(hay, needle, last) {
        assert(occurs_at(hay@, needle@, last as int));
        return true;
    }
    assert forall|k: int| !occurs_at(hay@, needle@, k) by {
        if 0 <= k < last {
        }
    }
    false
}

// ---------------------------------------------------------------------
// Unicode lower case
// ---------------------------------------------------------------------

/// The Unicode lower-case mapping of a string, as computed by
/// `str::to_lowercase`.
pub uninterp spec fn lowercase(s: Seq<char>) -> Seq<char>;

/// `str::to_lowercase`: its result is named `lowercase` of the argument's
/// characters; nothing more of the Unicode case mapping is stated.
#[verifier::external_body]
pub(crate) fn to_lowercase(s: &str) -> (r: String)
    ensures
        r@ == lowercase(s@),
{
    s.to_lowercase()
}

// ---------------------------------------------------------------------
// White space, trimming and splitting
// ---------------------------------------------------------------------

/// The Unicode `White_Space` property, which `char::is_whitespace`,
/// `str::trim` and `str::split_whitespace` go by.
pub open spec fn is_white_space(c: char) -> bool {
    let u = c as u32;
    (0x9 <= u && u <= 0xd) || u == 0x20 || u == 0x85 || u == 0xa0 || u == 0x1680 || (0x2000 <= u
        && u <= 0x200a) || u == 0x2028 || u == 0x2029 || u == 0x202f || u == 0x205f || u == 0x3000
}

/// Whether `c` is white space.
pub fn is_white_space_char(c: char) -> (r: bool)
    ensures
        r == is_white_space(c),
{
    let u = c as u32;
    (0x9 <= u && u <= 0xd) || u == 0x20 || u == 0x85 || u == 0xa0 || u == 0x1680 || (0x2000 <= u
        && u <= 0x200a) || u == 0x2028 || u == 0x2029 || u == 0x202f || u == 0x205f || u == 0x3000
}

/// `s` without its leading white space.
pub open spec fn trim_start(s: Seq<char>) -> Seq<char>
    decreases s.len(),
{
    if s.len() > 0 && is_white_space(s[0]) {
        trim_start(s.drop_first())
    } else {
        s
    }
}

/// `s` without its trailing white space.
pub open spec fn trim_end(s: Seq<char>) -> Seq<char>
    decreases s.len(),
{
    if s.len() > 0 && is_white_space(s.last()) {
        trim_end(s.drop_last())
    } else {
        s
    }
}

/// `s` without leading and trailing white space (`str::trim`).
pub open spec fn trimmed(s: Seq<char>) -> Seq<char> {
    trim_end(trim_start(s))
}

/// The characters of `s` from position `lo` up to (excluding) `hi`.
pub fn chars_between(s: &[char], lo: usize, hi: usize) -> (r: Vec<char>)
    requires
        lo <= hi <= s@.len(),
    ensures
        r@ == s@.subrange(lo as int, hi as int),
{
    let mut r: Vec<char> = Vec::new();
    let mut i: usize = lo;
    while i < hi
        invariant
            lo <= i <= hi,
            hi <= s@.len(),
            r@ == s@.subrange(lo as int, i as int),
        decreases hi - i,
    {
        r.push(s[i]);
        i += 1;
        assert(r@ =~= s@.subrange(lo as int, i as int));
    }
    r
}

/// `s` without leading and trailing white space.
pub fn trim_chars(s: &[char]) -> (r: Vec<char>)
    ensures
        r@ == trimmed(s@),
{
    let n = s.len();
    let mut lo: usize = 0;
    assert(s@.subrange(0, n as int) =~= s@);
    while lo < n && is_white_space_char(s[lo])
        invariant
            n == s@.len(),
            lo <= n,
            trim_start(s@) == trim_start(s@.subrange(lo as int, n as int)),
        decreases n - lo,
    {
        assert(s@.subrange(lo as int, n as int).drop_first() =~= s@.subrange(lo + 1, n as int));
        lo += 1;
    }
    let ghost t = s@.subrange(lo as int, n as int);
    assert(trim_start(s@) == t);
    let mut hi: usize = n;
    while hi > lo && is_white_space_char(s[hi - 1])
        invariant
            n == s@.len(),
            lo <= hi <= n,
            t == s@.subrange(lo as int, n as int),
            trim_end(t) == trim_end(s@.subrange(lo as int, hi as int)),
        decreases hi,
    {
        assert(s@.subrange(lo as int, hi as int).drop_last() =~= s@.subrange(lo as int, hi - 1));
        assert(s@.subrange(lo as int, hi as int).last() == s@[hi - 1]);
        hi -= 1;
    }
    chars_between(s, lo, hi)
}

/// Scans `s` for white-space-separated words: the words completed so far
/// and the word being read.
pub open spec fn word_scan(s: Seq<char>) -> (Seq<Seq<char>>, Seq<char>)
    decreases s.len(),
{
    if s.len() == 0 {
        (seq![], seq![])
    } else {
        let prev = word_scan(s.drop_last());
        if is_white_space(s.last()) {
            if prev.1.len() > 0 {
                (prev.0.push(prev.1), seq![])
            } else {
                (prev.0, seq![])
            }
        } else {
            (prev.0, prev.1.push(s.last()))
        }
    }
}

/// The words of `s`: its maximal runs of characters that are not white
/// space, in order (`str::split_whitespace`).
pub open spec fn words(s: Seq<char>) -> Seq<Seq<char>> {
    let scan = word_scan(s);
    if scan.1.len() > 0 {
        scan.0.push(scan.1)
    } else {
        scan.0
    }
}

/// The characters of each vector of a sequence.
pub open spec fn char_vecs_view(v: Seq<Vec<char>>) -> Seq<Seq<char>> {
    v.map_values(|w: Vec<char>| w@)
}

/// Splits `s` into its white-space-separated words.
pub fn split_words(s: &[char]) -> (r: Vec<Vec<char>>)
    ensures
        char_vecs_view(r@) == words(s@),
{
    let mut done: Vec<Vec<char>> = Vec::new();
    let mut cur: Vec<char> = Vec::new();
    let mut i: usize = 0;
    assert(s@.take(0) =~= Seq::<char>::empty());
    while i < s.len()
        invariant
            i <= s@.len(),
            char_vecs_view(done@) == word_scan(s@.take(i as int)).0,
            cur@ == word_scan(s@.take(i as int)).1,
        decreases s@.len() - i,
    {
        assert(s@.take(i + 1).drop_last() =~= s@.take(i as int));
        assert(s@.take(i + 1).last() == s@[i as int]);
        let c = s[i];
        if is_white_space_char(c) {
            if cur.len() > 0 {
                let w = cur;
                done.push(w);
                cur = Vec::new();
            }
        } else {
            cur.push(c);
        }
        i += 1;
        assert(char_vecs_view(done@) =~= word_scan(s@.take(i as int)).0);
    }
    assert(s@.take(s@.len() as int) =~= s@);
    if cur.len() > 0 {
        done.push(cur);
    }
    assert(char_vecs_view(done@) =~= words(s@));
    done
}

// ---------------------------------------------------------------------
// ASCII case folding
// ---------------------------------------------------------------------

/// The code of `c`, with ASCII upper-case letters mapped to lower case.
pub open spec fn ascii_folded(c: char) -> int {
    if 65 <= (c as u32) && (c as u32) <= 90 {
        (c as u32) + 32
    } else {
        c as u32 as int
    }
}

/// `a` and `b` are equal up to ASCII case (`str::eq_ignore_ascii_case`).
pub open spec fn eq_ignore_ascii_case(a: Seq<char>, b: Seq<char>) -> bool {
    a.len() == b.len() && forall|i: int| 0 <= i < a.len() ==> ascii_folded(a[i]) == ascii_folded(b[i])
}

fn ascii_folded_exec(c: char) -> (r: u32)
    ensures
        r == ascii_folded(c),
{
    let u = c as u32;
    if 65 <= u && u <= 90 {
        u + 32
    } else {
        u
    }
}

/// Whether `a` and `b` are equal up to ASCII case.
pub fn chars_eq_ignore_ascii_case(a: &[char], b: &[char]) -> (r: bool)
    ensures
        r == eq_ignore_ascii_case(a@, b@),
{
    if a.len() != b.len() {
        return false;
    }
    let mut i: usize = 0;
    while i < a.len()
        invariant
            a@.len() == b@.len(),
            i <= a@.len(),
            forall|k: int| 0 <= k < i ==> ascii_folded(a@[k]) == ascii_folded(b@[k]),
        decreases a@.len() - i,
    {
        if ascii_folded_exec(a[i]) != ascii_folded_exec(b[i]) {
            return false;
        }
        i += 1;
    }
    true
}

// ---------------------------------------------------------------------
// Decimal numbers
// ---------------------------------------------------------------------

/// `c` is one of the ASCII digits `0` to `9`.
pub open spec fn is_digit(c: char) -> bool {
    48 <= (c as u32) && (c as u32) <= 57
}

/// The value of the digits `s`, read in base ten.
pub open spec fn decimal_value(s: Seq<char>) -> nat
    decreases s.len(),
{
    if s.len() == 0 {
        0
    } else {
        decimal_value(s.drop_last()) * 10 + ((s.last() as u32) - 48) as nat
    }
}

/// `s` without the `+` sign that may lead it.
pub open spec fn unsigned_digits(s: Seq<char>) -> Seq<char> {
    if s.len() > 0 && s[0] == '+' {
        s.drop_first()
    } else {
        s
    }
}

/// What `str::parse::<usize>` makes of `s`: an optional `+` followed by one
/// or more ASCII digits whose value fits in a `usize`; anything else is
/// rejected.
pub open spec fn parsed_usize(s: Seq<char>) -> Option<usize> {
    let digits = unsigned_digits(s);
    if digits.len() == 0 {
        None
    } else if exists|i: int| 0 <= i < digits.len() && !is_digit(#[trigger] digits[i]) {
        None
    } else if decimal_value(digits) > usize::MAX {
        None
    } else {
        Some(decimal_value(digits) as usize)
    }
}

/// Reading decimal digits: a single digit reads as its value, and
/// appending a digit to a number multiplies it by ten and adds the digit,
/// as long as the result fits in a `usize`. So every word of one or more
/// digits (optionally after a `+`) whose value fits reads as that value.
pub proof fn law_parse_digits(s: Seq<char>, c: char, v: usize)
    ensures
        48 <= (c as u32) <= 57 ==> parsed_usize(seq![c]) == Some(((c as u32) - 48) as usize),
        48 <= (c as u32) <= 57 && parsed_usize(s) == Some(v) && v * 10 + ((c as u32) - 48) <= usize::MAX
            ==> parsed_usize(s.push(c)) == Some((v * 10 + ((c as u32) - 48)) as usize),
        parsed_usize(s.push(c)) is Some ==> 48 <= (c as u32) <= 57,
{
    let one = seq![c];
    if 48 <= (c as u32) <= 57 {
        assert(c != '+');
        assert(unsigned_digits(one) == one);
        assert(one.drop_last() =~= Seq::<char>::empty());
        assert(decimal_value(Seq::<char>::empty()) == 0);
        assert(one.last() == c);
        assert(decimal_value(one) == ((c as u32) - 48) as nat);
        assert(forall|i: int| 0 <= i < one.len() ==> is_digit(#[trigger] one[i]));
    }
    let t = s.push(c);
    if parsed_usize(s) is Some {
        let d = unsigned_digits(s);
        assert(s.len() > 0);
        let dt = unsigned_digits(t);
        if s[0] == '+' {
            assert(dt =~= d.push(c));
        } else {
            assert(t[0] == s[0]);
            assert(dt =~= d.push(c));
        }
        assert(dt.drop_last() =~= d);
        assert(dt.last() == c);
        if 48 <= (c as u32) <= 57 {
            assert forall|i: int| 0 <= i < dt.len() implies is_digit(#[trigger] dt[i]) by {
                if i < d.len() {
                    assert(dt[i] == d[i]);
                }
            }
        }
    }
    if parsed_usize(t) is Some {
        let dt = unsigned_digits(t);
        assert(dt.len() > 0);
        if t[0] == '+' {
            assert(dt =~= t.drop_first());
        }
        assert(dt[dt.len() - 1] == c);
        assert(is_digit(dt[dt.len() - 1]));
    }
}

proof fn lemma_decimal_monotone(s: Seq<char>, k: int)
    requires
        0 <= k <= s.len(),
        forall|i: int| 0 <= i < s.len() ==> is_digit(#[trigger] s[i]),
    ensures
        decimal_value(s.take(k)) <= decimal_value(s),
    decreases s.len() - k,
{
    if k < s.len() {
        lemma_decimal_monotone(s, k + 1);
        assert(s.take(k + 1).drop_last() =~= s.take(k));
        assert(s.take(k + 1).last() == s[k]);
        assert(is_digit(s[k]));
    } else {
        assert(s.take(k) =~= s);
    }
}

/// Parses a decimal `usize` the way `str::parse::<usize>` does.
pub fn parse_usize(s: &[char]) -> (r: Option<usize>)
    ensures
        r == parsed_usize(s@),
{
    let n = s.len();
    let start: usize = if n > 0 && s[0] == '+' {
        1
    } else {
        0
    };
    let ghost digits = s@.subrange(start as int, n as int);
    assert(digits =~= unsigned_digits(s@));
    if start == n {
        return None;
    }
    let mut i: usize = start;
    while i < n
        invariant
            start <= i <= n,
            n == s@.len(),
            digits == s@.subrange(start as int, n as int),
            digits == unsigned_digits(s@),
            forall|k: int| start <= k < i ==> is_digit(#[trigger] s@[k]),
        decreases n - i,
    {
        let u = s[i] as u32;
        if !(48 <= u && u <= 57) {
            assert(digits[i - start] == s@[i as int]);
            assert(!is_digit(digits[i - start]));
            return None;
        }
        i += 1;
    }
    assert forall|k: int| 0 <= k < digits.len() implies is_digit(#[trigger] digits[k]) by {
        assert(digits[k] == s@[k + start]);
    }
    let mut value: usize = 0;
    let mut j: usize = start;
    assert(digits.take(0) =~= Seq::<char>::empty());
    while j < n
        invariant
            start <= j <= n,
            n == s@.len(),
            digits == s@.subrange(start as int, n as int),
            digits == unsigned_digits(s@),
            forall|k: int| 0 <= k < digits.len() ==> is_digit(#[trigger] digits[k]),
            value == decimal_value(digits.take(j - start)),
        decreases n - j,
    {
        assert(digits[j - start] == s@[j as int]);
        assert(is_digit(digits[j - start]));
        let d = (s[j] as u32 - 48) as usize;
        assert(digits.take(j + 1 - start).drop_last() =~= digits.take(j - start));
        assert(digits.take(j + 1 - start).last() == s@[j as int]);
        assert(decimal_value(digits.take(j + 1 - start)) == value * 10 + d);
        match value.checked_mul(10) {
            None => {
                proof {
                    lemma_decimal_monotone(digits, j + 1 - start);
                    assert(!(exists|k: int| 0 <= k < digits.len() && !is_digit(#[trigger] digits[k])));
                }
                return None;
            },
            Some(v10) => match v10.checked_add(d) {
                None => {
                    proof {
                        lemma_decimal_monotone(digits, j + 1 - start);
                    }
                    return None;
                },
                Some(v) => {
                    value = v;
                },
            },
        }
        j += 1;
    }
    assert(digits.take(n - start) =~= digits);
    Some(value)
}

// ---------------------------------------------------------------------
// UTF-8 lengths
// ---------------------------------------------------------------------

/// The number of bytes that UTF-8 spends on `c`.
pub open spec fn utf8_width(c: char) -> nat {
    let u = c as u32;
    if u < 0x80 {
        1
    } else if u < 0x800 {
        2
    } else if u < 0x10000 {
        3
    } else {
        4
    }
}

/// The length in bytes of the UTF-8 encoding of `s` (`str::len`).
pub open spec fn utf8_len(s: Seq<char>) -> nat
    decreases s.len(),
{
    if s.len() == 0 {
        0
    } else {
        utf8_len(s.drop_last()) + utf8_width(s.last())
    }
}

/// Byte offset `b` of `s` falls between two characters.
pub open spec fn is_byte_boundary(s: Seq<char>, b: nat) -> bool {
    exists|k: int| 0 <= k <= s.len() && #[trigger] utf8_len(s.take(k)) == b
}

/// The number of characters of `s` that the first `b` bytes hold, where
/// `b` falls between two characters.
pub open spec fn chars_in_bytes(s: Seq<char>, b: nat) -> int {
    choose|k: int| 0 <= k <= s.len() && #[trigger] utf8_len(s.take(k)) == b
}

fn utf8_width_exec(c: char) -> (r: usize)
    ensures
        r == utf8_width(c),
{
    let u = c as u32;
    if u < 0x80 {
        1
    } else if u < 0x800 {
        2
    } else if u < 0x10000 {
        3
    } else {
        4
    }
}

proof fn lemma_utf8_prefix_increasing(s: Seq<char>, j: int, k: int)
    requires
        0 <= j < k <= s.len(),
    ensures
        utf8_len(s.take(j)) < utf8_len(s.take(k)),
    decreases k - j,
{
    assert(s.take(k).drop_last() =~= s.take(k - 1));
    if j < k - 1 {
        lemma_utf8_prefix_increasing(s, j, k - 1);
    }
}

/// Whether the UTF-8 encoding of `s` is longer than `b` bytes.
pub fn utf8_longer_than(s: &[char], b: usize) -> (r: bool)
    ensures
        r == (utf8_len(s@) > b),
{
    let mut acc: usize = 0;
    let mut i: usize = 0;
    assert(s@.take(0) =~= Seq::<char>::empty());
    while i < s.len()
        invariant
            i <= s@.len(),
            acc == utf8_len(s@.take(i as int)),
            acc <= b,
        decreases s@.len() - i,
    {
        assert(s@.take(i + 1).drop_last() =~= s@.take(i as int));
        let w = utf8_width_exec(s[i]);
        if w > b - acc {
            proof {
                if i + 1 < s@.len() {
                    lemma_utf8_prefix_increasing(s@, i + 1, s@.len() as int);
                }
                assert(s@.take(s@.len() as int) =~= s@);
            }
            return true;
        }
        acc = acc + w;
        i += 1;
    }
    assert(s@.take(s@.len() as int) =~= s@);
    false
}

/// The number of characters in the first `b` bytes of `s`, when byte `b`
/// falls between two characters.
pub fn cut_at_byte(s: &[char], b: usize) -> (r: Option<usize>)
    ensures
        r is Some <==> is_byte_boundary(s@, b as nat),
        r is Some ==> r->0 == chars_in_bytes(s@, b as nat) && r->0 <= s@.len(),
{
    let mut acc: usize = 0;
    let mut i: usize = 0;
    assert(s@.take(0) =~= Seq::<char>::empty());
    while i < s.len() && acc < b
        invariant
            i <= s@.len(),
            acc == utf8_len(s@.take(i as int)),
            acc <= b,
        decreases s@.len() - i,
    {
        assert(s@.take(i + 1).drop_last() =~= s@.take(i as int));
        let w = utf8_width_exec(s[i]);
        if w > b - acc {
            proof {
                assert(utf8_len(s@.take(i + 1)) > b);
                assert forall|k: int| 0 <= k <= s@.len() implies #[trigger] utf8_len(s@.take(k)) != b by {
                    if k < i {
                        lemma_utf8_prefix_increasing(s@, k, i as int);
                    } else if k > i + 1 {
                        lemma_utf8_prefix_increasing(s@, i + 1, k);
                    }
                }
            }
            return None;
        }
        acc = acc + w;
        i += 1;
    }
    if acc == b {
        proof {
            assert(utf8_len(s@.take(i as int)) == b);
            let k = chars_in_bytes(s@, b as nat);
            if k < i {
                lemma_utf8_prefix_increasing(s@, k, i as int);
            } else if i < k {
                lemma_utf8_prefix_increasing(s@, i as int, k);
            }
        }
        Some(i)
    } else {
        proof {
            assert(i == s@.len());
            assert forall|k: int| 0 <= k <= s@.len() implies #[trigger] utf8_len(s@.take(k)) != b by {
                if k < i {
                    lemma_utf8_prefix_increasing(s@, k, i as int);
                }
            }
        }
        None
    }
}

// ---------------------------------------------------------------------
// Decimal text of a number
// ---------------------------------------------------------------------

/// The ASCII digit for `d` (below ten).
pub open spec fn digit_char(d: nat) -> char {
    seq!['0', '1', '2', '3', '4', '5', '6', '7', '8', '9'][d as int]
}

/// The decimal text of `n`, without leading zeros (`u32::to_string`).
pub open spec fn decimal_text(n: nat) -> Seq<char>
    decreases n,
{
    if n < 10 {
        seq![digit_char(n)]
    } else {
        decimal_text(n / 10).push(digit_char(n % 10))
    }
}

fn digit_char_exec(d: u32) -> (c: char)
    requires
        d < 10,
    ensures
        c == digit_char(d as nat),
{
    let digits = ['0', '1', '2', '3', '4', '5', '6', '7', '8', '9'];
    assert(digits@ == seq!['0', '1', '2', '3', '4', '5', '6', '7', '8', '9']);
    digits[d as usize]
}

fn decimal_chars(n: u32) -> (r: Vec<char>)
    ensures
        r@ == decimal_text(n as nat),
    decreases n,
{
    if n < 10 {
        let mut r = Vec::new();
        r.push(digit_char_exec(n));
        r
    } else {
        let mut r = decimal_chars(n / 10);
        r.push(digit_char_exec(n % 10));
        r
    }
}

/// The decimal text of `n`.
pub fn u32_to_text(n: u32) -> (r: String)
    ensures
        r@ == decimal_text(n as nat),
{
    let cs = decimal_chars(n);
    string_from_chars(cs.as_slice())
}

} // verus!
