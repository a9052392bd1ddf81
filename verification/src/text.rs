//! Text as a sequence of characters.
//!
//! Contracts speak of a string by its view, a `Seq<char>`. The functions here
//! say in those terms what the rest of the client does with text: trimming,
//! searching, splitting into lines, and decimal numbers.

use vstd::prelude::*;

verus! {

/// `String::push` appends one character at the end.
pub assume_specification[ String::push ](s: &mut String, c: char)
    ensures
        final(s)@ == old(s)@.push(c),
;

/// `String::push_str` appends a string at the end.
pub assume_specification[ String::push_str ](s: &mut String, t: &str)
    ensures
        final(s)@ == old(s)@ + t@,
;

/// The text that the standard library's lossy decoding makes of bytes.
pub uninterp spec fn lossy(bytes: Seq<u8>) -> Seq<char>;

/// `String::from_utf8_lossy`. Bytes that are UTF-8 are the text they encode;
/// what it makes of others is named, not stated.
#[verifier::external_body]
pub(crate) fn decode(bytes: &Vec<u8>) -> (s: String)
    ensures
        s@ == lossy(bytes@),
        vstd::utf8::valid_utf8(bytes@) ==> s@ == vstd::utf8::decode_utf8(bytes@),
{
    String::from_utf8_lossy(bytes).into_owned()
}

// ---------------------------------------------------------------------------
// Characters
// ---------------------------------------------------------------------------

/// The characters with the Unicode `White_Space` property.
pub open spec fn white_space(c: char) -> bool {
    ||| 0x09 <= c as u32 <= 0x0d
    ||| c as u32 == 0x20
    ||| c as u32 == 0x85
    ||| c as u32 == 0xa0
    ||| c as u32 == 0x1680
    ||| 0x2000 <= c as u32 <= 0x200a
    ||| c as u32 == 0x2028
    ||| c as u32 == 0x2029
    ||| c as u32 == 0x202f
    ||| c as u32 == 0x205f
    ||| c as u32 == 0x3000
}

pub fn is_white_space(c: char) -> (r: bool)
    ensures
        r == white_space(c),
{
    let n: u32 = c as u32;
    (0x09 <= n && n <= 0x0d) || n == 0x20 || n == 0x85 || n == 0xa0 || n == 0x1680 || (0x2000 <= n
        && n <= 0x200a) || n == 0x2028 || n == 0x2029 || n == 0x202f || n == 0x205f || n == 0x3000
}

/// The control characters: the general category `Cc`.
pub open spec fn control(c: char) -> bool {
    c as u32 <= 0x1f || 0x7f <= c as u32 <= 0x9f
}

pub fn is_control(c: char) -> (r: bool)
    ensures
        r == control(c),
{
    let n: u32 = c as u32;
    n <= 0x1f || (0x7f <= n && n <= 0x9f)
}

/// A character with `A` to `Z` folded to `a` to `z`.
pub open spec fn ascii_lower(c: char) -> char {
    if 'A' <= c <= 'Z' {
        (c as u32 + 32) as char
    } else {
        c
    }
}

pub fn to_ascii_lower(c: char) -> (r: char)
    ensures
        r == ascii_lower(c),
{
    if 'A' <= c && c <= 'Z' {
        ((c as u8) + 32) as char
    } else {
        c
    }
}

/// A text with every ASCII letter in lower case.
pub open spec fn lower(s: Seq<char>) -> Seq<char> {
    s.map_values(|c: char| ascii_lower(c))
}

// ---------------------------------------------------------------------------
// Strings and vectors of characters
// ---------------------------------------------------------------------------

/// The characters of a string.
pub fn chars_of(s: &str) -> (v: Vec<char>)
    ensures
        v@ == s@,
{
    let mut v: Vec<char> = Vec::new();
    for c in it: s.chars()
        invariant
            it.seq() == s@,
            v@ == s@.take(it.index() as int),
    {
        v.push(c);
    }
    v
}

/// A string made of the given characters.
pub fn string_of(v: &Vec<char>) -> (s: String)
    ensures
        s@ == v@,
{
    let mut s = String::new();
    let mut i: usize = 0;
    while i < v.len()
        invariant
            i <= v.len(),
            s@ == v@.take(i as int),
        decreases v.len() - i,
    {
        s.push(v[i]);
        i = i + 1;
        assert(v@.take(i as int) =~= v@.take(i - 1).push(v@[i - 1]));
    }
    assert(v@.take(v@.len() as int) =~= v@);
    s
}

/// A copy of a string.
pub fn copy(s: &str) -> (r: String)
    ensures
        r@ == s@,
{
    s.to_owned()
}

/// The views of a sequence of strings.
pub open spec fn texts(v: Seq<String>) -> Seq<Seq<char>> {
    v.map_values(|s: String| s@)
}

/// A copy of a list of strings.
pub fn copy_all(v: &Vec<String>) -> (r: Vec<String>)
    ensures
        texts(r@) == texts(v@),
{
    let mut r: Vec<String> = Vec::new();
    let mut i: usize = 0;
    while i < v.len()
        invariant
            i <= v.len(),
            r.len() == i,
            forall|k: int| 0 <= k < i ==> (#[trigger] r@[k])@ == v@[k]@,
        decreases v.len() - i,
    {
        r.push(copy(v[i].as_str()));
        i = i + 1;
    }
    assert(texts(r@) =~= texts(v@));
    r
}

/// Equality of two strings by their characters.
pub fn same(a: &str, b: &str) -> (r: bool)
    ensures
        r == (a@ == b@),
{
    let left = chars_of(a);
    let right = chars_of(b);
    same_chars(&left, &right)
}

/// Equality of two vectors of characters.
pub fn same_chars(a: &Vec<char>, b: &Vec<char>) -> (r: bool)
    ensures
        r == (a@ == b@),
{
    if a.len() != b.len() {
        return false;
    }
    let mut i: usize = 0;
    while i < a.len()
        invariant
            i <= a.len(),
            a.len() == b.len(),
            forall|k: int| 0 <= k < i ==> a@[k] == b@[k],
        decreases a.len() - i,
    {
        if a[i] != b[i] {
            return false;
        }
        i = i + 1;
    }
    assert(a@ =~= b@);
    true
}

/// The number of bytes a text takes in UTF-8.
pub open spec fn byte_len(s: Seq<char>) -> nat {
    vstd::utf8::encode_utf8(s).len()
}

/// The length of a string in bytes.
pub fn bytes_in(s: &str) -> (n: usize)
    ensures
        n == byte_len(s@),
{
    s.as_bytes().len()
}

// ---------------------------------------------------------------------------
// Trimming
// ---------------------------------------------------------------------------

/// A text without its leading white space.
pub open spec fn trim_start(s: Seq<char>) -> Seq<char>
    decreases s.len(),
{
    if s.len() > 0 && white_space(s[0]) {
        trim_start(s.drop_first())
    } else {
        s
    }
}

/// A text without its trailing white space.
pub open spec fn trim_end(s: Seq<char>) -> Seq<char>
    decreases s.len(),
{
    if s.len() > 0 && white_space(s.last()) {
        trim_end(s.drop_last())
    } else {
        s
    }
}

/// A text without the white space at either end.
pub open spec fn trim(s: Seq<char>) -> Seq<char> {
    trim_end(trim_start(s))
}

/// Whether a text is nothing but white space.
pub open spec fn blank(s: Seq<char>) -> bool {
    forall|i: int| 0 <= i < s.len() ==> white_space(#[trigger] s[i])
}

/// A run of characters copied out of a vector.
pub fn slice_of(v: &Vec<char>, from: usize, to: usize) -> (r: Vec<char>)
    requires
        from <= to <= v.len(),
    ensures
        r@ == v@.subrange(from as int, to as int),
{
    let mut r: Vec<char> = Vec::new();
    let mut i: usize = from;
    while i < to
        invariant
            from <= i <= to <= v.len(),
            r@ == v@.subrange(from as int, i as int),
        decreases to - i,
    {
        r.push(v[i]);
        i = i + 1;
        assert(v@.subrange(from as int, i as int) =~= v@.subrange(from as int, i - 1).push(
            v@[i - 1],
        ));
    }
    r
}

pub fn trimmed_chars(v: &Vec<char>) -> (r: Vec<char>)
    ensures
        r@ == trim(v@),
{
    let mut a: usize = 0;
    assert(v@.skip(0) =~= v@);
    while a < v.len() && is_white_space(v[a])
        invariant
            a <= v.len(),
            trim_start(v@) == trim_start(v@.skip(a as int)),
        decreases v.len() - a,
    {
        assert(v@.skip(a as int).drop_first() =~= v@.skip(a + 1));
        a = a + 1;
    }
    assert(trim_start(v@) == v@.skip(a as int));
    let ghost rest = v@.skip(a as int);
    let mut b: usize = v.len();
    assert(v@.subrange(a as int, b as int) =~= rest);
    while a < b && is_white_space(v[b - 1])
        invariant
            a <= b <= v.len(),
            trim_end(rest) == trim_end(v@.subrange(a as int, b as int)),
        decreases b,
    {
        assert(v@.subrange(a as int, b as int).drop_last() =~= v@.subrange(a as int, b - 1));
        b = b - 1;
    }
    slice_of(v, a, b)
}

/// `s` without the white space at either end.
pub fn trimmed(s: &str) -> (r: String)
    ensures
        r@ == trim(s@),
{
    let v = chars_of(s);
    string_of(&trimmed_chars(&v))
}

/// Trimming leaves nothing exactly when there was only white space.
pub proof fn lemma_trim_blank(s: Seq<char>)
    ensures
        trim(s).len() == 0 <==> blank(s),
{
    lemma_trim_start_blank(s);
    lemma_trim_end_blank(trim_start(s));
}

proof fn lemma_trim_start_blank(s: Seq<char>)
    ensures
        blank(trim_start(s)) <==> blank(s),
    decreases s.len(),
{
    if s.len() > 0 && white_space(s[0]) {
        let t = s.drop_first();
        lemma_trim_start_blank(t);
        if blank(t) {
            assert forall|i: int| 0 <= i < s.len() implies white_space(#[trigger] s[i]) by {
                if i > 0 {
                    assert(s[i] == t[i - 1]);
                }
            }
        }
        if blank(s) {
            assert forall|i: int| 0 <= i < t.len() implies white_space(#[trigger] t[i]) by {
                assert(t[i] == s[i + 1]);
            }
        }
    }
}

proof fn lemma_trim_end_blank(s: Seq<char>)
    ensures
        trim_end(s).len() == 0 <==> blank(s),
    decreases s.len(),
{
    if s.len() > 0 && white_space(s.last()) {
        let t = s.drop_last();
        lemma_trim_end_blank(t);
        if blank(t) {
            assert forall|i: int| 0 <= i < s.len() implies white_space(#[trigger] s[i]) by {
                if i < t.len() {
                    assert(s[i] == t[i]);
                }
            }
        }
        if blank(s) {
            assert forall|i: int| 0 <= i < t.len() implies white_space(#[trigger] t[i]) by {
                assert(t[i] == s[i]);
            }
        }
    } else if s.len() > 0 {
        assert(!white_space(s[s.len() - 1]));
    }
}

// ---------------------------------------------------------------------------
// Searching
// ---------------------------------------------------------------------------

/// Whether `p` stands in `s` at index `i`.
pub open spec fn occurs_at(s: Seq<char>, p: Seq<char>, i: int) -> bool {
    0 <= i && i + p.len() <= s.len() && s.subrange(i, i + p.len()) == p
}

/// Whether `p` stands anywhere in `s`.
pub open spec fn contains(s: Seq<char>, p: Seq<char>) -> bool {
    exists|i: int| occurs_at(s, p, i)
}

pub open spec fn starts_with(s: Seq<char>, p: Seq<char>) -> bool {
    occurs_at(s, p, 0)
}

pub open spec fn ends_with(s: Seq<char>, p: Seq<char>) -> bool {
    occurs_at(s, p, s.len() - p.len())
}

/// The index of the first place where `p` stands in `s`.
pub open spec fn is_first(s: Seq<char>, p: Seq<char>, i: int) -> bool {
    occurs_at(s, p, i) && forall|j: int| 0 <= j < i ==> !occurs_at(s, p, j)
}

pub fn is_at(s: &Vec<char>, p: &Vec<char>, i: usize) -> (r: bool)
    ensures
        r == occurs_at(s@, p@, i as int),
{
    if i > s.len() || p.len() > s.len() - i {
        return false;
    }
    let mut k: usize = 0;
    while k < p.len()
        invariant
            k <= p.len(),
            i + p.len() <= s.len(),
            forall|j: int| 0 <= j < k ==> s@[i + j] == p@[j],
        decreases p.len() - k,
    {
        if s[i + k] != p[k] {
            assert(s@.subrange(i as int, i + p.len())[k as int] != p@[k as int]);
            return false;
        }
        k = k + 1;
    }
    assert(s@.subrange(i as int, i + p.len()) =~= p@);
    true
}

/// Where `p` first stands in `s` at or after `from`.
pub fn find_from(s: &Vec<char>, p: &Vec<char>, from: usize) -> (r: Option<usize>)
    requires
        from <= s.len(),
    ensures
        match r {
            Some(i) => from <= i && occurs_at(s@, p@, i as int) && forall|j: int|
                from <= j < i ==> !occurs_at(s@, p@, j),
            None => forall|j: int| from <= j ==> !occurs_at(s@, p@, j),
        },
{
    let mut i: usize = from;
    while i < s.len()
        invariant
            from <= i <= s.len(),
            forall|j: int| from <= j < i ==> !occurs_at(s@, p@, j),
        decreases s.len() - i,
    {
        if is_at(s, p, i) {
            return Some(i);
        }
        i = i + 1;
    }
    if is_at(s, p, i) {
        return Some(i);
    }
    None
}

/// Where `p` first stands in `s`.
pub fn find_chars(s: &Vec<char>, p: &Vec<char>) -> (r: Option<usize>)
    ensures
        match r {
            Some(i) => is_first(s@, p@, i as int),
            None => !contains(s@, p@),
        },
{
    find_from(s, p, 0)
}

/// Whether `p` stands anywhere in `s`.
pub fn has(s: &str, p: &str) -> (r: bool)
    ensures
        r == contains(s@, p@),
{
    let s = chars_of(s);
    let p = chars_of(p);
    match find_chars(&s, &p) {
        Some(_) => true,
        None => false,
    }
}

/// Whether `s` begins with `p`.
pub fn begins(s: &str, p: &str) -> (r: bool)
    ensures
        r == starts_with(s@, p@),
{
    let s = chars_of(s);
    let p = chars_of(p);
    is_at(&s, &p, 0)
}

/// Whether `s` ends with `p`.
pub fn finishes(s: &str, p: &str) -> (r: bool)
    ensures
        r == ends_with(s@, p@),
{
    let s = chars_of(s);
    let p = chars_of(p);
    if p.len() > s.len() {
        return false;
    }
    is_at(&s, &p, s.len() - p.len())
}

/// The index of the first `c` at or after `from`, or the length of the text.
pub open spec fn next_char(s: Seq<char>, c: char, from: int) -> int
    decreases s.len() - from,
{
    if from >= s.len() {
        s.len() as int
    } else if s[from] == c {
        from
    } else {
        next_char(s, c, from + 1)
    }
}

pub fn position(s: &Vec<char>, c: char, from: usize) -> (r: usize)
    requires
        from <= s.len(),
    ensures
        r == next_char(s@, c, from as int),
        from <= r <= s.len(),
        r < s.len() ==> s@[r as int] == c,
        forall|j: int| from <= j < r ==> s@[j] != c,
{
    let mut i: usize = from;
    while i < s.len() && s[i] != c
        invariant
            from <= i <= s.len(),
            next_char(s@, c, from as int) == next_char(s@, c, i as int),
            forall|j: int| from <= j < i ==> s@[j] != c,
        decreases s.len() - i,
    {
        i = i + 1;
    }
    i
}

// ---------------------------------------------------------------------------
// Lines
// ---------------------------------------------------------------------------

/// A text without one trailing carriage return.
pub open spec fn without_cr(s: Seq<char>) -> Seq<char> {
    if s.len() > 0 && s.last() == '\r' {
        s.drop_last()
    } else {
        s
    }
}

/// The lines of the part of `s` from `from` on. A line ends in a line feed, or
/// in a carriage return and a line feed, which are not part of it; the ending
/// of the last line may be absent.
pub open spec fn lines_from(s: Seq<char>, from: int) -> Seq<Seq<char>>
    decreases s.len() - from,
    when 0 <= from
    via lines_from_decreases
{
    if from >= s.len() {
        seq![]
    } else {
        let end = next_char(s, '\n', from);
        if end >= s.len() {
            seq![s.subrange(from, s.len() as int)]
        } else {
            seq![without_cr(s.subrange(from, end))] + lines_from(s, end + 1)
        }
    }
}

#[via_fn]
proof fn lines_from_decreases(s: Seq<char>, from: int) {
    lemma_next_char_range(s, '\n', from);
}

pub proof fn lemma_next_char_range(s: Seq<char>, c: char, from: int)
    requires
        0 <= from,
    ensures
        from <= s.len() ==> from <= next_char(s, c, from) <= s.len(),
        from > s.len() ==> next_char(s, c, from) == s.len(),
        from <= next_char(s, c, from) < s.len() ==> s[next_char(s, c, from)] == c,
    decreases s.len() - from,
{
    if from < s.len() && s[from] != c {
        lemma_next_char_range(s, c, from + 1);
    }
}

/// The lines of a text.
pub open spec fn lines(s: Seq<char>) -> Seq<Seq<char>> {
    lines_from(s, 0)
}

/// The views of a sequence of vectors of characters.
pub open spec fn rows(v: Seq<Vec<char>>) -> Seq<Seq<char>> {
    v.map_values(|s: Vec<char>| s@)
}

pub fn lines_of(s: &Vec<char>) -> (r: Vec<Vec<char>>)
    ensures
        rows(r@) == lines(s@),
{
    let mut r: Vec<Vec<char>> = Vec::new();
    let mut from: usize = 0;
    assert(rows(r@) + lines_from(s@, 0) =~= lines(s@));
    while from < s.len()
        invariant
            from <= s.len(),
            rows(r@) + lines_from(s@, from as int) == lines(s@),
        decreases s.len() - from,
    {
        let end = position(s, '\n', from);
        let ghost before = rows(r@);
        let line = if end < s.len() && end > from && s[end - 1] == '\r' {
            slice_of(s, from, end - 1)
        } else {
            slice_of(s, from, end)
        };
        proof {
            let whole = s@.subrange(from as int, end as int);
            if end < s.len() {
                if end > from && s@[end - 1] == '\r' {
                    assert(whole.drop_last() =~= line@);
                }
                assert(line@ == without_cr(whole));
            }
        }
        let ghost seen = line@;
        r.push(line);
        assert(rows(r@) =~= before.push(seen));
        if end < s.len() {
            proof {
                assert(lines_from(s@, from as int) == seq![seen] + lines_from(s@, end + 1));
                assert(before + (seq![seen] + lines_from(s@, end + 1)) =~= before.push(seen)
                    + lines_from(s@, end + 1));
            }
            from = end + 1;
        } else {
            proof {
                assert(lines_from(s@, from as int) == seq![seen]);
                assert(before + seq![seen] =~= before.push(seen));
                assert(lines_from(s@, s@.len() as int) == Seq::<Seq<char>>::empty());
                assert(before.push(seen) + Seq::<Seq<char>>::empty() =~= before.push(seen));
            }
            from = s.len();
        }
    }
    assert(rows(r@) + Seq::<Seq<char>>::empty() =~= rows(r@));
    r
}

// ---------------------------------------------------------------------------
// Decimal numbers
// ---------------------------------------------------------------------------

pub open spec fn digit(d: nat) -> char {
    (48 + d) as char
}

pub open spec fn is_digit(c: char) -> bool {
    '0' <= c <= '9'
}

pub open spec fn digit_value(c: char) -> nat {
    (c as u32 - 48) as nat
}

/// A number in decimal, without leading zeros.
pub open spec fn decimal(n: nat) -> Seq<char>
    decreases n,
{
    if n < 10 {
        seq![digit(n)]
    } else {
        decimal(n / 10).push(digit(n % 10))
    }
}

pub fn digit_char(d: u8) -> (c: char)
    requires
        d < 10,
    ensures
        c == digit(d as nat),
{
    (48 + d) as char
}

pub fn decimal_chars(n: u64) -> (v: Vec<char>)
    ensures
        v@ == decimal(n as nat),
    decreases n,
{
    if n < 10 {
        let mut v: Vec<char> = Vec::new();
        v.push(digit_char(n as u8));
        assert(v@ =~= decimal(n as nat));
        v
    } else {
        let mut v = decimal_chars(n / 10);
        v.push(digit_char((n % 10) as u8));
        v
    }
}

/// `n` in decimal.
pub fn decimal_of(n: u64) -> (s: String)
    ensures
        s@ == decimal(n as nat),
{
    string_of(&decimal_chars(n))
}

/// Whether a text is one or more decimal digits.
pub open spec fn all_digits(s: Seq<char>) -> bool {
    s.len() > 0 && forall|i: int| 0 <= i < s.len() ==> is_digit(#[trigger] s[i])
}

/// The number a row of digits stands for.
pub open spec fn value(s: Seq<char>) -> nat
    decreases s.len(),
{
    if s.len() == 0 {
        0
    } else {
        value(s.drop_last()) * 10 + digit_value(s.last())
    }
}

/// A text without one leading plus sign.
pub open spec fn without_plus(s: Seq<char>) -> Seq<char> {
    if s.len() > 0 && s[0] == '+' {
        s.drop_first()
    } else {
        s
    }
}

/// An unsigned number of at most `max`, written as one or more digits behind
/// an optional plus sign.
pub open spec fn unsigned(s: Seq<char>, max: nat) -> Option<nat> {
    let t = without_plus(s);
    if all_digits(t) && value(t) <= max {
        Some(value(t))
    } else {
        None
    }
}

proof fn lemma_value_grows(s: Seq<char>, k: int)
    requires
        0 <= k <= s.len(),
    ensures
        value(s.take(k)) <= value(s),
    decreases s.len(),
{
    if k == s.len() {
        assert(s.take(k) =~= s);
    } else {
        lemma_value_grows(s.drop_last(), k);
        assert(s.drop_last().take(k) =~= s.take(k));
    }
}

pub fn parse_unsigned(s: &Vec<char>, max: u64) -> (r: Option<u64>)
    ensures
        match r {
            Some(n) => unsigned(s@, max as nat) == Some(n as nat),
            None => unsigned(s@, max as nat) is None,
        },
{
    let start: usize = if s.len() > 0 && s[0] == '+' {
        1
    } else {
        0
    };
    let ghost t = without_plus(s@);
    assert(t =~= s@.skip(start as int));
    if start == s.len() {
        return None;
    }
    let mut i: usize = start;
    let mut n: u64 = 0;
    assert(t.take(0) =~= Seq::<char>::empty());
    while i < s.len()
        invariant
            start <= i <= s.len(),
            start < s.len(),
            t == without_plus(s@),
            t == s@.skip(start as int),
            n == value(t.take(i - start)),
            n <= max,
            forall|k: int| 0 <= k < i - start ==> is_digit(#[trigger] t[k]),
        decreases s.len() - i,
    {
        let c = s[i];
        assert(c == t[i - start]);
        if c < '0' || c > '9' {
            assert(!is_digit(t[i - start]));
            return None;
        }
        let d: u64 = (c as u8 - 48) as u64;
        proof {
            let k = i - start;
            assert(t.take(k + 1).drop_last() =~= t.take(k));
            assert(value(t.take(k + 1)) == n * 10 + d);
            lemma_value_grows(t, k + 1);
        }
        if d > max || n > (max - d) / 10 {
            return None;
        }
        n = n * 10 + d;
        i = i + 1;
    }
    assert(t.take(t.len() as int) =~= t);
    Some(n)
}

/// A number written in decimal is read back as itself.
pub proof fn law_decimal_round_trip(n: nat, max: nat)
    requires
        n <= max,
    ensures
        unsigned(decimal(n), max) == Some(n),
{
    lemma_decimal_digits(n);
    assert(decimal(n)[0] != '+');
}

pub proof fn lemma_decimal_digits(n: nat)
    ensures
        all_digits(decimal(n)),
        value(decimal(n)) == n,
    decreases n,
{
    if n < 10 {
        assert(decimal(n).drop_last() =~= Seq::<char>::empty());
        reveal_with_fuel(value, 2);
    } else {
        lemma_decimal_digits(n / 10);
        let s = decimal(n);
        assert(s.drop_last() =~= decimal(n / 10));
        assert forall|i: int| 0 <= i < s.len() implies is_digit(#[trigger] s[i]) by {
            if i < s.len() - 1 {
                assert(s[i] == decimal(n / 10)[i]);
            }
        }
    }
}

/// A number that may be negative, in decimal.
pub open spec fn signed_decimal(n: int) -> Seq<char> {
    if n < 0 {
        seq!['-'] + decimal((-n) as nat)
    } else {
        decimal(n as nat)
    }
}

/// `n` in decimal.
pub fn signed_decimal_of(n: i32) -> (s: String)
    ensures
        s@ == signed_decimal(n as int),
{
    if n < 0 {
        let mut s = String::new();
        s.push('-');
        let d = decimal_of((-(n as i64)) as u64);
        s.push_str(d.as_str());
        assert(s@ =~= signed_decimal(n as int));
        s
    } else {
        decimal_of(n as u64)
    }
}

// ---------------------------------------------------------------------------
// Joining
// ---------------------------------------------------------------------------

/// Texts in a row with a separator between them.
pub open spec fn join(parts: Seq<Seq<char>>, sep: Seq<char>) -> Seq<char>
    decreases parts.len(),
{
    if parts.len() == 0 {
        seq![]
    } else if parts.len() == 1 {
        parts[0]
    } else {
        join(parts.drop_last(), sep) + sep + parts.last()
    }
}

pub fn joined(parts: &Vec<String>, sep: &str) -> (s: String)
    ensures
        s@ == join(texts(parts@), sep@),
{
    let ghost all = texts(parts@);
    let mut s = String::new();
    let mut i: usize = 0;
    assert(s@ =~= join(all.take(0), sep@));
    while i < parts.len()
        invariant
            i <= parts.len(),
            all == texts(parts@),
            s@ == join(all.take(i as int), sep@),
        decreases parts.len() - i,
    {
        assert(all.take(i + 1).drop_last() =~= all.take(i as int));
        if i > 0 {
            s.push_str(sep);
        }
        s.push_str(parts[i].as_str());
        assert(all.take(i + 1).last() == parts@[i as int]@);
        i = i + 1;
        assert(s@ =~= join(all.take(i as int), sep@));
    }
    assert(all.take(all.len() as int) =~= all);
    s
}

// ---------------------------------------------------------------------------
// Bytes
// ---------------------------------------------------------------------------

/// How many bytes a character takes in UTF-8.
pub open spec fn char_bytes(c: char) -> nat {
    if c as u32 <= 0x7f {
        1
    } else if c as u32 <= 0x7ff {
        2
    } else if c as u32 <= 0xffff {
        3
    } else {
        4
    }
}

pub fn char_width(c: char) -> (n: usize)
    ensures
        n == char_bytes(c),
        1 <= n <= 4,
{
    let v: u32 = c as u32;
    if v <= 0x7f {
        1
    } else if v <= 0x7ff {
        2
    } else if v <= 0xffff {
        3
    } else {
        4
    }
}

/// The bytes of a text are those of its first character and of the rest.
pub proof fn lemma_byte_len_step(s: Seq<char>)
    requires
        s.len() > 0,
    ensures
        byte_len(s) == char_bytes(s[0]) + byte_len(s.drop_first()),
{
    vstd::utf8::char_is_scalar(s[0]);
}

/// The part of a text from the first place on that leaves at most `max` bytes.
pub open spec fn last_bytes(s: Seq<char>, max: nat) -> Seq<char>
    decreases s.len(),
{
    if byte_len(s) <= max || s.len() == 0 {
        s
    } else {
        last_bytes(s.drop_first(), max)
    }
}

/// Cutting leaves no more than the limit, and keeps the end of the text.
pub proof fn lemma_last_bytes(s: Seq<char>, max: nat)
    ensures
        byte_len(last_bytes(s, max)) <= max,
        exists|k: int| 0 <= k <= s.len() && last_bytes(s, max) == #[trigger] s.skip(k),
    decreases s.len(),
{
    if byte_len(s) <= max || s.len() == 0 {
        assert(s.skip(0) =~= s);
    } else {
        let t = s.drop_first();
        lemma_last_bytes(t, max);
        let k = choose|k: int| 0 <= k <= t.len() && last_bytes(t, max) == #[trigger] t.skip(k);
        assert(t.skip(k) =~= s.skip(k + 1));
    }
}

/// The part of a text that [`last_bytes`] leaves.
pub fn cut_front(s: &str, max: usize) -> (r: String)
    ensures
        r@ == last_bytes(s@, max as nat),
{
    let v = chars_of(s);
    let mut left: usize = bytes_in(s);
    let mut k: usize = 0;
    assert(v@.skip(0) =~= v@);
    while k < v.len() && left > max
        invariant
            k <= v.len(),
            v@ == s@,
            left == byte_len(v@.skip(k as int)),
            last_bytes(v@, max as nat) == last_bytes(v@.skip(k as int), max as nat),
        decreases v.len() - k,
    {
        proof {
            lemma_byte_len_step(v@.skip(k as int));
            assert(v@.skip(k as int).drop_first() =~= v@.skip(k + 1));
        }
        left = left - char_width(v[k]);
        k = k + 1;
    }
    let rest = slice_of(&v, k, v.len());
    assert(rest@ =~= v@.skip(k as int));
    string_of(&rest)
}

// ---------------------------------------------------------------------------
// Laws of texts
// ---------------------------------------------------------------------------

/// The white space of ASCII is the space and the five characters from the tab
/// to the carriage return.
pub proof fn law_ascii_white_space(c: char)
    requires
        (c as u32) < 0x80,
    ensures
        white_space(c) <==> c == ' ' || c == '\t' || c == '\n' || c == '\r' || c as u32 == 0x0b
            || c as u32 == 0x0c,
{
}

/// Trimming takes white space off both ends and nothing else: what is left is a
/// part of the text, what is gone on either side is white space, and neither
/// end of what is left is.
pub proof fn law_trim_keeps_the_middle(s: Seq<char>)
    ensures
        exists|from: int, to: int|
            0 <= from <= to <= s.len() && trim(s) == #[trigger] s.subrange(from, to) && (forall|
                i: int,
            |
                0 <= i < from || to <= i < s.len() ==> white_space(#[trigger] s[i])) && (from < to
                ==> !white_space(s[from]) && !white_space(s[to - 1])),
{
    let from = lemma_trim_start_is_skip(s);
    let t = s.skip(from);
    let n = lemma_trim_end_is_take(t);
    assert(t.take(n) =~= s.subrange(from, from + n));
    assert forall|i: int| 0 <= i < from || from + n <= i < s.len() implies white_space(
        #[trigger] s[i],
    ) by {
        if i >= from + n {
            assert(t[i - from] == s[i]);
        }
    }
    if n > 0 {
        assert(t[0] == s[from]);
        assert(t[n - 1] == s[from + n - 1]);
    }
}

proof fn lemma_trim_start_is_skip(s: Seq<char>) -> (from: int)
    ensures
        0 <= from <= s.len(),
        trim_start(s) == s.skip(from),
        forall|i: int| 0 <= i < from ==> white_space(#[trigger] s[i]),
        from < s.len() ==> !white_space(s[from]),
    decreases s.len(),
{
    if s.len() > 0 && white_space(s[0]) {
        let rest = s.drop_first();
        let n = lemma_trim_start_is_skip(rest);
        assert(rest.skip(n) =~= s.skip(n + 1));
        assert forall|i: int| 0 <= i < n + 1 implies white_space(#[trigger] s[i]) by {
            if i > 0 {
                assert(rest[i - 1] == s[i]);
            }
        }
        if n < rest.len() {
            assert(rest[n] == s[n + 1]);
        }
        n + 1
    } else {
        assert(s.skip(0) =~= s);
        0
    }
}

proof fn lemma_trim_end_is_take(s: Seq<char>) -> (n: int)
    ensures
        0 <= n <= s.len(),
        trim_end(s) == s.take(n),
        forall|i: int| n <= i < s.len() ==> white_space(#[trigger] s[i]),
        n > 0 ==> !white_space(s[n - 1]),
    decreases s.len(),
{
    if s.len() > 0 && white_space(s.last()) {
        let rest = s.drop_last();
        let n = lemma_trim_end_is_take(rest);
        assert(rest.take(n) =~= s.take(n));
        assert forall|i: int| n <= i < s.len() implies white_space(#[trigger] s[i]) by {
            if i < rest.len() {
                assert(rest[i] == s[i]);
            }
        }
        if n > 0 {
            assert(rest[n - 1] == s[n - 1]);
        }
        n
    } else {
        assert(s.take(s.len() as int) =~= s);
        s.len() as int
    }
}

/// Lower case changes the letters `A` to `Z` to those of `a` to `z`, each to its
/// own, and keeps every other character and every place.
pub proof fn law_lower_changes_capitals_alone(s: Seq<char>, i: int)
    requires
        0 <= i < s.len(),
    ensures
        lower(s).len() == s.len(),
        0x41 <= s[i] as u32 <= 0x5a ==> lower(s)[i] == (s[i] as u32 + 0x20) as char,
        !(0x41 <= s[i] as u32 <= 0x5a) ==> lower(s)[i] == s[i],
{
}

/// A decimal number holds nothing but the digits from `0` to `9`, does not begin
/// in a zero but where it is one alone, and its digits stand for their places.
pub proof fn law_decimal_has_places(n: nat)
    ensures
        forall|i: int|
            0 <= i < decimal(n).len() ==> 0x30 <= (#[trigger] decimal(n)[i]) as u32 <= 0x39,
        decimal(n).len() > 0,
        n > 0 ==> decimal(n)[0] as u32 != 0x30,
        n < 10 ==> decimal(n) == seq![(0x30 + n) as char],
        n >= 10 ==> decimal(n).drop_last() == decimal(n / 10) && decimal(n).last() as u32 == 0x30
            + n % 10,
    decreases n,
{
    lemma_decimal_digits(n);
    assert forall|i: int| 0 <= i < decimal(n).len() implies 0x30 <= (
    #[trigger] decimal(n)[i]) as u32 <= 0x39 by {
        assert(is_digit(decimal(n)[i]));
    }
    if n >= 10 {
        law_decimal_has_places(n / 10);
        assert(decimal(n).drop_last() =~= decimal(n / 10));
        assert(decimal(n)[0] == decimal(n / 10)[0]);
    }
}

/// A number is read only from digits, behind one plus sign at most, and not
/// where it is more than the most: with one digit more it is ten times as much
/// and that digit.
pub proof fn law_unsigned_reads_digits(s: Seq<char>, c: char, max: nat)
    ensures
        unsigned(s, max) matches Some(n) ==> n <= max && s.len() > 0 && forall|i: int|
            0 <= i < s.len() ==> 0x30 <= (#[trigger] s[i]) as u32 <= 0x39 || (i == 0 && s[i]
                == '+'),
        0x30 <= c as u32 <= 0x39 ==> (unsigned(seq![c], max) == if c as u32 - 0x30 <= max {
            Some((c as u32 - 0x30) as nat)
        } else {
            None
        }),
        !(0x30 <= c as u32 <= 0x39) ==> unsigned(s.push(c), max) is None,
        (0x30 <= c as u32 <= 0x39 && s.len() > 0 && s != seq!['+']) ==> (unsigned(s.push(c), max)
            == match unsigned(s, max) {
            Some(n) => if n * 10 + (c as u32 - 0x30) <= max {
                Some((n * 10 + (c as u32 - 0x30)) as nat)
            } else {
                None
            },
            None => None,
        }),
{
    let t = without_plus(s);
    if unsigned(s, max) is Some {
        assert forall|i: int| 0 <= i < s.len() implies 0x30 <= (#[trigger] s[i]) as u32 <= 0x39 || (
        i == 0 && s[i] == '+') by {
            if s[0] == '+' {
                if i > 0 {
                    assert(is_digit(t[i - 1]));
                }
            } else {
                assert(is_digit(t[i]));
            }
        }
    }
    let one = seq![c];
    assert(one.drop_last() =~= Seq::<char>::empty());
    reveal_with_fuel(value, 2);
    let more = s.push(c);
    let u = without_plus(more);
    if s.len() > 0 {
        assert(u =~= t.push(c));
    }
    if !is_digit(c) {
        if c == '+' && s.len() == 0 {
            assert(u =~= Seq::<char>::empty());
        } else {
            assert(u.last() == c);
            assert(u.len() > 0 ==> !is_digit(u[u.len() - 1]));
        }
    } else if s.len() > 0 && s != seq!['+'] {
        assert(t.len() > 0) by {
            if t.len() == 0 {
                assert(s =~= seq!['+']);
            }
        }
        assert(u.drop_last() =~= t);
        assert(value(u) == value(t) * 10 + digit_value(c));
        if all_digits(t) {
            assert forall|i: int| 0 <= i < u.len() implies is_digit(#[trigger] u[i]) by {
                if i < t.len() {
                    assert(u[i] == t[i]);
                }
            }
        } else {
            let i = choose|i: int| 0 <= i < t.len() && !is_digit(#[trigger] t[i]);
            assert(u[i] == t[i]);
        }
    }
}

/// A list is joined with the separator between each two and nowhere else.
pub proof fn law_join_parts_each_two(parts: Seq<Seq<char>>, p: Seq<char>, sep: Seq<char>)
    ensures
        join(seq![], sep) == Seq::<char>::empty(),
        join(seq![p], sep) == p,
        parts.len() > 0 ==> join(parts.push(p), sep) == join(parts, sep) + sep + p,
{
    assert(parts.push(p).drop_last() =~= parts);
}

/// The lines of a text, each with a line feed behind it, are the text again
/// where it ends in one, and all but the last feed where it does not; a carriage
/// return before a feed is the only thing that is lost.
pub proof fn law_lines_hold_the_text(s: Seq<char>)
    requires
        forall|i: int| 0 <= i < s.len() ==> s[i] != '\r',
    ensures
        forall|i: int, j: int|
            0 <= i < lines(s).len() && 0 <= j < lines(s)[i].len() ==> #[trigger] lines(s)[i][j]
                != '\n',
        s.len() > 0 && s.last() == '\n' ==> fed(lines(s)) == s,
        s.len() > 0 && s.last() != '\n' ==> fed(lines(s)) == s.push('\n'),
        s.len() == 0 ==> lines(s).len() == 0,
{
    lemma_lines_fed(s, 0);
    assert(s.skip(0) =~= s);
}

/// Lines with a line feed behind each.
pub open spec fn fed(rows: Seq<Seq<char>>) -> Seq<char>
    decreases rows.len(),
{
    if rows.len() == 0 {
        Seq::empty()
    } else {
        rows[0].push('\n') + fed(rows.skip(1))
    }
}

proof fn lemma_lines_fed(s: Seq<char>, from: int)
    requires
        0 <= from <= s.len(),
        forall|i: int| 0 <= i < s.len() ==> s[i] != '\r',
    ensures
        forall|i: int, j: int|
            0 <= i < lines_from(s, from).len() && 0 <= j < lines_from(s, from)[i].len()
                ==> #[trigger] lines_from(s, from)[i][j] != '\n',
        from < s.len() ==> fed(lines_from(s, from)) == if s.last() == '\n' {
            s.skip(from)
        } else {
            s.skip(from).push('\n')
        },
    decreases s.len() - from,
{
    if from < s.len() {
        let end = next_char(s, '\n', from);
        lemma_next_char_range(s, '\n', from);
        lemma_none_before(s, '\n', from);
        let all = lines_from(s, from);
        if end >= s.len() {
            let line = s.subrange(from, s.len() as int);
            assert(all.skip(1) =~= Seq::<Seq<char>>::empty());
            assert(fed(all.skip(1)) =~= Seq::<char>::empty());
            assert(fed(all) =~= s.skip(from).push('\n'));
            assert(s.last() != '\n');
        } else {
            lemma_lines_fed(s, end + 1);
            let line = s.subrange(from, end);
            let more = lines_from(s, end + 1);
            assert(without_cr(line) == line) by {
                if line.len() > 0 {
                    assert(line.last() == s[end - 1]);
                }
            }
            assert(all =~= seq![line] + more);
            assert(all.skip(1) =~= more);
            if end + 1 < s.len() {
                assert(line.push('\n') + s.skip(end + 1) =~= s.skip(from));
                assert(line.push('\n') + s.skip(end + 1).push('\n') =~= s.skip(from).push('\n'));
            } else {
                assert(fed(more) =~= Seq::<char>::empty());
                assert(line.push('\n') =~= s.skip(from));
                assert(fed(all) =~= s.skip(from));
            }
            assert forall|i: int, j: int|
                0 <= i < all.len() && 0 <= j < all[i].len() implies #[trigger] all[i][j] != '\n' by {
                if i == 0 {
                    assert(line[j] == s[from + j]);
                } else {
                    assert(all[i] == more[i - 1]);
                    assert(more[i - 1][j] != '\n');
                }
            }
        }
    }
}

proof fn lemma_none_before(s: Seq<char>, c: char, from: int)
    requires
        0 <= from <= s.len(),
    ensures
        forall|k: int| from <= k < next_char(s, c, from) ==> s[k] != c,
    decreases s.len() - from,
{
    if from < s.len() && s[from] != c {
        lemma_none_before(s, c, from + 1);
    }
}

/// A text that is cut at the front keeps its end, is cut only where it is too
/// long, and is cut no more than it takes.
pub proof fn law_cut_keeps_the_end(s: Seq<char>, max: nat)
    ensures
        vstd::utf8::encode_utf8(s).len() <= max ==> last_bytes(s, max) == s,
        exists|k: int|
            0 <= k <= s.len() && last_bytes(s, max) == #[trigger] s.skip(k)
                && vstd::utf8::encode_utf8(s.skip(k)).len() <= max && (k > 0
                ==> vstd::utf8::encode_utf8(s.skip(k - 1)).len() > max),
    decreases s.len(),
{
    assert(byte_len(Seq::empty()) == 0);
    if byte_len(s) <= max || s.len() == 0 {
        assert(s.skip(0) =~= s);
        assert(s.len() == 0 ==> s =~= Seq::empty());
    } else {
        let t = s.drop_first();
        law_cut_keeps_the_end(t, max);
        let k = choose|k: int|
            0 <= k <= t.len() && last_bytes(t, max) == #[trigger] t.skip(k)
                && vstd::utf8::encode_utf8(t.skip(k)).len() <= max && (k > 0
                ==> vstd::utf8::encode_utf8(t.skip(k - 1)).len() > max);
        assert(t.skip(k) =~= s.skip(k + 1));
        if k > 0 {
            assert(t.skip(k - 1) =~= s.skip(k));
        } else {
            assert(s.skip(0) =~= s);
        }
    }
}

/// A negative number is its amount behind a minus sign.
pub proof fn law_sign_stands_before_the_amount(n: int)
    ensures
        n >= 0 ==> signed_decimal(n) == decimal(n as nat),
        n < 0 ==> signed_decimal(n) == seq!['-'] + decimal((-n) as nat),
{
}

/// A text is found in another if and only if the other is made of something, the
/// text, and something more; at its front where nothing comes before, at its end
/// where nothing comes after.
pub proof fn law_parts_are_found(s: Seq<char>, p: Seq<char>, a: Seq<char>, b: Seq<char>, i: int)
    ensures
        occurs_at(a + p + b, p, a.len() as int),
        contains(a + p + b, p),
        starts_with(p + b, p),
        ends_with(a + p, p),
        occurs_at(s, p, i) ==> s == s.take(i) + p + s.skip(i + p.len()),
        starts_with(s, p) ==> s == p + s.skip(p.len() as int),
        ends_with(s, p) ==> s == s.take(s.len() - p.len()) + p,
{
    assert((a + p + b).subrange(a.len() as int, a.len() + p.len() as int) =~= p);
    assert((p + b).subrange(0, p.len() as int) =~= p);
    assert((a + p).subrange(a.len() as int, (a + p).len() as int) =~= p);
    if occurs_at(s, p, i) {
        assert(s =~= s.take(i) + s.subrange(i, i + p.len()) + s.skip(i + p.len()));
    }
    if starts_with(s, p) {
        assert(s =~= s.subrange(0, p.len() as int) + s.skip(p.len() as int));
    }
    if ends_with(s, p) {
        assert(s =~= s.take(s.len() - p.len()) + s.subrange(s.len() - p.len(), s.len() as int));
    }
}

/// The next place of a character: it stands there, and at no place before from
/// where the search began; where it stands nowhere, that is the end.
pub proof fn law_next_place_is_the_first(s: Seq<char>, c: char, from: int, k: int)
    requires
        0 <= from <= s.len(),
    ensures
        from <= next_char(s, c, from) <= s.len(),
        next_char(s, c, from) < s.len() ==> s[next_char(s, c, from)] == c,
        from <= k < next_char(s, c, from) ==> s[k] != c,
    decreases s.len() - from,
{
    if from < s.len() && s[from] != c {
        law_next_place_is_the_first(s, c, from + 1, k);
    }
}

/// The control characters are those below the space, and the 33 from "delete" on.
pub proof fn law_control_characters(c: char)
    ensures
        control(c) <==> (c as u32) < 32 || (127 <= c as u32 && (c as u32) < 160),
{
}

/// The texts of a list are those of its strings, in their order.
pub proof fn law_texts_are_those_of_the_strings(v: Seq<String>, i: int)
    requires
        0 <= i < v.len(),
    ensures
        texts(v).len() == v.len(),
        texts(v)[i] == v[i]@,
{
}

} // verus!
