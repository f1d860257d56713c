//! Character-level text helpers shared by the whole library.
//!
//! Text is modelled as `Seq<char>` (the view of `String` and `&str`).
//! Work inside the library is done on `Vec<char>`. The trusted items here
//! are the two conversions between `&str` and `Vec<char>` and three calls
//! into std's Unicode tables (lowercase, uppercase, alphanumeric), whose
//! results are named.
use vstd::prelude::*;

verus! {

// ---------------------------------------------------------------------
// Trusted conversions and Unicode case/class tables of std
// ---------------------------------------------------------------------

/// The characters of a string slice, in order (`str::chars` collected).
#[verifier::external_body]
pub(crate) fn chars_of(s: &str) -> (r: Vec<char>)
    ensures
        r@ == s@,
{
    s.chars().collect()
}

/// A `String` holding exactly the given characters (collecting a char slice).
#[verifier::external_body]
pub(crate) fn text_of(v: &[char]) -> (r: String)
    ensures
        r@ == v@,
{
    v.iter().collect()
}

/// What `str::to_lowercase` returns for a string: the Unicode lowercase
/// mapping, which takes the Unicode tables to state.
pub uninterp spec fn lowercase_of(s: Seq<char>) -> Seq<char>;

/// Calls `str::to_lowercase`; the result is named by `lowercase_of`.
#[verifier::external_body]
pub(crate) fn to_lowercase(s: &str) -> (r: String)
    ensures
        r@ == lowercase_of(s@),
{
    s.to_lowercase()
}

/// What `char::to_uppercase` yields for a character (one or more chars),
/// given by the Unicode tables.
pub uninterp spec fn uppercase_of(c: char) -> Seq<char>;

/// Calls `char::to_uppercase` and collects the characters it yields.
#[verifier::external_body]
pub(crate) fn char_to_uppercase(c: char) -> (r: Vec<char>)
    ensures
        r@ == uppercase_of(c),
{
    c.to_uppercase().collect()
}

/// What `char::is_alphanumeric` answers (Unicode Alphabetic or Numeric).
pub uninterp spec fn alphanumeric(c: char) -> bool;

/// Calls `char::is_alphanumeric`; the answer is named by `alphanumeric`.
#[verifier::external_body]
pub(crate) fn is_alphanumeric(c: char) -> (r: bool)
    ensures
        r == alphanumeric(c),
{
    c.is_alphanumeric()
}

// ---------------------------------------------------------------------
// Basic sequence helpers
// ---------------------------------------------------------------------

/// Appends the characters of `s` to `out`.
pub fn push_str(out: &mut Vec<char>, s: &str)
    ensures
        final(out)@ == old(out)@ + s@,
{
    let mut v = chars_of(s);
    out.append(&mut v);
}

/// Appends the characters of `s` to `out`.
pub fn push_chars(out: &mut Vec<char>, s: &[char])
    ensures
        final(out)@ == old(out)@ + s@,
{
    let n = s.len();
    let ghost start = out@;
    for i in 0..n
        invariant
            n == s@.len(),
            out@ == start + s@.subrange(0, i as int),
    {
        out.push(s[i]);
        assert(start + s@.subrange(0, i + 1) =~= (start + s@.subrange(0, i as int)).push(s@[i as int]));
    }
    assert(s@.subrange(0, n as int) =~= s@);
}

/// A fresh copy of a character slice.
pub fn copy_chars(s: &[char]) -> (r: Vec<char>)
    ensures
        r@ == s@,
{
    let mut r: Vec<char> = Vec::new();
    push_chars(&mut r, s);
    r
}

/// Whether two character sequences are equal.
pub fn chars_eq(a: &[char], b: &[char]) -> (r: bool)
    ensures
        r == (a@ == b@),
{
    if a.len() != b.len() {
        return false;
    }
    let n = a.len();
    for i in 0..n
        invariant
            n == a@.len(),
            n == b@.len(),
            forall|j: int| 0 <= j < i ==> a@[j] == b@[j],
    {
        if a[i] != b[i] {
            return false;
        }
    }
    assert(a@ =~= b@);
    true
}

/// Whether the characters of `a` equal those of the string `b`.
pub fn chars_eq_str(a: &[char], b: &str) -> (r: bool)
    ensures
        r == (a@ == b@),
{
    let bv = chars_of(b);
    chars_eq(a, bv.as_slice())
}

/// `prefix` is a prefix of `s`.
pub open spec fn has_prefix(s: Seq<char>, prefix: Seq<char>) -> bool {
    prefix.len() <= s.len() && s.subrange(0, prefix.len() as int) == prefix
}

/// Whether `s` starts with `prefix`.
pub fn starts_with(s: &[char], prefix: &[char]) -> (r: bool)
    ensures
        r == has_prefix(s@, prefix@),
{
    if prefix.len() > s.len() {
        return false;
    }
    let n = prefix.len();
    for i in 0..n
        invariant
            n == prefix@.len(),
            n <= s@.len(),
            forall|j: int| 0 <= j < i ==> s@[j] == prefix@[j],
    {
        if s[i] != prefix[i] {
            assert(s@.subrange(0, n as int)[i as int] != prefix@[i as int]);
            return false;
        }
    }
    assert(s@.subrange(0, n as int) =~= prefix@);
    true
}

/// The characters of `s` from `start` to its end.
pub fn tail_from(s: &[char], start: usize) -> (r: Vec<char>)
    requires
        start <= s@.len(),
    ensures
        r@ == s@.subrange(start as int, s@.len() as int),
{
    let mut r: Vec<char> = Vec::new();
    let n = s.len();
    let mut i: usize = start;
    while i < n
        invariant
            n == s@.len(),
            start <= i <= n,
            r@ == s@.subrange(start as int, i as int),
        decreases n - i,
    {
        r.push(s[i]);
        assert(s@.subrange(start as int, i + 1) =~= s@.subrange(start as int, i as int).push(s@[i as int]));
        i = i + 1;
    }
    r
}

/// The first `len` characters of `s`.
pub fn head_of(s: &[char], len: usize) -> (r: Vec<char>)
    requires
        len <= s@.len(),
    ensures
        r@ == s@.subrange(0, len as int),
{
    let mut r: Vec<char> = Vec::new();
    for i in 0..len
        invariant
            len <= s@.len(),
            r@ == s@.subrange(0, i as int),
    {
        r.push(s[i]);
        assert(s@.subrange(0, i + 1) =~= s@.subrange(0, i as int).push(s@[i as int]));
    }
    r
}

/// What `str::strip_prefix(..).unwrap_or(s)` gives.
pub open spec fn strip_prefix_or_keep(s: Seq<char>, prefix: Seq<char>) -> Seq<char> {
    if has_prefix(s, prefix) {
        s.subrange(prefix.len() as int, s.len() as int)
    } else {
        s
    }
}

/// `s` without `prefix` when it starts with it, otherwise `s` unchanged.
pub fn strip_prefix_or_keep_exec(s: &[char], prefix: &[char]) -> (r: Vec<char>)
    ensures
        r@ == strip_prefix_or_keep(s@, prefix@),
{
    if starts_with(s, prefix) {
        tail_from(s, prefix.len())
    } else {
        copy_chars(s)
    }
}

/// Index of the first occurrence of `c` in `s`, if any.
pub open spec fn first_index_of(s: Seq<char>, c: char) -> Option<int>
    decreases s.len(),
{
    if s.len() == 0 {
        None
    } else if s.last() == c {
        match first_index_of(s.drop_last(), c) {
            Some(i) => Some(i),
            None => Some(s.len() - 1),
        }
    } else {
        first_index_of(s.drop_last(), c)
    }
}

/// `first_index_of` finds the first position holding `c`.
pub proof fn lemma_first_index_of(s: Seq<char>, c: char)
    ensures
        first_index_of(s, c) matches Some(i) ==> {
            &&& 0 <= i < s.len()
            &&& s[i] == c
            &&& forall|j: int| 0 <= j < i ==> s[j] != c
        },
        first_index_of(s, c) is None ==> forall|j: int| 0 <= j < s.len() ==> s[j] != c,
    decreases s.len(),
{
    if s.len() > 0 {
        let t = s.drop_last();
        lemma_first_index_of(t, c);
        assert forall|j: int| 0 <= j < t.len() implies t[j] == s[j] by {}
    }
}

/// A position satisfying the characterisation is the first index.
pub proof fn lemma_first_index_of_unique(s: Seq<char>, c: char, i: int)
    requires
        0 <= i < s.len(),
        s[i] == c,
        forall|j: int| 0 <= j < i ==> s[j] != c,
    ensures
        first_index_of(s, c) == Some(i),
    decreases s.len(),
{
    lemma_first_index_of(s, c);
    if i < s.len() - 1 {
        lemma_first_index_of_unique(s.drop_last(), c, i);
    } else {
        lemma_first_index_of(s.drop_last(), c);
    }
}

/// The position of the first `c` in `s`.
pub fn find_char(s: &[char], c: char) -> (r: Option<usize>)
    ensures
        r matches Some(i) ==> first_index_of(s@, c) == Some(i as int),
        r is None ==> first_index_of(s@, c) is None,
{
    let n = s.len();
    for i in 0..n
        invariant
            n == s@.len(),
            forall|j: int| 0 <= j < i ==> s@[j] != c,
    {
        if s[i] == c {
            proof {
                lemma_first_index_of_unique(s@, c, i as int);
            }
            return Some(i);
        }
    }
    proof {
        lemma_first_index_of(s@, c);
        if first_index_of(s@, c) is Some {
            let k = first_index_of(s@, c)->0;
            assert(s@[k] == c);
        }
    }
    None
}

/// What `str::split_once(c)` gives: the parts before and after the first `c`.
pub open spec fn split_once(s: Seq<char>, c: char) -> Option<(Seq<char>, Seq<char>)> {
    match first_index_of(s, c) {
        Some(i) => Some((s.subrange(0, i), s.subrange(i + 1, s.len() as int))),
        None => None,
    }
}

/// Splits `s` at the first `c`.
pub fn split_once_exec(s: &[char], c: char) -> (r: Option<(Vec<char>, Vec<char>)>)
    ensures
        r matches Some(p) ==> split_once(s@, c) == Some((p.0@, p.1@)),
        r is None ==> split_once(s@, c) is None,
{
    match find_char(s, c) {
        Some(i) => {
            proof {
                lemma_first_index_of(s@, c);
            }
            let m = s.len();
            assert(i < m);
            let a = head_of(s, i);
            let b = tail_from(s, i + 1);
            Some((a, b))
        },
        None => None,
    }
}

/// Every occurrence of `from` replaced by the sequence `to`.
pub open spec fn replace_char(s: Seq<char>, from: char, to: Seq<char>) -> Seq<char>
    decreases s.len(),
{
    if s.len() == 0 {
        Seq::empty()
    } else {
        replace_char(s.drop_last(), from, to) + (if s.last() == from {
            to
        } else {
            seq![s.last()]
        })
    }
}

/// `str::replace` with a single-character pattern.
pub fn replace_char_exec(s: &[char], from: char, to: &[char]) -> (r: Vec<char>)
    ensures
        r@ == replace_char(s@, from, to@),
{
    let mut r: Vec<char> = Vec::new();
    let n = s.len();
    for i in 0..n
        invariant
            n == s@.len(),
            r@ == replace_char(s@.subrange(0, i as int), from, to@),
    {
        assert(s@.subrange(0, i + 1).drop_last() =~= s@.subrange(0, i as int));
        if s[i] == from {
            push_chars(&mut r, to);
        } else {
            r.push(s[i]);
            assert(r@ =~= replace_char(s@.subrange(0, i as int), from, to@) + seq![s@[i as int]]);
        }
    }
    assert(s@.subrange(0, n as int) =~= s@);
    r
}

/// Whether `needle` occurs in `s` starting at position `i`.
pub open spec fn occurs_at(s: Seq<char>, needle: Seq<char>, i: int) -> bool {
    0 <= i && i + needle.len() <= s.len() && s.subrange(i, i + needle.len()) == needle
}

/// `str::contains` with a string pattern.
pub open spec fn contains_seq(s: Seq<char>, needle: Seq<char>) -> bool {
    exists|i: int| occurs_at(s, needle, i)
}

/// Whether `needle` occurs at position `i` of `s`.
fn occurs_at_exec(s: &[char], needle: &[char], i: usize) -> (r: bool)
    ensures
        r == occurs_at(s@, needle@, i as int),
{
    if i > s.len() || needle.len() > s.len() - i {
        return false;
    }
    let n = needle.len();
    let m = s.len();
    for k in 0..n
        invariant
            n == needle@.len(),
            m == s@.len(),
            i + n <= m,
            forall|j: int| 0 <= j < k ==> s@[i + j] == needle@[j],
    {
        if s[i + k] != needle[k] {
            assert(s@.subrange(i as int, i + n)[k as int] != needle@[k as int]);
            return false;
        }
    }
    assert(s@.subrange(i as int, i + n) =~= needle@);
    true
}

/// Whether `needle` occurs anywhere in `s`.
pub fn contains_exec(s: &[char], needle: &[char]) -> (r: bool)
    ensures
        r == contains_seq(s@, needle@),
{
    if needle.len() > s.len() {
        return false;
    }
    let last = s.len() - needle.len();
    for i in 0..last
        invariant
            last + needle@.len() == s@.len(),
            forall|j: int| 0 <= j < i ==> !occurs_at(s@, needle@, j),
    {
        if occurs_at_exec(s, needle, i) {
            return true;
        }
    }
    if occurs_at_exec(s, needle, last) {
        return true;
    }
    assert forall|j: int| !occurs_at(s@, needle@, j) by {
        if 0 <= j && j + needle@.len() <= s@.len() {
            assert(j <= last);
        }
    }
    false
}

/// Whether `needle` (a string) occurs anywhere in `s`.
pub fn contains_str(s: &[char], needle: &str) -> (r: bool)
    ensures
        r == contains_seq(s@, needle@),
{
    let nv = chars_of(needle);
    contains_exec(s, nv.as_slice())
}

// ---------------------------------------------------------------------
// Whitespace and trimming
// ---------------------------------------------------------------------

/// `char::is_whitespace`: the Unicode `White_Space` property.
pub open spec fn is_white_space(c: char) -> bool {
    let u = c as u32;
    (0x9 <= u && u <= 0xD) || u == 0x20 || u == 0x85 || u == 0xA0 || u == 0x1680 || (0x2000 <= u
        && u <= 0x200A) || u == 0x2028 || u == 0x2029 || u == 0x202F || u == 0x205F || u == 0x3000
}

/// Whether `c` is white space in the sense of `char::is_whitespace`.
pub fn white_space(c: char) -> (r: bool)
    ensures
        r == is_white_space(c),
{
    let u = c as u32;
    (0x9 <= u && u <= 0xD) || u == 0x20 || u == 0x85 || u == 0xA0 || u == 0x1680 || (0x2000 <= u
        && u <= 0x200A) || u == 0x2028 || u == 0x2029 || u == 0x202F || u == 0x205F || u == 0x3000
}

/// Number of leading white-space characters.
pub open spec fn leading_ws(s: Seq<char>) -> nat
    decreases s.len(),
{
    if s.len() == 0 {
        0
    } else if is_white_space(s[0]) {
        1 + leading_ws(s.drop_first())
    } else {
        0
    }
}

/// Number of trailing white-space characters.
pub open spec fn trailing_ws(s: Seq<char>) -> nat
    decreases s.len(),
{
    if s.len() == 0 {
        0
    } else if is_white_space(s.last()) {
        1 + trailing_ws(s.drop_last())
    } else {
        0
    }
}

/// `str::trim`: `s` without leading and trailing white space.
pub open spec fn trim(s: Seq<char>) -> Seq<char> {
    let a = leading_ws(s);
    if a == s.len() {
        Seq::empty()
    } else {
        s.subrange(a as int, s.len() - trailing_ws(s))
    }
}

proof fn lemma_leading_ws(s: Seq<char>, i: int)
    requires
        0 <= i <= s.len(),
        forall|j: int| 0 <= j < i ==> is_white_space(s[j]),
        i == s.len() || !is_white_space(s[i]),
    ensures
        leading_ws(s) == i,
    decreases i,
{
    if i > 0 {
        lemma_leading_ws(s.drop_first(), i - 1);
    }
}

proof fn lemma_trailing_ws(s: Seq<char>, k: int)
    requires
        0 <= k <= s.len(),
        forall|j: int| s.len() - k <= j < s.len() ==> is_white_space(s[j]),
        k == s.len() || !is_white_space(s[s.len() - k - 1]),
    ensures
        trailing_ws(s) == k,
    decreases k,
{
    if k > 0 {
        lemma_trailing_ws(s.drop_last(), k - 1);
    }
}

proof fn lemma_leading_ws_bound(s: Seq<char>)
    ensures
        leading_ws(s) <= s.len(),
    decreases s.len(),
{
    if s.len() > 0 {
        lemma_leading_ws_bound(s.drop_first());
    }
}

/// The trimmed characters of `s`.
pub fn trim_exec(s: &[char]) -> (r: Vec<char>)
    ensures
        r@ == trim(s@),
{
    let n = s.len();
    let mut a: usize = 0;
    while a < n && white_space(s[a])
        invariant
            a <= n,
            n == s@.len(),
            forall|j: int| 0 <= j < a ==> is_white_space(s@[j]),
        decreases n - a,
    {
        a = a + 1;
    }
    proof {
        lemma_leading_ws(s@, a as int);
    }
    if a == n {
        return Vec::new();
    }
    let mut b: usize = n;
    while b > a && white_space(s[b - 1])
        invariant
            a < n,
            a <= b <= n,
            n == s@.len(),
            !is_white_space(s@[a as int]),
            forall|j: int| b <= j < n ==> is_white_space(s@[j]),
        decreases b,
    {
        b = b - 1;
    }
    proof {
        lemma_trailing_ws(s@, (n - b) as int);
    }
    let mut r: Vec<char> = Vec::new();
    let mut i: usize = a;
    while i < b
        invariant
            a <= i <= b <= n,
            n == s@.len(),
            r@ == s@.subrange(a as int, i as int),
        decreases b - i,
    {
        r.push(s[i]);
        assert(s@.subrange(a as int, i + 1) =~= s@.subrange(a as int, i as int).push(s@[i as int]));
        i = i + 1;
    }
    r
}

// ---------------------------------------------------------------------
// Decimal integers
// ---------------------------------------------------------------------

/// The ASCII digit for `d` (0..=9).
pub open spec fn digit_char(d: int) -> char {
    ((48 + d) as u8) as char
}

/// Decimal digits of a natural number, most significant first.
pub open spec fn digits_of(n: nat) -> Seq<char>
    decreases n,
{
    if n < 10 {
        seq![digit_char(n as int)]
    } else {
        digits_of(n / 10).push(digit_char((n % 10) as int))
    }
}

/// Decimal text of an integer, as `i64::to_string` writes it.
pub open spec fn decimal(n: int) -> Seq<char> {
    if n < 0 {
        seq!['-'] + digits_of((-n) as nat)
    } else {
        digits_of(n as nat)
    }
}

fn digit_exec(d: u64) -> (c: char)
    requires
        d < 10,
    ensures
        c == digit_char(d as int),
{
    ((48 + d) as u8) as char
}

fn digits_exec(n: u64) -> (r: Vec<char>)
    ensures
        r@ == digits_of(n as nat),
    decreases n,
{
    if n < 10 {
        let mut v: Vec<char> = Vec::new();
        v.push(digit_exec(n));
        v
    } else {
        let mut v = digits_exec(n / 10);
        v.push(digit_exec(n % 10));
        v
    }
}

/// The decimal text of `n` as characters.
pub fn decimal_chars(n: i64) -> (r: Vec<char>)
    ensures
        r@ == decimal(n as int),
{
    if n < 0 {
        let m: u64 = if n == i64::MIN {
            9223372036854775808u64
        } else {
            (-n) as u64
        };
        let mut r: Vec<char> = Vec::new();
        r.push('-');
        let mut d = digits_exec(m);
        r.append(&mut d);
        r
    } else {
        digits_exec(n as u64)
    }
}

/// The decimal text of `n` (`i64::to_string`).
pub fn decimal_string(n: i64) -> (r: String)
    ensures
        r@ == decimal(n as int),
{
    let v = decimal_chars(n);
    text_of(v.as_slice())
}

/// Whether `c` is an ASCII digit.
pub open spec fn is_digit(c: char) -> bool {
    '0' <= c && c <= '9'
}

/// The value of an ASCII digit.
pub open spec fn digit_value(c: char) -> int {
    (c as int) - 48
}

/// Every character of `s` is an ASCII digit.
pub open spec fn all_digits(s: Seq<char>) -> bool {
    forall|i: int| 0 <= i < s.len() ==> is_digit(#[trigger] s[i])
}

/// The value of a run of decimal digits.
pub open spec fn digits_value(s: Seq<char>) -> int
    decreases s.len(),
{
    if s.len() == 0 {
        0
    } else {
        digits_value(s.drop_last()) * 10 + digit_value(s.last())
    }
}

/// The integer `str::parse::<i64>` (or `::<i32>`) reads, before its range
/// check: an optional `+` or `-` followed by at least one ASCII digit.
pub open spec fn integer_text_value(s: Seq<char>) -> Option<int> {
    if s.len() > 0 && (s[0] == '-' || s[0] == '+') {
        let rest = s.drop_first();
        if rest.len() > 0 && all_digits(rest) {
            Some(
                if s[0] == '-' {
                    -digits_value(rest)
                } else {
                    digits_value(rest)
                },
            )
        } else {
            None
        }
    } else if s.len() > 0 && all_digits(s) {
        Some(digits_value(s))
    } else {
        None
    }
}

/// What `s.parse::<i64>().ok()` returns.
pub open spec fn parse_i64_spec(s: Seq<char>) -> Option<int> {
    match integer_text_value(s) {
        Some(v) => if i64::MIN <= v && v <= i64::MAX {
            Some(v)
        } else {
            None
        },
        None => None,
    }
}

/// What `s.parse::<i32>().ok()` returns.
pub open spec fn parse_i32_spec(s: Seq<char>) -> Option<int> {
    match integer_text_value(s) {
        Some(v) => if i32::MIN <= v && v <= i32::MAX {
            Some(v)
        } else {
            None
        },
        None => None,
    }
}

proof fn lemma_digits_value_nonneg(s: Seq<char>)
    requires
        all_digits(s),
    ensures
        digits_value(s) >= 0,
    decreases s.len(),
{
    if s.len() > 0 {
        assert(all_digits(s.drop_last()));
        lemma_digits_value_nonneg(s.drop_last());
        assert(is_digit(s[s.len() - 1]));
    }
}

proof fn lemma_digits_value_grows(s: Seq<char>, j: int)
    requires
        all_digits(s),
        0 <= j <= s.len(),
    ensures
        digits_value(s.subrange(0, j)) <= digits_value(s),
    decreases s.len() - j,
{
    if j < s.len() {
        let t = s.subrange(0, j + 1);
        assert(t.drop_last() =~= s.subrange(0, j));
        assert(all_digits(s.subrange(0, j)));
        lemma_digits_value_nonneg(s.subrange(0, j));
        assert(is_digit(s[j]));
        lemma_digits_value_grows(s, j + 1);
    } else {
        assert(s.subrange(0, j) =~= s);
    }
}

proof fn lemma_digits_of(m: nat)
    ensures
        digits_of(m).len() >= 1,
        all_digits(digits_of(m)),
        digits_value(digits_of(m)) == m,
    decreases m,
{
    if m < 10 {
        let d = digits_of(m);
        assert(d.drop_last() =~= Seq::<char>::empty());
        assert(digit_value(digit_char(m as int)) == m);
        assert(digits_value(d) == digits_value(d.drop_last()) * 10 + digit_value(d.last()));
        assert(digits_value(Seq::<char>::empty()) == 0);
    } else {
        lemma_digits_of(m / 10);
        let d = digits_of(m);
        assert(d.drop_last() =~= digits_of(m / 10));
        assert(is_digit(digit_char((m % 10) as int)));
        assert(digit_value(digit_char((m % 10) as int)) == m % 10);
        assert((m / 10) * 10 + m % 10 == m) by (nonlinear_arith);
        assert(digits_value(d) == digits_value(d.drop_last()) * 10 + digit_value(d.last()));
        assert forall|i: int| 0 <= i < d.len() implies is_digit(#[trigger] d[i]) by {
            if i < d.len() - 1 {
                assert(d[i] == digits_of(m / 10)[i]);
            }
        }
    }
}

/// A number written as decimal text reads back as the same number: what
/// `i64::to_string` writes, `str::parse::<i64>` reads as that same number.
pub proof fn lemma_decimal_parses_back(n: i64)
    ensures
        parse_i64_spec(decimal(n as int)) == Some(n as int),
{
    if n < 0 {
        let m: nat = (-(n as int)) as nat;
        lemma_digits_of(m);
        let s = decimal(n as int);
        assert(s.drop_first() =~= digits_of(m));
    } else {
        lemma_digits_of(n as nat);
        let d = digits_of(n as nat);
        assert(is_digit(d[0]));
    }
}

/// Reads a run of digits; `None` when the value exceeds `limit`.
fn digits_value_upto(s: &[char], start: usize, limit: u64) -> (r: Option<u64>)
    requires
        start <= s@.len(),
        all_digits(s@.subrange(start as int, s@.len() as int)),
        9 <= limit <= 9223372036854775808u64,
    ensures
        r matches Some(v) ==> v == digits_value(s@.subrange(start as int, s@.len() as int))
            && v <= limit,
        r is None ==> digits_value(s@.subrange(start as int, s@.len() as int)) > limit,
{
    let ghost t = s@.subrange(start as int, s@.len() as int);
    let n = s.len();
    let mut acc: u64 = 0;
    let mut i: usize = start;
    while i < n
        invariant
            start <= i <= n,
            n == s@.len(),
            t == s@.subrange(start as int, n as int),
            all_digits(t),
            9 <= limit <= 9223372036854775808u64,
            acc <= limit,
            acc == digits_value(t.subrange(0, i - start)),
        decreases n - i,
    {
        let ghost k = (i - start) as int;
        assert(is_digit(t[k]));
        assert(t[k] == s@[i as int]);
        let d = (s[i] as u32 - 48) as u64;
        assert(t.subrange(0, k + 1).drop_last() =~= t.subrange(0, k));
        assert(t.subrange(0, k + 1).last() == t[k]);
        if acc > (limit - d) / 10 {
            proof {
                assert(digits_value(t.subrange(0, k + 1)) == acc * 10 + d);
                lemma_digits_value_grows(t, k + 1);
            }
            return None;
        }
        acc = acc * 10 + d;
        i = i + 1;
    }
    assert(t.subrange(0, (n - start) as int) =~= t);
    Some(acc)
}

/// `s.parse::<i64>().ok()` on the characters of `s`.
pub fn parse_i64(s: &[char]) -> (r: Option<i64>)
    ensures
        r matches Some(v) ==> parse_i64_spec(s@) == Some(v as int),
        r is None ==> parse_i64_spec(s@) is None,
{
    let n = s.len();
    if n == 0 {
        return None;
    }
    let signed = s[0] == '-' || s[0] == '+';
    let start: usize = if signed {
        1
    } else {
        0
    };
    if start == n {
        return None;
    }
    let mut i: usize = start;
    while i < n
        invariant
            start <= i <= n,
            n == s@.len(),
            n > 0,
            signed == (s@[0] == '-' || s@[0] == '+'),
            start == (if signed { 1usize } else { 0usize }),
            forall|j: int| start <= j < i ==> is_digit(s@[j]),
        decreases n - i,
    {
        if !('0' <= s[i] && s[i] <= '9') {
            proof {
                let rest = s@.subrange(start as int, n as int);
                assert(rest[i - start] == s@[i as int]);
                if signed {
                    assert(rest =~= s@.drop_first());
                } else {
                    assert(rest =~= s@);
                }
            }
            return None;
        }
        i = i + 1;
    }
    let ghost rest = s@.subrange(start as int, n as int);
    assert(all_digits(rest)) by {
        assert forall|j: int| 0 <= j < rest.len() implies is_digit(#[trigger] rest[j]) by {
            assert(rest[j] == s@[start + j]);
        }
    }
    proof {
        if signed {
            assert(rest =~= s@.drop_first());
        } else {
            assert(rest =~= s@);
        }
    }
    if s[0] == '-' {
        match digits_value_upto(s, start, 9223372036854775808u64) {
            Some(m) => {
                if m == 9223372036854775808u64 {
                    Some(i64::MIN)
                } else {
                    Some(-(m as i64))
                }
            },
            None => None,
        }
    } else {
        match digits_value_upto(s, start, 9223372036854775807u64) {
            Some(m) => Some(m as i64),
            None => None,
        }
    }
}

/// `s.parse::<i64>().unwrap_or(0)`.
pub fn parse_i64_or_zero(s: &str) -> (r: i64)
    ensures
        r == (match parse_i64_spec(s@) {
            Some(v) => v,
            None => 0,
        }),
{
    let v = chars_of(s);
    match parse_i64(v.as_slice()) {
        Some(x) => x,
        None => 0,
    }
}

/// `s.parse::<i32>().unwrap_or(0)`.
pub fn parse_i32_or_zero(s: &str) -> (r: i32)
    ensures
        r == (match parse_i32_spec(s@) {
            Some(v) => v,
            None => 0,
        }),
{
    let v = chars_of(s);
    match parse_i64(v.as_slice()) {
        Some(x) => {
            if -2147483648 <= x && x <= 2147483647 {
                x as i32
            } else {
                0
            }
        },
        None => 0,
    }
}

// ---------------------------------------------------------------------
// Joining
// ---------------------------------------------------------------------

/// The parts joined with `sep` between them.
pub open spec fn join_with(ps: Seq<Seq<char>>, sep: Seq<char>) -> Seq<char>
    decreases ps.len(),
{
    if ps.len() == 0 {
        Seq::empty()
    } else if ps.len() == 1 {
        ps[0]
    } else {
        join_with(ps.drop_last(), sep) + sep + ps.last()
    }
}

/// The views of a list of character vectors.
pub open spec fn char_vec_views(v: Seq<Vec<char>>) -> Seq<Seq<char>> {
    v.map_values(|x: Vec<char>| x@)
}

/// Joins character vectors with a separator.
pub fn join_exec(ps: &Vec<Vec<char>>, sep: &str) -> (r: Vec<char>)
    ensures
        r@ == join_with(char_vec_views(ps@), sep@),
{
    let mut out: Vec<char> = Vec::new();
    let n = ps.len();
    for i in 0..n
        invariant
            n == ps@.len(),
            out@ == join_with(char_vec_views(ps@).subrange(0, i as int), sep@),
    {
        let ghost views = char_vec_views(ps@);
        assert(views.subrange(0, i + 1).drop_last() =~= views.subrange(0, i as int));
        if i > 0 {
            push_str(&mut out, sep);
        }
        push_chars(&mut out, ps[i].as_slice());
        assert(views[i as int] == ps@[i as int]@);
        assert(out@ =~= join_with(views.subrange(0, i + 1), sep@));
    }
    assert(char_vec_views(ps@).subrange(0, n as int) =~= char_vec_views(ps@));
    out
}

} // verus!
