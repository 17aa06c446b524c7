//! Text: searching, splitting, trimming and number formatting, each tied to a
//! specification over sequences of characters.
use vstd::prelude::*;

verus! {

// ---------------------------------------------------------------------------
// Specifications
// ---------------------------------------------------------------------------

/// Position of the first `c` in `s`, or the length of `s` where there is none.
pub open spec fn find<T>(s: Seq<T>, c: T) -> int
    decreases s.len(),
{
    if s.len() == 0 || s[0] == c {
        0
    } else {
        1 + find(s.drop_first(), c)
    }
}

/// `p` stands at position `i` of `s`.
pub open spec fn occurs_at<T>(s: Seq<T>, p: Seq<T>, i: int) -> bool {
    0 <= i && i + p.len() <= s.len() && s.subrange(i, i + p.len()) == p
}

/// `p` stands somewhere in `s`.
pub open spec fn contains<T>(s: Seq<T>, p: Seq<T>) -> bool {
    exists|i: int| occurs_at(s, p, i)
}

pub open spec fn starts_with<T>(s: Seq<T>, p: Seq<T>) -> bool {
    occurs_at(s, p, 0)
}

pub open spec fn ends_with<T>(s: Seq<T>, p: Seq<T>) -> bool {
    occurs_at(s, p, s.len() - p.len())
}

/// What follows the prefix `p` of `s`.
pub open spec fn strip_prefix(s: Seq<char>, p: Seq<char>) -> Option<Seq<char>> {
    if starts_with(s, p) {
        Some(s.skip(p.len() as int))
    } else {
        None
    }
}

/// What precedes the suffix `p` of `s`.
pub open spec fn strip_suffix(s: Seq<char>, p: Seq<char>) -> Option<Seq<char>> {
    if ends_with(s, p) {
        Some(s.take(s.len() - p.len()))
    } else {
        None
    }
}

/// What precedes the last occurrence of `p` in `s`.
pub open spec fn before_last(s: Seq<char>, p: Seq<char>) -> Option<Seq<char>>
    decreases s.len(),
{
    if ends_with(s, p) {
        Some(s.take(s.len() - p.len()))
    } else if s.len() == 0 {
        None
    } else {
        before_last(s.drop_last(), p)
    }
}

/// The pieces of `s` between the separators `c`; always at least one.
pub open spec fn split(s: Seq<char>, c: char) -> Seq<Seq<char>>
    decreases s.len(),
{
    proof {
        lemma_find(s, c);
    }
    if find(s, c) < s.len() {
        seq![s.take(find(s, c))] + split(s.skip(find(s, c) + 1), c)
    } else {
        seq![s]
    }
}

/// What precedes and what follows the first `c` in `s`.
pub open spec fn split_once(s: Seq<char>, c: char) -> Option<(Seq<char>, Seq<char>)> {
    if find(s, c) < s.len() {
        Some((s.take(find(s, c)), s.skip(find(s, c) + 1)))
    } else {
        None
    }
}

/// A line without the carriage return that may precede its line feed.
pub open spec fn without_return(line: Seq<char>) -> Seq<char> {
    if line.len() > 0 && line.last() == '\r' {
        line.drop_last()
    } else {
        line
    }
}

/// The lines of `s`: each ends at a line feed or a carriage return and a line
/// feed; the last may end with the text.
pub open spec fn lines(s: Seq<char>) -> Seq<Seq<char>>
    decreases s.len(),
{
    proof {
        lemma_find(s, '\n');
    }
    if s.len() == 0 {
        seq![]
    } else if find(s, '\n') < s.len() {
        seq![without_return(s.take(find(s, '\n')))] + lines(s.skip(find(s, '\n') + 1))
    } else {
        seq![s]
    }
}

/// The characters with the Unicode property `White_Space`.
pub open spec fn is_space(c: char) -> bool {
    ||| '\u{9}' <= c <= '\u{d}'
    ||| c == '\u{20}'
    ||| c == '\u{85}'
    ||| c == '\u{a0}'
    ||| c == '\u{1680}'
    ||| '\u{2000}' <= c <= '\u{200a}'
    ||| c == '\u{2028}'
    ||| c == '\u{2029}'
    ||| c == '\u{202f}'
    ||| c == '\u{205f}'
    ||| c == '\u{3000}'
}

pub open spec fn trim_start(s: Seq<char>) -> Seq<char>
    decreases s.len(),
{
    if s.len() > 0 && is_space(s[0]) {
        trim_start(s.drop_first())
    } else {
        s
    }
}

pub open spec fn trim_end(s: Seq<char>) -> Seq<char>
    decreases s.len(),
{
    if s.len() > 0 && is_space(s.last()) {
        trim_end(s.drop_last())
    } else {
        s
    }
}

/// `s` without the white space at its two ends.
pub open spec fn trim(s: Seq<char>) -> Seq<char> {
    trim_end(trim_start(s))
}

pub open spec fn is_digit(c: char) -> bool {
    '0' <= c <= '9'
}

/// The digit for `n`, from `0` to `9` and then from `a` or `A` on.
pub open spec fn digit(n: int, upper: bool) -> char {
    if n < 10 {
        ('0' as int + n) as char
    } else if upper {
        ('A' as int + (n - 10)) as char
    } else {
        ('a' as int + (n - 10)) as char
    }
}

/// `n` in decimal, without leading zeros.
pub open spec fn decimal(n: nat) -> Seq<char>
    decreases n,
{
    if n < 10 {
        seq![digit(n as int, false)]
    } else {
        decimal(n / 10).push(digit((n % 10) as int, false))
    }
}

/// The last `width` hexadecimal digits of `n`.
pub open spec fn hex(n: nat, width: nat, upper: bool) -> Seq<char>
    decreases width,
{
    if width == 0 {
        seq![]
    } else {
        hex(n / 16, (width - 1) as nat, upper).push(digit((n % 16) as int, upper))
    }
}

/// The number that a run of decimal digits writes.
pub open spec fn number(s: Seq<char>) -> nat
    decreases s.len(),
{
    if s.len() == 0 {
        0
    } else {
        number(s.drop_last()) * 10 + (s.last() as nat - '0' as nat) as nat
    }
}

/// Every character of `s` is a decimal digit.
pub open spec fn digits_only(s: Seq<char>) -> bool {
    forall|i: int| 0 <= i < s.len() ==> is_digit(#[trigger] s[i])
}

/// `s` without the plus sign it may start with.
pub open spec fn without_plus(s: Seq<char>) -> Seq<char> {
    if s.len() > 0 && s[0] == '+' {
        s.drop_first()
    } else {
        s
    }
}

/// The `u32` that `s` writes in decimal, after an optional plus sign.
pub open spec fn parsed_u32(s: Seq<char>) -> Option<u32> {
    let digits = without_plus(s);
    if digits.len() > 0 && digits_only(digits) && number(digits) <= u32::MAX {
        Some(number(digits) as u32)
    } else {
        None
    }
}

/// `s`, filled up with spaces on the right to `width` characters.
pub open spec fn padded(s: Seq<char>, width: nat) -> Seq<char> {
    if s.len() < width {
        s + Seq::new((width - s.len()) as nat, |i: int| ' ')
    } else {
        s
    }
}

/// The parts in order, with `separator` between each two.
pub open spec fn joined(parts: Seq<Seq<char>>, separator: Seq<char>) -> Seq<char>
    decreases parts.len(),
{
    if parts.len() == 0 {
        seq![]
    } else if parts.len() == 1 {
        parts[0]
    } else {
        joined(parts.drop_last(), separator) + separator + parts.last()
    }
}

/// `s` with a backslash before each space.
pub open spec fn spaces_escaped(s: Seq<char>) -> Seq<char>
    decreases s.len(),
{
    if s.len() == 0 {
        seq![]
    } else if s.last() == ' ' {
        spaces_escaped(s.drop_last()).push('\\').push(' ')
    } else {
        spaces_escaped(s.drop_last()).push(s.last())
    }
}

// ---------------------------------------------------------------------------
// Lemmas
// ---------------------------------------------------------------------------

/// `find` stops at the first match and not beyond the end.
pub proof fn lemma_find<T>(s: Seq<T>, c: T)
    ensures
        0 <= find(s, c) <= s.len(),
        find(s, c) < s.len() ==> s[find(s, c)] == c,
        forall|j: int| 0 <= j < find(s, c) ==> s[j] != c,
    decreases s.len(),
{
    if s.len() > 0 && s[0] != c {
        lemma_find(s.drop_first(), c);
        assert forall|j: int| 0 <= j < find(s, c) implies s[j] != c by {
            if j > 0 {
                assert(s[j] == s.drop_first()[j - 1]);
            }
        }
    }
}

/// Only one position is preceded by no match and is a match or the end.
pub proof fn lemma_find_at<T>(s: Seq<T>, c: T, i: int)
    requires
        0 <= i <= s.len(),
        forall|j: int| 0 <= j < i ==> s[j] != c,
        i < s.len() ==> s[i] == c,
    ensures
        find(s, c) == i,
{
    lemma_find(s, c);
    if find(s, c) < i {
        assert(s[find(s, c)] == c);
    }
}

/// 16 to the power of `width`.
pub open spec fn pow16(width: nat) -> nat
    decreases width,
{
    if width == 0 {
        1
    } else {
        16 * pow16((width - 1) as nat)
    }
}

/// Numbers that fit the width are told apart by their hexadecimal digits.
pub proof fn lemma_hex_injective(n: nat, m: nat, width: nat, upper: bool)
    requires
        n < pow16(width),
        m < pow16(width),
        hex(n, width, upper) == hex(m, width, upper),
    ensures
        n == m,
    decreases width,
{
    if width > 0 {
        let a = hex(n / 16, (width - 1) as nat, upper);
        let b = hex(m / 16, (width - 1) as nat, upper);
        assert(hex(n, width, upper).drop_last() =~= a);
        assert(hex(m, width, upper).drop_last() =~= b);
        assert(hex(n, width, upper).last() == digit((n % 16) as int, upper));
        assert(hex(m, width, upper).last() == digit((m % 16) as int, upper));
        lemma_hex_injective(n / 16, m / 16, (width - 1) as nat, upper);
    }
}

/// `hex` has as many characters as it is asked for.
pub proof fn lemma_hex_len(n: nat, width: nat, upper: bool)
    ensures
        hex(n, width, upper).len() == width,
    decreases width,
{
    if width > 0 {
        lemma_hex_len(n / 16, (width - 1) as nat, upper);
    }
}

// ---------------------------------------------------------------------------
// Executable functions
// ---------------------------------------------------------------------------

/// `String::push` appends the character to the text.
pub assume_specification[ String::push ](s: &mut String, c: char)
    ensures
        final(s)@ == old(s)@.push(c),
;

/// The characters of `s`.
pub fn chars_of(s: &str) -> (r: Vec<char>)
    ensures
        r@ == s@,
{
    let mut r: Vec<char> = Vec::new();
    for c in it: s.chars()
        invariant
            it.seq() == s@,
            r@ == s@.take(it.index()),
    {
        r.push(c);
        assert(r@ =~= s@.take(it.index() + 1));
    }
    assert(r@ =~= s@);
    r
}

/// The text made of the characters `s`.
pub fn string_of(s: &[char]) -> (r: String)
    ensures
        r@ == s@,
{
    let mut r = String::new();
    let mut i: usize = 0;
    while i < s.len()
        invariant
            i <= s@.len(),
            r@ == s@.take(i as int),
        decreases s@.len() - i,
    {
        r.push(s[i]);
        i += 1;
        assert(r@ =~= s@.take(i as int));
    }
    assert(r@ =~= s@);
    r
}

/// `p` stands at position `i` of `s`.
pub fn is_at(s: &[char], p: &[char], i: usize) -> (r: bool)
    ensures
        r == occurs_at(s@, p@, i as int),
{
    if s.len() < p.len() || i > s.len() - p.len() {
        return false;
    }
    let size = s.len();
    let mut k: usize = 0;
    while k < p.len()
        invariant
            k <= p@.len(),
            size == s@.len(),
            i + p@.len() <= size,
            s@.subrange(i as int, i + k) == p@.take(k as int),
        decreases p@.len() - k,
    {
        if s[i + k] != p[k] {
            assert(s@.subrange(i as int, i + p@.len())[k as int] != p@[k as int]);
            return false;
        }
        k += 1;
        assert(s@.subrange(i as int, i + k) =~= p@.take(k as int));
    }
    assert(p@.take(k as int) =~= p@);
    true
}

/// `a` and `b` are the same text.
pub fn same(a: &[char], b: &[char]) -> (r: bool)
    ensures
        r == (a@ == b@),
{
    if a.len() != b.len() {
        return false;
    }
    assert(a@.subrange(0, a@.len() as int) =~= a@);
    is_at(a, b, 0)
}

/// `a` and `b` are the same text.
pub fn same_text(a: &str, b: &str) -> (r: bool)
    ensures
        r == (a@ == b@),
{
    same(chars_of(a).as_slice(), chars_of(b).as_slice())
}

/// `s` begins with `p`.
pub fn begins(s: &[char], p: &str) -> (r: bool)
    ensures
        r == starts_with(s@, p@),
{
    is_at(s, chars_of(p).as_slice(), 0)
}

/// `s` ends with `p`.
pub fn ends(s: &[char], p: &str) -> (r: bool)
    ensures
        r == ends_with(s@, p@),
{
    let p = chars_of(p);
    p.len() <= s.len() && is_at(s, p.as_slice(), s.len() - p.len())
}

/// The position of the first `c`, or the length.
pub fn position(s: &[char], c: char) -> (r: usize)
    ensures
        r == find(s@, c),
        r <= s@.len(),
{
    let mut i: usize = 0;
    while i < s.len()
        invariant
            i <= s@.len(),
            forall|j: int| 0 <= j < i ==> s@[j] != c,
        decreases s@.len() - i,
    {
        if s[i] == c {
            proof {
                lemma_find_at(s@, c, i as int);
            }
            return i;
        }
        i += 1;
    }
    proof {
        lemma_find_at(s@, c, i as int);
    }
    i
}

/// What precedes the last `p` in `s`.
pub fn cut_at_last<'a>(s: &'a [char], p: &str) -> (r: Option<&'a [char]>)
    ensures
        r is Some <==> before_last(s@, p@) is Some,
        r matches Some(b) ==> before_last(s@, p@) == Some(b@),
{
    let mut end: usize = s.len();
    assert(s@.take(end as int) =~= s@);
    loop
        invariant
            end <= s@.len(),
            before_last(s@, p@) == before_last(s@.take(end as int), p@),
        decreases end,
    {
        let head = &s[0..end];
        assert(head@ =~= s@.take(end as int));
        if ends(head, p) {
            let count = chars_of(p).len();
            let r = &head[0..end - count];
            assert(r@ =~= s@.take(end as int).take(end - count));
            return Some(r);
        }
        if end == 0 {
            return None;
        }
        end -= 1;
        assert(s@.take(end + 1).drop_last() =~= s@.take(end as int));
    }
}

/// The lines of `s`.
pub fn lines_of<'a>(s: &'a [char]) -> (r: Vec<&'a [char]>)
    ensures
        r@.map_values(|l: &[char]| l@) == lines(s@),
{
    let mut r: Vec<&'a [char]> = Vec::new();
    let mut start: usize = 0;
    assert(s@.skip(0) =~= s@);
    assert(r@.map_values(|l: &[char]| l@) + lines(s@) =~= lines(s@));
    while start < s.len()
        invariant
            start <= s@.len(),
            r@.map_values(|l: &[char]| l@) + lines(s@.skip(start as int)) == lines(s@),
        decreases s@.len() - start,
    {
        let rest = &s[start..s.len()];
        assert(rest@ =~= s@.skip(start as int));
        let i = position(rest, '\n');
        let ghost before = r@.map_values(|l: &[char]| l@);
        if i == rest.len() {
            r.push(rest);
            assert(r@.map_values(|l: &[char]| l@) =~= before + seq![rest@]);
            return r;
        }
        let end = if i > 0 && rest[i - 1] == '\r' {
            i - 1
        } else {
            i
        };
        let line = &rest[0..end];
        assert(line@ =~= without_return(rest@.take(i as int)));
        assert(rest@.skip(i + 1) =~= s@.skip(start + i + 1));
        r.push(line);
        assert(r@.map_values(|l: &[char]| l@) =~= before + seq![line@]);
        start = start + i + 1;
        assert(before + (seq![line@] + lines(s@.skip(start as int))) =~= r@.map_values(
            |l: &[char]| l@,
        ) + lines(s@.skip(start as int)));
    }
    assert(r@.map_values(|l: &[char]| l@) + lines(s@.skip(start as int)) =~= r@.map_values(
        |l: &[char]| l@,
    ));
    r
}

/// `c` has the Unicode property `White_Space`.
pub fn space(c: char) -> (r: bool)
    ensures
        r == is_space(c),
{
    ('\u{9}' <= c && c <= '\u{d}') || c == '\u{20}' || c == '\u{85}' || c == '\u{a0}' || c
        == '\u{1680}' || ('\u{2000}' <= c && c <= '\u{200a}') || c == '\u{2028}' || c == '\u{2029}'
        || c == '\u{202f}' || c == '\u{205f}' || c == '\u{3000}'
}

/// Where `s` without the white space at its two ends begins and ends.
pub fn trim_range(s: &[char]) -> (r: (usize, usize))
    ensures
        r.0 <= r.1 <= s@.len(),
        s@.subrange(r.0 as int, r.1 as int) == trim(s@),
{
    let mut start: usize = 0;
    assert(s@.skip(0) =~= s@);
    while start < s.len() && space(s[start])
        invariant
            start <= s@.len(),
            trim_start(s@.skip(start as int)) == trim_start(s@),
        decreases s@.len() - start,
    {
        assert(s@.skip(start as int).drop_first() =~= s@.skip(start + 1));
        start += 1;
    }
    let mut end: usize = s.len();
    assert(s@.subrange(start as int, end as int) =~= s@.skip(start as int));
    assert(trim_start(s@) == s@.skip(start as int));
    while end > start && space(s[end - 1])
        invariant
            start <= end <= s@.len(),
            trim_end(s@.subrange(start as int, end as int)) == trim(s@),
        decreases end,
    {
        assert(s@.subrange(start as int, end as int).drop_last() =~= s@.subrange(
            start as int,
            end - 1,
        ));
        end -= 1;
    }
    (start, end)
}

/// `s` without the white space at its two ends.
pub fn trimmed<'a>(s: &'a [char]) -> (r: &'a [char])
    ensures
        r@ == trim(s@),
{
    let (start, end) = trim_range(s);
    &s[start..end]
}

/// Every character is a decimal digit.
pub fn all_digits(s: &[char]) -> (r: bool)
    ensures
        r == digits_only(s@),
{
    let mut i: usize = 0;
    while i < s.len()
        invariant
            i <= s@.len(),
            forall|j: int| 0 <= j < i ==> is_digit(s@[j]),
        decreases s@.len() - i,
    {
        if !('0' <= s[i] && s[i] <= '9') {
            assert(!is_digit(s@[i as int]));
            return false;
        }
        i += 1;
    }
    true
}

/// The digit for `n`.
fn digit_of(n: u8, upper: bool) -> (r: char)
    requires
        n < 16,
    ensures
        r == digit(n as int, upper),
{
    if n < 10 {
        (48 + n) as char
    } else if upper {
        (65 + (n - 10)) as char
    } else {
        (97 + (n - 10)) as char
    }
}

/// `n` in decimal.
pub fn decimal_of(n: u32) -> (r: String)
    ensures
        r@ == decimal(n as nat),
    decreases n,
{
    let mut r = if n < 10 {
        String::new()
    } else {
        decimal_of(n / 10)
    };
    r.push(digit_of((n % 10) as u8, false));
    assert(n < 10 ==> r@ =~= seq![digit(n as int, false)]);
    r
}

/// The last `width` hexadecimal digits of `n`.
pub fn hex_of(n: u32, width: u32, upper: bool) -> (r: String)
    ensures
        r@ == hex(n as nat, width as nat, upper),
    decreases width,
{
    if width == 0 {
        return String::new();
    }
    let mut r = hex_of(n / 16, width - 1, upper);
    r.push(digit_of((n % 16) as u8, upper));
    r
}

/// A run of digits writes at least what its head writes.
proof fn lemma_number_grows(s: Seq<char>, i: int)
    requires
        0 <= i <= s.len(),
        digits_only(s),
    ensures
        number(s.take(i)) <= number(s),
    decreases s.len(),
{
    if i == s.len() {
        assert(s.take(i) =~= s);
    } else {
        assert(s.drop_last().take(i) =~= s.take(i));
        lemma_number_grows(s.drop_last(), i);
    }
}

/// The `u32` that `s` writes in decimal.
pub fn parse_u32(s: &[char]) -> (r: Option<u32>)
    ensures
        r == parsed_u32(s@),
{
    let digits = if s.len() > 0 && s[0] == '+' {
        &s[1..s.len()]
    } else {
        s
    };
    assert(digits@ =~= without_plus(s@));
    if digits.len() == 0 || !all_digits(digits) {
        return None;
    }
    let mut n: u32 = 0;
    let mut i: usize = 0;
    while i < digits.len()
        invariant
            i <= digits@.len(),
            digits@ == without_plus(s@),
            digits@.len() > 0,
            digits_only(digits@),
            n == number(digits@.take(i as int)),
        decreases digits@.len() - i,
    {
        assert(is_digit(digits@[i as int]));
        let d: u32 = digits[i] as u32 - 48;
        assert(digits@.take(i + 1).drop_last() =~= digits@.take(i as int));
        if n > (u32::MAX - d) / 10 {
            proof {
                lemma_number_grows(digits@, i + 1);
            }
            return None;
        }
        n = n * 10 + d;
        i += 1;
    }
    assert(digits@.take(i as int) =~= digits@);
    Some(n)
}

/// `s`, filled up with spaces on the right to `width` characters.
pub fn pad(s: &str, width: usize) -> (r: String)
    ensures
        r@ == padded(s@, width as nat),
{
    let mut count = chars_of(s).len();
    let mut r = s.to_owned();
    let ghost first = count;
    while count < width
        invariant
            first == s@.len(),
            first <= count,
            count <= width || count == first,
            r@ == s@ + Seq::new((count - first) as nat, |i: int| ' '),
        decreases width - count,
    {
        r.push(' ');
        count += 1;
        assert(r@ =~= s@ + Seq::new((count - first) as nat, |i: int| ' '));
    }
    assert(s@.len() >= width ==> r@ =~= s@);
    r
}

/// The text of a string that may be absent.
pub open spec fn opt_text(s: Option<String>) -> Option<Seq<char>> {
    match s {
        Some(s) => Some(s@),
        None => None,
    }
}

/// A result with its error as a text.
pub open spec fn err_text<T>(r: Result<T, String>) -> Result<T, Seq<char>> {
    match r {
        Ok(v) => Ok(v),
        Err(e) => Err(e@),
    }
}

/// The texts of a list of strings.
pub open spec fn texts(parts: Seq<String>) -> Seq<Seq<char>> {
    parts.map_values(|p: String| p@)
}

/// The same texts.
pub fn copied(parts: &Vec<String>) -> (r: Vec<String>)
    ensures
        texts(r@) == texts(parts@),
{
    let mut r: Vec<String> = Vec::new();
    let mut i: usize = 0;
    while i < parts.len()
        invariant
            i <= parts@.len(),
            r@.len() == i,
            forall|j: int| 0 <= j < i ==> (#[trigger] r@[j])@ == parts@[j]@,
        decreases parts@.len() - i,
    {
        r.push(parts[i].clone());
        i += 1;
    }
    assert(texts(r@) =~= texts(parts@));
    r
}

/// The parts in order, with `separator` between each two.
pub fn join(parts: &Vec<String>, separator: &str) -> (r: String)
    ensures
        r@ == joined(texts(parts@), separator@),
{
    let mut r = String::new();
    let mut i: usize = 0;
    while i < parts.len()
        invariant
            i <= parts@.len(),
            r@ == joined(texts(parts@).take(i as int), separator@),
        decreases parts@.len() - i,
    {
        if i > 0 {
            r.append(separator);
        }
        r.append(parts[i].as_str());
        i += 1;
        let ghost done = texts(parts@).take(i as int);
        assert(done.drop_last() =~= texts(parts@).take(i - 1));
        assert(i == 1 ==> r@ =~= done[0]);
    }
    assert(texts(parts@).take(i as int) =~= texts(parts@));
    r
}

/// `s` with a backslash before each space.
pub fn escape_spaces(s: &str) -> (r: String)
    ensures
        r@ == spaces_escaped(s@),
{
    let chars = chars_of(s);
    let mut r = String::new();
    let mut i: usize = 0;
    while i < chars.len()
        invariant
            i <= chars@.len(),
            chars@ == s@,
            r@ == spaces_escaped(s@.take(i as int)),
        decreases chars@.len() - i,
    {
        assert(s@.take(i + 1).drop_last() =~= s@.take(i as int));
        if chars[i] == ' ' {
            r.push('\\');
        }
        r.push(chars[i]);
        i += 1;
    }
    assert(s@.take(i as int) =~= s@);
    r
}

} // verus!
