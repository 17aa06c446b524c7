//! What holds of every text that is cut, trimmed, written or read.
use vstd::prelude::*;

use crate::text::{
    before_last, decimal, digit, digits_only, ends_with, find, hex, is_digit, is_space, joined,
    lemma_find, lemma_find_at, lines, number, padded, parsed_u32, pow16, split, starts_with,
    strip_prefix, strip_suffix, trim, trim_end, trim_start, without_plus,
};

verus! {

// ---------------------------------------------------------------------------
// Numbers
// ---------------------------------------------------------------------------

/// A number written in decimal is read back, by itself and after a plus sign; it has no leading
/// zero.
pub proof fn a_decimal_is_read_back(n: nat)
    ensures
        decimal(n).len() > 0,
        forall|i: int| 0 <= i < decimal(n).len() ==> '0' <= #[trigger] decimal(n)[i] <= '9',
        decimal(n)[0] == '0' ==> n == 0 && decimal(n).len() == 1,
        number(decimal(n)) == n,
        n <= u32::MAX ==> parsed_u32(decimal(n)) == Some(n as u32) && parsed_u32(
            seq!['+'] + decimal(n),
        ) == Some(n as u32),
        n > u32::MAX ==> parsed_u32(decimal(n)) is None,
    decreases n,
{
    lemma_decimal(n);
    let s = decimal(n);
    assert(is_digit(s[0]));
    assert(without_plus(s) == s);
    assert(without_plus(seq!['+'] + s) =~= s);
}

proof fn lemma_decimal(n: nat)
    ensures
        decimal(n).len() > 0,
        digits_only(decimal(n)),
        decimal(n)[0] == '0' ==> n == 0 && decimal(n).len() == 1,
        number(decimal(n)) == n,
    decreases n,
{
    let s = decimal(n);
    if n < 10 {
        assert(s.drop_last() =~= seq![]);
        assert(number(seq![]) == 0);
        assert(s.last() as nat - '0' as nat == n);
    } else {
        lemma_decimal(n / 10);
        let head = decimal(n / 10);
        assert(s.drop_last() =~= head);
        assert forall|i: int| 0 <= i < s.len() implies is_digit(#[trigger] s[i]) by {
            if i < head.len() {
                assert(is_digit(head[i]));
            }
        }
        assert(s[0] == head[0]);
    }
}

/// Only digits, after at most one plus sign, are read as a number.
pub proof fn only_digits_are_read_as_a_number(s: Seq<char>)
    requires
        parsed_u32(s) is Some,
    ensures
        ({
            let digits = if s[0] == '+' {
                s.skip(1)
            } else {
                s
            };
            &&& digits.len() > 0
            &&& forall|i: int| 0 <= i < digits.len() ==> '0' <= #[trigger] digits[i] <= '9'
            &&& parsed_u32(s)->0 == number(digits)
        }),
{
    let digits = without_plus(s);
    assert(s.len() > 0);
    assert(s.drop_first() =~= s.skip(1));
    assert forall|i: int| 0 <= i < digits.len() implies '0' <= #[trigger] digits[i] <= '9' by {
        assert(is_digit(digits[i]));
    }
}

/// The value of a hexadecimal digit.
pub open spec fn hex_digit(c: char) -> int {
    if '0' <= c <= '9' {
        c as int - '0' as int
    } else if 'a' <= c <= 'f' {
        c as int - 'a' as int + 10
    } else {
        c as int - 'A' as int + 10
    }
}

/// The number that hexadecimal digits write.
pub open spec fn hex_number(s: Seq<char>) -> int
    decreases s.len(),
{
    if s.len() == 0 {
        0
    } else {
        hex_number(s.drop_last()) * 16 + hex_digit(s.last())
    }
}

/// A number written in hexadecimal has as many digits as it is given, in one case, and is read
/// back where it fits.
pub proof fn a_hexadecimal_is_read_back(n: nat, width: nat, upper: bool)
    ensures
        hex(n, width, upper).len() == width,
        forall|i: int|
            0 <= i < width ==> {
                let c = #[trigger] hex(n, width, upper)[i];
                '0' <= c <= '9' || upper && 'A' <= c <= 'F' || !upper && 'a' <= c <= 'f'
            },
        n < pow16(width) ==> hex_number(hex(n, width, upper)) == n,
    decreases width,
{
    if width > 0 {
        let s = hex(n, width, upper);
        let less = (width - 1) as nat;
        let head = hex(n / 16, less, upper);
        a_hexadecimal_is_read_back(n / 16, less, upper);
        assert(s.drop_last() =~= head);
        assert(s.last() == digit((n % 16) as int, upper));
        assert(hex_digit(s.last()) == n % 16);
        assert forall|i: int| 0 <= i < width implies ({
            let c = #[trigger] s[i];
            '0' <= c <= '9' || upper && 'A' <= c <= 'F' || !upper && 'a' <= c <= 'f'
        }) by {
            if i < less {
                assert(s[i] == head[i]);
            }
        }
    }
}

// ---------------------------------------------------------------------------
// Beginnings and ends
// ---------------------------------------------------------------------------

/// A text begins with what it is made of first, and that is what is stripped.
pub proof fn a_prefix_is_stripped(p: Seq<char>, rest: Seq<char>)
    ensures
        starts_with(p + rest, p),
        strip_prefix(p + rest, p) == Some(rest),
{
    assert((p + rest).subrange(0, p.len() as int) =~= p);
    assert((p + rest).skip(p.len() as int) =~= rest);
}

/// A text that begins with nothing of the kind is left alone.
pub proof fn what_is_stripped_was_there(s: Seq<char>, p: Seq<char>)
    ensures
        strip_prefix(s, p) matches Some(rest) ==> s == p + rest,
        strip_suffix(s, p) matches Some(rest) ==> s == rest + p,
        starts_with(s, p) ==> strip_prefix(s, p) is Some,
        ends_with(s, p) ==> strip_suffix(s, p) is Some,
{
    if let Some(rest) = strip_prefix(s, p) {
        assert(s =~= s.subrange(0, p.len() as int) + rest);
    }
    if let Some(rest) = strip_suffix(s, p) {
        assert(s =~= rest + s.subrange(s.len() - p.len(), s.len() as int));
    }
}

/// A text ends with what it is made of last, and that is what is stripped.
pub proof fn a_suffix_is_stripped(rest: Seq<char>, p: Seq<char>)
    ensures
        ends_with(rest + p, p),
        strip_suffix(rest + p, p) == Some(rest),
{
    let s = rest + p;
    assert(s.subrange(s.len() - p.len(), s.len() as int) =~= p);
    assert(s.take(s.len() - p.len()) =~= rest);
}

/// What precedes the last occurrence of a text: the text follows it, and stands nowhere after.
pub proof fn the_last_occurrence_is_found(s: Seq<char>, p: Seq<char>)
    requires
        p.len() > 0,
    ensures
        before_last(s, p) matches Some(base) ==> base.len() + p.len() <= s.len() && s.take(
            (base.len() + p.len()) as int,
        ) == base + p && forall|i: int|
            base.len() < i && i + p.len() <= s.len() ==> #[trigger] s.subrange(i, i + p.len()) != p,
        before_last(s, p) is None ==> forall|i: int|
            0 <= i && i + p.len() <= s.len() ==> #[trigger] s.subrange(i, i + p.len()) != p,
    decreases s.len(),
{
    if ends_with(s, p) {
        let base = s.take(s.len() - p.len());
        assert(s.take(s.len() as int) =~= s);
        assert(s =~= base + s.subrange(s.len() - p.len(), s.len() as int));
    } else if s.len() > 0 {
        let head = s.drop_last();
        the_last_occurrence_is_found(head, p);
        assert forall|i: int| 0 <= i && i + p.len() <= s.len() && (before_last(s, p) matches Some(
            base,
        ) ==> base.len() < i) implies #[trigger] s.subrange(i, i + p.len()) != p by {
            if i + p.len() <= head.len() {
                assert(head.subrange(i, i + p.len()) =~= s.subrange(i, i + p.len()));
            }
        }
        if let Some(base) = before_last(s, p) {
            assert(head.take((base.len() + p.len()) as int) =~= s.take(
                (base.len() + p.len()) as int,
            ));
        }
    }
}

// ---------------------------------------------------------------------------
// Trimming and padding
// ---------------------------------------------------------------------------

/// All of `s` is white space.
pub open spec fn is_blank(s: Seq<char>) -> bool {
    forall|i: int| 0 <= i < s.len() ==> is_space(#[trigger] s[i])
}

proof fn lemma_trim_start(s: Seq<char>)
    ensures
        trim_start(s).len() <= s.len(),
        s.skip(s.len() - trim_start(s).len()) == trim_start(s),
        is_blank(s.take(s.len() - trim_start(s).len())),
        trim_start(s).len() > 0 ==> !is_space(trim_start(s)[0]),
    decreases s.len(),
{
    if s.len() > 0 && is_space(s[0]) {
        let rest = s.drop_first();
        lemma_trim_start(rest);
        let cut = rest.len() - trim_start(rest).len();
        assert(s.skip(cut + 1) =~= rest.skip(cut));
        assert forall|i: int| 0 <= i < cut + 1 implies is_space(#[trigger] s.take(cut + 1)[i]) by {
            if i > 0 {
                assert(s.take(cut + 1)[i] == rest.take(cut)[i - 1]);
            }
        }
    } else {
        assert(s.skip(0) =~= s);
    }
}

proof fn lemma_trim_end(s: Seq<char>)
    ensures
        trim_end(s).len() <= s.len(),
        s.take(trim_end(s).len() as int) == trim_end(s),
        is_blank(s.skip(trim_end(s).len() as int)),
        trim_end(s).len() > 0 ==> !is_space(trim_end(s).last()),
    decreases s.len(),
{
    if s.len() > 0 && is_space(s.last()) {
        let rest = s.drop_last();
        lemma_trim_end(rest);
        let kept = trim_end(rest).len() as int;
        assert(s.take(kept) =~= rest.take(kept));
        assert forall|i: int| 0 <= i < s.len() - kept implies is_space(
            #[trigger] s.skip(kept)[i],
        ) by {
            if i < rest.len() - kept {
                assert(s.skip(kept)[i] == rest.skip(kept)[i]);
            }
        }
    } else {
        assert(s.take(s.len() as int) =~= s);
    }
}

/// Trimming removes white space at the two ends, all of it, and nothing else.
pub proof fn trimming_removes_only_white_space(s: Seq<char>) -> (r: (Seq<char>, Seq<char>))
    ensures
        s == r.0 + trim(s) + r.1,
        is_blank(r.0),
        is_blank(r.1),
        trim(s).len() > 0 ==> !is_space(trim(s)[0]) && !is_space(trim(s).last()),
{
    lemma_trim_start(s);
    let mid = trim_start(s);
    lemma_trim_end(mid);
    let a = s.take(s.len() - mid.len());
    let b = mid.skip(trim_end(mid).len() as int);
    assert(s =~= a + mid);
    assert(mid =~= mid.take(trim_end(mid).len() as int) + b);
    assert(s =~= a + trim(s) + b);
    if trim(s).len() > 0 {
        assert(trim(s)[0] == mid[0]);
    }
    (a, b)
}

/// What neither begins nor ends with white space survives trimming, whatever blank text
/// surrounds it.
pub proof fn what_is_surrounded_by_blanks_is_kept(a: Seq<char>, s: Seq<char>, b: Seq<char>)
    requires
        is_blank(a),
        is_blank(b),
        s.len() > 0 ==> !is_space(s[0]) && !is_space(s.last()),
    ensures
        trim(a + s + b) == s,
{
    let all = a + s + b;
    let (x, y) = trimming_removes_only_white_space(all);
    let t = trim(all);
    if s.len() == 0 {
        if t.len() > 0 {
            assert(all[x.len() as int] == t[0]);
            let k = x.len() as int;
            if k < a.len() {
                assert(is_space(a[k]));
            } else {
                assert(is_space(b[k - a.len()]));
            }
        }
        assert(t =~= s);
    } else {
        assert(all[a.len() as int] == s[0]);
        assert(all[a.len() + s.len() - 1] == s.last());
        if x.len() > a.len() {
            assert(is_space(x[a.len() as int]));
            assert(all[a.len() as int] == x[a.len() as int]);
        }
        if y.len() > b.len() {
            let k = y.len() - b.len() - 1;
            assert(is_space(y[k]));
            assert(all[x.len() + t.len() + k] == y[k]);
        }
        assert(t.len() > 0);
        if x.len() < a.len() {
            assert(is_space(a[x.len() as int]));
            assert(all[x.len() as int] == t[0]);
        }
        if y.len() < b.len() {
            let k = b.len() - y.len() - 1;
            assert(is_space(b[k]));
            assert(all[x.len() + t.len() - 1] == t.last());
        }
        assert(t =~= all.subrange(x.len() as int, (x.len() + t.len()) as int));
        assert(s =~= all.subrange(a.len() as int, (a.len() + s.len()) as int));
    }
}

/// Padding keeps the text in front, adds only spaces behind it, and reaches the width exactly
/// where the text does not exceed it.
pub proof fn padding_adds_only_spaces(s: Seq<char>, width: nat)
    ensures
        padded(s, width).len() == if s.len() < width {
            width
        } else {
            s.len()
        },
        padded(s, width).take(s.len() as int) == s,
        forall|i: int| s.len() <= i < width ==> #[trigger] padded(s, width)[i] == ' ',
{
    assert(padded(s, width).take(s.len() as int) =~= s);
}

// ---------------------------------------------------------------------------
// Pieces and lines
// ---------------------------------------------------------------------------

/// The pieces, put together again with the separator between them, give the text; none of them
/// holds the separator.
pub proof fn pieces_make_up_the_text(s: Seq<char>, c: char)
    ensures
        split(s, c).len() > 0,
        glued(split(s, c), c) == s,
        forall|i: int| 0 <= i < split(s, c).len() ==> !(#[trigger] split(s, c)[i]).contains(c),
    decreases s.len(),
{
    lemma_find(s, c);
    let i = find(s, c);
    if i < s.len() {
        let rest = s.skip(i + 1);
        pieces_make_up_the_text(rest, c);
        let all = split(s, c);
        assert(all.drop_first() =~= split(rest, c));
        assert(s =~= s.take(i) + seq![c] + rest);
        assert forall|k: int| 0 <= k < all.len() implies !(#[trigger] all[k]).contains(c) by {
            if k > 0 {
                assert(all[k] == split(rest, c)[k - 1]);
            }
        }
    }
}

/// The pieces in order, with `c` between each two.
pub open spec fn glued(pieces: Seq<Seq<char>>, c: char) -> Seq<char>
    decreases pieces.len(),
{
    if pieces.len() == 0 {
        seq![]
    } else if pieces.len() == 1 {
        pieces[0]
    } else {
        pieces[0] + seq![c] + glued(pieces.drop_first(), c)
    }
}

/// Joining one more part appends the separator and the part.
pub proof fn joining_appends(parts: Seq<Seq<char>>, part: Seq<char>, separator: Seq<char>)
    ensures
        joined(parts.push(part), separator) == if parts.len() == 0 {
            part
        } else {
            joined(parts, separator) + separator + part
        },
{
    assert(parts.push(part).drop_last() =~= parts);
}

/// A line ends at a line feed, with or without a carriage return before it; the next line
/// begins behind it. The last line may end with the text.
pub proof fn a_line_ends_at_a_line_feed(line: Seq<char>, rest: Seq<char>)
    requires
        !line.contains('\n'),
    ensures
        lines(line + seq!['\r', '\n'] + rest) == seq![line] + lines(rest),
        line.len() == 0 || line.last() != '\r' ==> lines(line + seq!['\n'] + rest) == seq![line]
            + lines(rest),
        line.len() > 0 ==> lines(line) == seq![line],
        lines(seq![]) == Seq::<Seq<char>>::empty(),
{
    let a = line + seq!['\r', '\n'] + rest;
    assert forall|j: int| 0 <= j < line.len() implies line[j] != '\n' by {
        assert(line.contains(line[j]));
    }
    lemma_find_at(a, '\n', line.len() as int + 1);
    assert(a.take(line.len() as int + 1).drop_last() =~= line);
    assert(a.skip(line.len() as int + 2) =~= rest);
    let b = line + seq!['\n'] + rest;
    lemma_find_at(b, '\n', line.len() as int);
    assert(b.take(line.len() as int) =~= line);
    assert(b.skip(line.len() as int + 1) =~= rest);
    lemma_find_at(line, '\n', line.len() as int);
}

} // verus!
