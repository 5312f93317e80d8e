//! Texts made of numbers tell the numbers: what is written reads back, and padding changes
//! nothing but the width.
use vstd::prelude::*;
use crate::text;

verus! {

/// A number written in a base of up to 36 reads back in it, and is written without leading
/// zeros.
pub proof fn number_reads_back(n: nat, base: nat, upper: bool)
    requires
        2 <= base <= 36,
    ensures
        text::number(n, base, upper).len() >= 1,
        text::digits_value(text::number(n, base, upper), base) == Some(n),
        text::number(n, base, upper)[0] != '+',
        text::number(n, base, upper)[0] != '-',
        n > 0 ==> text::number(n, base, upper)[0] != '0',
    decreases n,
{
    let s = text::number(n, base, upper);
    if n < base {
        reveal_with_fuel(text::digits_value, 2);
        assert(s.drop_last() =~= Seq::<char>::empty());
        assert(0nat * base + n == n) by (nonlinear_arith);
    } else {
        let high = n / base;
        let low = n % base;
        assert(high < n && high >= 1 && low < base && high * base + low == n) by (nonlinear_arith)
            requires
                2 <= base <= n,
                high == n / base,
                low == n % base,
        ;
        number_reads_back(high, base, upper);
        assert(s.drop_last() =~= text::number(high, base, upper));
        assert(text::digit_value(text::digit_char(low, upper), base) == Some(low));
    }
}

/// A number in decimal reads back; so different numbers are written differently.
pub proof fn decimal_reads_back(n: nat)
    ensures
        text::unsigned(text::decimal(n), 10) == Some(n),
        text::digits_value(text::decimal(n), 10) == Some(n),
{
    number_reads_back(n, 10, false);
}

/// A signed number in decimal is a minus exactly below zero, and the digits of its size.
pub proof fn signed_reads_back(n: int)
    ensures
        n >= 0 ==> text::digits_value(text::signed(n), 10) == Some(n as nat),
        n < 0 ==> text::signed(n)[0] == '-' && text::digits_value(
            text::signed(n).drop_first(),
            10,
        ) == Some((-n) as nat),
        n >= 0 ==> text::signed(n)[0] != '-',
{
    if n < 0 {
        number_reads_back((-n) as nat, 10, false);
        assert(text::signed(n).drop_first() =~= text::decimal((-n) as nat));
    } else {
        number_reads_back(n as nat, 10, false);
    }
}

proof fn leading_zeros_count_nothing(zeros: nat, s: Seq<char>, base: nat)
    requires
        2 <= base <= 36,
    ensures
        text::digits_value(text::fill('0', zeros) + s, base) == text::digits_value(s, base),
    decreases zeros + s.len(),
{
    let t = text::fill('0', zeros) + s;
    if s.len() > 0 {
        leading_zeros_count_nothing(zeros, s.drop_last(), base);
        assert(t.drop_last() =~= text::fill('0', zeros) + s.drop_last());
    } else if zeros > 0 {
        leading_zeros_count_nothing((zeros - 1) as nat, s, base);
        assert(t.drop_last() =~= text::fill('0', (zeros - 1) as nat) + s);
        assert(text::digit_value('0', base) == Some(0nat));
        assert(0nat * base + 0 == 0) by (nonlinear_arith);
    } else {
        assert(t =~= s);
    }
}

/// A number in hexadecimal reads back and takes at least the width asked for; one that
/// fits takes exactly that.
pub proof fn hexadecimal_reads_back(n: nat, width: nat)
    ensures
        text::digits_value(text::hex_upper(n, width), 16) == Some(n),
        text::hex_upper(n, width).len() >= width,
        text::number(n, 16, true).len() <= width ==> text::hex_upper(n, width).len() == width,
{
    number_reads_back(n, 16, true);
    let s = text::number(n, 16, true);
    if s.len() < width {
        leading_zeros_count_nothing((width - s.len()) as nat, s, 16);
    }
}

proof fn digits_of_small_numbers(n: nat)
    requires
        n <= 0xFFFF,
    ensures
        text::number(n, 16, true).len() <= 4,
{
    reveal_with_fuel(text::number, 5);
    assert(n / 16 < 0x1000 && n / 16 / 16 < 0x100 && n / 16 / 16 / 16 < 0x10);
}

/// A 16-bit number takes exactly four hexadecimal digits.
pub proof fn four_digits_hold_sixteen_bits(n: u16)
    ensures
        text::hex_upper(n as nat, 4).len() == 4,
        text::digits_value(text::hex_upper(n as nat, 4), 16) == Some(n as nat),
{
    digits_of_small_numbers(n as nat);
    hexadecimal_reads_back(n as nat, 4);
}

/// A byte in hexadecimal is two digits that read back.
pub proof fn byte_reads_back(b: u8)
    ensures
        text::byte_lower(b).len() == 2,
        text::byte_upper(b).len() == 2,
        text::digits_value(text::byte_lower(b), 16) == Some(b as nat),
        text::digits_value(text::byte_upper(b), 16) == Some(b as nat),
{
    text::two_digits_read_back(b, false, false);
    text::two_digits_read_back(b, true, true);
}

/// Padding in front keeps the text at the end, fills the rest with the one character, and
/// never cuts.
pub proof fn padding_keeps_the_text(s: Seq<char>, c: char, width: nat)
    ensures
        ({
            let left = text::pad_left(s, c, width);
            let right = text::pad_right(s, width);
            let n = if s.len() < width {
                width
            } else {
                s.len()
            };
            &&& left.len() == n
            &&& left.skip(n - s.len()) == s
            &&& forall|i: int| 0 <= i < n - s.len() ==> #[trigger] left[i] == c
            &&& right.len() == n
            &&& right.take(s.len() as int) == s
            &&& forall|i: int| s.len() <= i < n ==> #[trigger] right[i] == ' '
        }),
{
    let left = text::pad_left(s, c, width);
    let right = text::pad_right(s, width);
    assert(left.skip(left.len() - s.len()) =~= s);
    assert(right.take(s.len() as int) =~= s);
}

/// Trimming takes blanks off both ends and nothing else: what is left has none at its ends
/// and stands in the text between blanks.
pub proof fn trimming_takes_blanks_only(s: Seq<char>)
    ensures
        ({
            let t = text::trim(s);
            &&& t.len() > 0 ==> !text::is_blank(t[0]) && !text::is_blank(t.last())
            &&& exists|i: int, j: int|
                {
                    &&& 0 <= i <= j <= s.len()
                    &&& t == #[trigger] s.subrange(i, j)
                    &&& forall|k: int| 0 <= k < i ==> text::is_blank(#[trigger] s[k])
                    &&& forall|k: int| j <= k < s.len() ==> text::is_blank(#[trigger] s[k])
                }
        }),
{
    let f = text::trim_front(s);
    let i = front_is_cut(s);
    let n = back_is_cut(f);
    let t = text::trim(s);
    assert(t == f.take(n));
    let j = i + n;
    assert(t =~= s.subrange(i, j));
    assert forall|k: int| j <= k < s.len() implies text::is_blank(#[trigger] s[k]) by {
        assert(f[k - i] == s[k]);
    }
    if t.len() > 0 {
        assert(t[0] == f[0]);
    }
}

proof fn front_is_cut(s: Seq<char>) -> (i: int)
    ensures
        0 <= i <= s.len(),
        text::trim_front(s) == s.skip(i),
        forall|k: int| 0 <= k < i ==> text::is_blank(#[trigger] s[k]),
        text::trim_front(s).len() > 0 ==> !text::is_blank(text::trim_front(s)[0]),
    decreases s.len(),
{
    if s.len() > 0 && text::is_blank(s[0]) {
        let rest = s.drop_first();
        let j = front_is_cut(rest);
        assert(rest.skip(j) =~= s.skip(j + 1));
        assert forall|k: int| 0 <= k < j + 1 implies text::is_blank(#[trigger] s[k]) by {
            if k > 0 {
                assert(rest[k - 1] == s[k]);
            }
        }
        j + 1
    } else {
        assert(s.skip(0) =~= s);
        0
    }
}

proof fn back_is_cut(s: Seq<char>) -> (n: int)
    ensures
        0 <= n <= s.len(),
        text::trim_back(s) == s.take(n),
        forall|k: int| n <= k < s.len() ==> text::is_blank(#[trigger] s[k]),
        n > 0 ==> !text::is_blank(s[n - 1]),
    decreases s.len(),
{
    if s.len() > 0 && text::is_blank(s.last()) {
        let rest = s.drop_last();
        let n = back_is_cut(rest);
        assert(rest.take(n) =~= s.take(n));
        assert forall|k: int| n <= k < s.len() implies text::is_blank(#[trigger] s[k]) by {
            if k < rest.len() {
                assert(rest[k] == s[k]);
            }
        }
        n
    } else {
        assert(s.take(s.len() as int) =~= s);
        s.len() as int
    }
}

/// The pieces of a cut text, joined by the separator, are the text, and none holds it.
pub open spec fn joined(pieces: Seq<Seq<char>>, sep: char) -> Seq<char>
    decreases pieces.len(),
{
    if pieces.len() == 0 {
        Seq::empty()
    } else if pieces.len() == 1 {
        pieces[0]
    } else {
        joined(pieces.drop_last(), sep).push(sep) + pieces.last()
    }
}

/// Cutting a text loses nothing: the pieces, joined by the separator, are the text, and no
/// piece holds the separator.
pub proof fn cutting_loses_nothing(s: Seq<char>, sep: char)
    ensures
        text::split(s, sep).len() >= 1,
        joined(text::split(s, sep), sep) == s,
        forall|i: int| 0 <= i < text::split(s, sep).len() ==> !(#[trigger] text::split(s, sep)[i]).contains(sep),
    decreases s.len(),
{
    let p = text::split(s, sep);
    if s.len() == 0 {
        assert(p.len() == 1);
        assert(p[0].len() == 0);
    } else {
        let rest = s.drop_last();
        let q = text::split(rest, sep);
        cutting_loses_nothing(rest, sep);
        if s.last() == sep {
            assert(p =~= q.push(Seq::empty()));
            assert(p.drop_last() =~= q);
            assert(joined(p, sep) =~= s);
        } else {
            assert(p.len() == q.len());
            assert(p.drop_last() =~= q.drop_last());
            assert(p.last() == q.last().push(s.last()));
            assert forall|i: int| 0 <= i < p.len() implies !(#[trigger] p[i]).contains(sep) by {
                if i < p.len() - 1 {
                    assert(p[i] == q[i]);
                } else {
                    assert(!q[i].contains(sep));
                    if p[i].contains(sep) {
                        let k = choose|k: int| 0 <= k < p[i].len() && p[i][k] == sep;
                        assert(q[i][k] == sep);
                    }
                }
            }
            if p.len() == 1 {
                assert(p[0] =~= s);
            } else {
                assert(joined(q, sep) == joined(q.drop_last(), sep).push(sep) + q.last());
                assert(joined(p, sep) == joined(p.drop_last(), sep).push(sep) + p.last());
            }
            assert(s =~= rest.push(s.last()));
            assert(joined(p, sep) =~= s);
        }
    }
}

/// Texts are ordered as in a dictionary: at the first place where two differ the smaller
/// character comes first, and a text comes before every longer one that it begins.
pub proof fn order_is_by_first_difference(
    common: Seq<char>,
    x: char,
    y: char,
    a: Seq<char>,
    b: Seq<char>,
)
    ensures
        x < y ==> text::before(common.push(x) + a, common.push(y) + b),
        x > y ==> !text::before(common.push(x) + a, common.push(y) + b),
        text::before(common, common.push(x) + a),
        !text::before(common.push(x) + a, common),
        !text::before(common, common),
    decreases common.len(),
{
    let s = common.push(x) + a;
    let t = common.push(y) + b;
    if common.len() > 0 {
        let rest = common.drop_first();
        order_is_by_first_difference(rest, x, y, a, b);
        assert(s.drop_first() =~= rest.push(x) + a);
        assert(t.drop_first() =~= rest.push(y) + b);
        assert(s[0] == common[0] && t[0] == common[0]);
    } else {
        assert(s[0] == x && t[0] == y);
    }
}

/// Which characters are blank: tab to carriage return, the space, next line, the no-break
/// space, and the spaces and separators of Unicode.
pub proof fn blanks_by_number(c: char)
    ensures
        text::is_blank(c) <==> ({
            let n = c as u32;
            ||| 9 <= n <= 13
            ||| n == 32
            ||| n == 0x85
            ||| n == 0xA0
            ||| n == 0x1680
            ||| 0x2000 <= n <= 0x200A
            ||| n == 0x2028
            ||| n == 0x2029
            ||| n == 0x202F
            ||| n == 0x205F
            ||| n == 0x3000
        }),
{
}

} // verus!
