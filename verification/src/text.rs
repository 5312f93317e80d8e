//! Text building blocks: numbers in decimal and hexadecimal, padding, searching
//! and trimming, all stated over sequences of characters.
use vstd::prelude::*;

verus! {

/// `String::push` appends one character.
pub assume_specification[ String::push ](s: &mut String, ch: char)
    ensures
        final(s)@ == old(s)@.push(ch),
;

/// The digit `d` as a character; digits above nine are letters.
pub open spec fn digit_char(d: nat, upper: bool) -> char {
    if d < 10 {
        (('0' as u32) + d) as char
    } else if upper {
        (('A' as u32) + (d - 10)) as char
    } else {
        (('a' as u32) + (d - 10)) as char
    }
}

/// `n` written in `base`, without leading zeros; zero is one digit.
pub open spec fn number(n: nat, base: nat, upper: bool) -> Seq<char>
    decreases n,
{
    if base < 2 || n < base {
        seq![digit_char(n, upper)]
    } else {
        proof {
            assert(n / base < n) by (nonlinear_arith)
                requires
                    2 <= base <= n,
            ;
        }
        number(n / base, base, upper).push(digit_char(n % base, upper))
    }
}

/// `n` in decimal.
pub open spec fn decimal(n: nat) -> Seq<char> {
    number(n, 10, false)
}

/// A signed number in decimal.
pub open spec fn signed(n: int) -> Seq<char> {
    if n < 0 {
        seq!['-'] + decimal((-n) as nat)
    } else {
        decimal(n as nat)
    }
}

/// `n` copies of `c`.
pub open spec fn fill(c: char, n: nat) -> Seq<char> {
    Seq::new(n, |i: int| c)
}

/// `s` with copies of `c` in front of it, up to `width` characters.
pub open spec fn pad_left(s: Seq<char>, c: char, width: nat) -> Seq<char> {
    if s.len() < width {
        fill(c, (width - s.len()) as nat) + s
    } else {
        s
    }
}

/// `s` with blanks behind it, up to `width` characters.
pub open spec fn pad_right(s: Seq<char>, width: nat) -> Seq<char> {
    if s.len() < width {
        s + fill(' ', (width - s.len()) as nat)
    } else {
        s
    }
}

/// `n` in upper case hexadecimal, at least `width` digits.
pub open spec fn hex_upper(n: nat, width: nat) -> Seq<char> {
    pad_left(number(n, 16, true), '0', width)
}

/// A byte as two lower case hexadecimal digits.
pub open spec fn byte_lower(b: u8) -> Seq<char> {
    seq![digit_char((b / 16) as nat, false), digit_char((b % 16) as nat, false)]
}

/// A byte as two upper case hexadecimal digits.
pub open spec fn byte_upper(b: u8) -> Seq<char> {
    seq![digit_char((b / 16) as nat, true), digit_char((b % 16) as nat, true)]
}

/// The value of `c` as a digit in `base`, if it is one.
pub open spec fn digit_value(c: char, base: nat) -> Option<nat> {
    let v = if '0' <= c <= '9' {
        (c as u32 - '0' as u32) as nat
    } else if 'a' <= c <= 'z' {
        (c as u32 - 'a' as u32 + 10) as nat
    } else if 'A' <= c <= 'Z' {
        (c as u32 - 'A' as u32 + 10) as nat
    } else {
        base
    };
    if v < base {
        Some(v)
    } else {
        None
    }
}

/// The number that the digits `s` stand for; none where a character is no digit.
pub open spec fn digits_value(s: Seq<char>, base: nat) -> Option<nat>
    decreases s.len(),
{
    if s.len() == 0 {
        Some(0)
    } else {
        match (digits_value(s.drop_last(), base), digit_value(s.last(), base)) {
            (Some(high), Some(low)) => Some(high * base + low),
            _ => None,
        }
    }
}

/// The unsigned number that `s` spells in `base`: digits, after at most one `+`.
pub open spec fn unsigned(s: Seq<char>, base: nat) -> Option<nat> {
    let digits = if s.len() > 1 && s[0] == '+' {
        s.drop_first()
    } else {
        s
    };
    if digits.len() == 0 {
        None
    } else {
        digits_value(digits, base)
    }
}

/// Whether `needle` stands in `s` at position `i`.
pub open spec fn stands_at(s: Seq<char>, needle: Seq<char>, i: int) -> bool {
    &&& 0 <= i
    &&& i + needle.len() <= s.len()
    &&& s.subrange(i, i + needle.len()) == needle
}

/// Whether `needle` stands somewhere in `s`.
pub open spec fn has_text(s: Seq<char>, needle: Seq<char>) -> bool {
    exists|i: int| stands_at(s, needle, i)
}

/// The Unicode `White_Space` characters.
pub open spec fn is_blank(c: char) -> bool {
    ||| '\u{9}' <= c <= '\u{d}'
    ||| c == ' '
    ||| c == '\u{85}'
    ||| c == '\u{a0}'
    ||| c == '\u{1680}'
    ||| '\u{2000}' <= c <= '\u{200a}'
    ||| c == '\u{2028}'
    ||| c == '\u{2029}'
    ||| c == '\u{202f}'
    ||| c == '\u{205f}'
    ||| c == '\u{3000}'
}

/// `s` without the blanks at its start.
pub open spec fn trim_front(s: Seq<char>) -> Seq<char>
    decreases s.len(),
{
    if s.len() > 0 && is_blank(s[0]) {
        trim_front(s.drop_first())
    } else {
        s
    }
}

/// `s` without the blanks at its end.
pub open spec fn trim_back(s: Seq<char>) -> Seq<char>
    decreases s.len(),
{
    if s.len() > 0 && is_blank(s.last()) {
        trim_back(s.drop_last())
    } else {
        s
    }
}

/// `s` without the blanks at either end.
pub open spec fn trim(s: Seq<char>) -> Seq<char> {
    trim_back(trim_front(s))
}

/// How many bytes `s` takes in UTF-8.
pub open spec fn byte_len(s: Seq<char>) -> usize {
    vstd::utf8::encode_utf8(s).len() as usize
}

/// Whether `a` comes before `b` in the order of their characters' code points,
/// which is also the order of their UTF-8 bytes.
pub open spec fn before(a: Seq<char>, b: Seq<char>) -> bool
    decreases a.len(),
{
    if b.len() == 0 {
        false
    } else if a.len() == 0 {
        true
    } else if a[0] != b[0] {
        a[0] < b[0]
    } else {
        before(a.drop_first(), b.drop_first())
    }
}

proof fn lemma_quotient_shrinks(n: nat, base: nat)
    requires
        2 <= base <= n,
    ensures
        n / base < n,
{
    assert(n / base < n) by (nonlinear_arith)
        requires
            2 <= base <= n,
    ;
}

/// The characters of `s`, in order.
pub fn chars_of(s: &str) -> (v: Vec<char>)
    ensures
        v@ == s@,
{
    let mut v: Vec<char> = Vec::new();
    for c in it: s.chars()
        invariant
            v@ == s@.take(it.index() as int),
            it.seq() == s@,
    {
        v.push(c);
    }
    v
}

/// The text made of the given characters.
pub fn text_of(v: &[char]) -> (s: String)
    ensures
        s@ == v@,
{
    let mut s = String::new();
    let mut i: usize = 0;
    while i < v.len()
        invariant
            i <= v@.len(),
            s@ == v@.take(i as int),
        decreases v@.len() - i,
    {
        s.push(v[i]);
        i = i + 1;
    }
    assert(v@.take(i as int) =~= v@);
    s
}

/// The digit `d`, below 36, as a character.
pub fn digit(d: u8, upper: bool) -> (c: char)
    requires
        d < 36,
    ensures
        c == digit_char(d as nat, upper),
{
    if d < 10 {
        (48u8 + d) as char
    } else if upper {
        (65u8 + (d - 10)) as char
    } else {
        (97u8 + (d - 10)) as char
    }
}

/// `n` in `base`, most significant digit first.
fn number_chars(n: u128, base: u8, upper: bool) -> (v: Vec<char>)
    requires
        2 <= base <= 36,
    ensures
        v@ == number(n as nat, base as nat, upper),
    decreases n,
{
    let b: u128 = base as u128;
    if n < b {
        let mut v: Vec<char> = Vec::new();
        v.push(digit(n as u8, upper));
        assert(v@ =~= seq![digit_char(n as nat, upper)]);
        v
    } else {
        proof {
            lemma_quotient_shrinks(n as nat, base as nat);
            assert(n % b < b) by (nonlinear_arith)
                requires
                    b >= 2,
            ;
        }
        let mut v = number_chars(n / b, base, upper);
        v.push(digit((n % b) as u8, upper));
        v
    }
}

/// `n` in decimal.
pub fn decimal_text(n: u128) -> (s: String)
    ensures
        s@ == decimal(n as nat),
{
    let v = number_chars(n, 10, false);
    text_of(v.as_slice())
}

/// A signed number in decimal.
pub fn signed_text(n: i64) -> (s: String)
    ensures
        s@ == signed(n as int),
{
    if n < 0 {
        let mut s = String::new();
        s.push('-');
        assert(s@ =~= seq!['-']);
        let m: i128 = -(n as i128);
        s.append(decimal_text(m as u128).as_str());
        s
    } else {
        decimal_text(n as u128)
    }
}

/// `n` copies of `c`.
pub fn filled(c: char, n: usize) -> (s: String)
    ensures
        s@ == fill(c, n as nat),
{
    let mut s = String::new();
    let mut i: usize = 0;
    while i < n
        invariant
            i <= n,
            s@ == fill(c, i as nat),
        decreases n - i,
    {
        s.push(c);
        i = i + 1;
    }
    s
}

/// `s` padded in front with `c` up to `width` characters.
pub fn padded_left(s: &str, c: char, width: usize) -> (r: String)
    ensures
        r@ == pad_left(s@, c, width as nat),
{
    let n: usize = s.unicode_len();
    if n < width {
        let mut r = filled(c, width - n);
        r.append(s);
        r
    } else {
        s.to_owned()
    }
}

/// `s` padded behind with blanks up to `width` characters.
pub fn padded_right(s: &str, width: usize) -> (r: String)
    ensures
        r@ == pad_right(s@, width as nat),
{
    let n: usize = s.unicode_len();
    let mut r = s.to_owned();
    if n < width {
        r.append(filled(' ', width - n).as_str());
    }
    r
}

/// `n` in upper case hexadecimal, at least `width` digits.
pub fn hex_upper_text(n: u32, width: usize) -> (s: String)
    ensures
        s@ == hex_upper(n as nat, width as nat),
{
    let v = number_chars(n as u128, 16, true);
    let t = text_of(v.as_slice());
    padded_left(t.as_str(), '0', width)
}

/// A byte as two hexadecimal digits.
pub fn byte_text(b: u8, upper: bool) -> (s: String)
    ensures
        s@ == if upper {
            byte_upper(b)
        } else {
            byte_lower(b)
        },
{
    let mut s = String::new();
    s.push(digit(b / 16, upper));
    s.push(digit(b % 16, upper));
    assert(s@ =~= seq![digit_char((b / 16) as nat, upper), digit_char((b % 16) as nat, upper)]);
    s
}

/// The value of `c` as a digit in `base`, if it is one.
pub fn digit_of(c: char, base: u32) -> (r: Option<u32>)
    requires
        base <= 36,
    ensures
        match r {
            Some(v) => digit_value(c, base as nat) == Some(v as nat),
            None => digit_value(c, base as nat) is None,
        },
{
    let v: u32 = if '0' <= c && c <= '9' {
        c as u32 - '0' as u32
    } else if 'a' <= c && c <= 'z' {
        c as u32 - 'a' as u32 + 10
    } else if 'A' <= c && c <= 'Z' {
        c as u32 - 'A' as u32 + 10
    } else {
        base
    };
    if v < base {
        Some(v)
    } else {
        None
    }
}

/// A longer run of digits stands for no smaller number.
proof fn lemma_digits_grow(s: Seq<char>, k: int, base: nat)
    requires
        0 <= k <= s.len(),
        base >= 1,
    ensures
        digits_value(s.take(k), base) is None ==> digits_value(s, base) is None,
        digits_value(s, base) is Some ==> digits_value(s.take(k), base)->0 <= digits_value(
            s,
            base,
        )->0,
    decreases s.len(),
{
    if k == s.len() {
        assert(s.take(k) =~= s);
    } else {
        lemma_digits_grow(s.drop_last(), k, base);
        assert(s.drop_last().take(k) =~= s.take(k));
        if digits_value(s, base) is Some {
            let high = digits_value(s.drop_last(), base)->0;
            assert(high * base >= high) by (nonlinear_arith)
                requires
                    base >= 1,
            ;
        }
    }
}

/// Reads an unsigned number in `base`, no greater than `max`.
pub fn parse_unsigned(s: &[char], base: u32, max: u64) -> (r: Option<u64>)
    requires
        2 <= base <= 36,
        max <= 0xffff_ffff,
    ensures
        match r {
            Some(v) => unsigned(s@, base as nat) == Some(v as nat) && v <= max,
            None => unsigned(s@, base as nat) matches Some(v) ==> v > max,
        },
{
    let start: usize = if s.len() > 1 && s[0] == '+' {
        1
    } else {
        0
    };
    let ghost digits = s@.skip(start as int);
    assert(start == 1 ==> digits =~= s@.drop_first());
    assert(start == 0 ==> digits =~= s@);
    if start == s.len() {
        return None;
    }
    parse_digits(s, start, base, max)
}

/// Reads the digits of `s` from `start` on as a number in `base`, no greater than `max`.
pub fn parse_digits(s: &[char], start: usize, base: u32, max: u64) -> (r: Option<u64>)
    requires
        start <= s@.len(),
        2 <= base <= 36,
        max <= 0xffff_ffff,
    ensures
        match r {
            Some(v) => digits_value(s@.skip(start as int), base as nat) == Some(v as nat) && v
                <= max,
            None => digits_value(s@.skip(start as int), base as nat) matches Some(v) ==> v > max,
        },
{
    let ghost digits = s@.skip(start as int);
    let mut v: u64 = 0;
    let mut i: usize = start;
    while i < s.len()
        invariant
            start <= i <= s@.len(),
            2 <= base <= 36,
            max <= 0xffff_ffff,
            v <= max,
            digits == s@.skip(start as int),
            digits_value(digits.take(i - start), base as nat) == Some(v as nat),
        decreases s@.len() - i,
    {
        proof {
            lemma_digits_grow(digits, i - start + 1, base as nat);
            let next = digits.take(i - start + 1);
            assert(next.drop_last() =~= digits.take(i - start));
            assert(next.last() == s@[i as int]);
            assert(v * base <= 0xffff_ffff * 36) by (nonlinear_arith)
                requires
                    v <= 0xffff_ffff,
                    base <= 36,
            ;
        }
        match digit_of(s[i], base) {
            Some(d) => {
                let w: u64 = v * (base as u64) + d as u64;
                if w > max {
                    return None;
                }
                v = w;
            },
            None => {
                return None;
            },
        }
        i = i + 1;
    }
    assert(digits.take(i - start) =~= digits);
    Some(v)
}

/// Whether `needle` stands somewhere in `s`.
pub fn contains(s: &str, needle: &str) -> (r: bool)
    ensures
        r == has_text(s@, needle@),
{
    let a = chars_of(s);
    let b = chars_of(needle);
    if b.len() > a.len() {
        return false;
    }
    let last: usize = a.len() - b.len();
    let mut i: usize = 0;
    while i <= last
        invariant
            a@ == s@,
            b@ == needle@,
            last == a@.len() - b@.len(),
            i <= last + 1,
            forall|k: int| 0 <= k < i ==> !stands_at(s@, needle@, k),
        decreases last + 1 - i,
    {
        let m: usize = b.len();
        let n: usize = a.len();
        let mut j: usize = 0;
        while j < m && a[i + j] == b[j]
            invariant
                i <= last,
                n == a@.len(),
                m == b@.len(),
                last + m == n,
                j <= b@.len(),
                a@.subrange(i as int, i + j) == b@.take(j as int),
            decreases b@.len() - j,
        {
            proof {
                assert(a@.subrange(i as int, i + j + 1) =~= a@.subrange(i as int, i + j).push(
                    a@[i + j],
                ));
                assert(b@.take(j + 1) =~= b@.take(j as int).push(b@[j as int]));
            }
            j = j + 1;
        }
        if j == m {
            assert(b@.take(j as int) =~= b@);
            assert(stands_at(s@, needle@, i as int));
            return true;
        }
        proof {
            if stands_at(s@, needle@, i as int) {
                assert(s@.subrange(i as int, i + needle@.len())[j as int] == needle@[j as int]);
            }
        }
        if i == last {
            assert forall|k: int| !stands_at(s@, needle@, k) by {
                if 0 <= k < i {
                }
            }
            return false;
        }
        i = i + 1;
    }
    false
}

/// Whether `c` occurs in `v`.
pub fn has_char(v: &[char], c: char) -> (r: bool)
    ensures
        r == v@.contains(c),
{
    let mut i: usize = 0;
    while i < v.len()
        invariant
            i <= v@.len(),
            forall|k: int| 0 <= k < i ==> v@[k] != c,
        decreases v@.len() - i,
    {
        if v[i] == c {
            return true;
        }
        i = i + 1;
    }
    false
}

/// Whether `c` is a Unicode `White_Space` character.
pub fn blank(c: char) -> (r: bool)
    ensures
        r == is_blank(c),
{
    ('\u{9}' <= c && c <= '\u{d}') || c == ' ' || c == '\u{85}' || c == '\u{a0}' || c == '\u{1680}'
        || ('\u{2000}' <= c && c <= '\u{200a}') || c == '\u{2028}' || c == '\u{2029}' || c
        == '\u{202f}' || c == '\u{205f}' || c == '\u{3000}'
}

/// `v` without the blanks at either end.
pub fn trimmed(v: &[char]) -> (r: Vec<char>)
    ensures
        r@ == trim(v@),
{
    let mut start: usize = 0;
    assert(v@.subrange(0, v@.len() as int) =~= v@);
    while start < v.len() && blank(v[start])
        invariant
            start <= v@.len(),
            trim_front(v@) == trim_front(v@.subrange(start as int, v@.len() as int)),
        decreases v@.len() - start,
    {
        assert(v@.subrange(start as int, v@.len() as int).drop_first() =~= v@.subrange(
            start + 1,
            v@.len() as int,
        ));
        start = start + 1;
    }
    let mut end: usize = v.len();
    while end > start && blank(v[end - 1])
        invariant
            start <= end <= v@.len(),
            trim(v@) == trim_back(v@.subrange(start as int, end as int)),
        decreases end,
    {
        assert(v@.subrange(start as int, end as int).drop_last() =~= v@.subrange(
            start as int,
            end - 1,
        ));
        end = end - 1;
    }
    let mut r: Vec<char> = Vec::new();
    let mut i: usize = start;
    while i < end
        invariant
            start <= i <= end <= v@.len(),
            r@ == v@.subrange(start as int, i as int),
        decreases end - i,
    {
        r.push(v[i]);
        i = i + 1;
    }
    r
}

/// Whether two texts hold the same characters.
pub fn same(a: &str, b: &str) -> (r: bool)
    ensures
        r == (a@ == b@),
{
    let x = a.to_owned();
    let y = b.to_owned();
    x == y
}

/// Whether `a` comes before `b` in code point order.
pub fn comes_before(a: &str, b: &str) -> (r: bool)
    ensures
        r == before(a@, b@),
{
    let x = chars_of(a);
    let y = chars_of(b);
    let mut i: usize = 0;
    assert(x@.skip(0) =~= a@);
    assert(y@.skip(0) =~= b@);
    loop
        invariant
            i <= x@.len(),
            i <= y@.len(),
            before(a@, b@) == before(x@.skip(i as int), y@.skip(i as int)),
        decreases x@.len() - i,
    {
        if i >= y.len() {
            return false;
        }
        if i >= x.len() {
            return true;
        }
        if x[i] != y[i] {
            return x[i] < y[i];
        }
        assert(x@.skip(i as int).drop_first() =~= x@.skip(i + 1));
        assert(y@.skip(i as int).drop_first() =~= y@.skip(i + 1));
        i = i + 1;
    }
}

/// The order of texts is total.
pub proof fn order_is_total(a: Seq<char>, b: Seq<char>)
    ensures
        before(a, b) || before(b, a) || a == b,
    decreases a.len(),
{
    if a.len() > 0 && b.len() > 0 {
        order_is_total(a.drop_first(), b.drop_first());
        if a[0] == b[0] && a.drop_first() == b.drop_first() {
            assert(a =~= seq![a[0]] + a.drop_first());
            assert(b =~= seq![b[0]] + b.drop_first());
        }
    } else {
        assert(a.len() == 0 && b.len() == 0 ==> a =~= b);
    }
}

/// No two texts come before each other, nor a text before itself.
pub proof fn order_is_strict(a: Seq<char>, b: Seq<char>)
    requires
        before(a, b),
    ensures
        !before(b, a),
        a != b,
    decreases a.len(),
{
    if a.len() > 0 && a[0] == b[0] {
        order_is_strict(a.drop_first(), b.drop_first());
    }
}

/// The order of texts is transitive.
pub proof fn order_is_transitive(a: Seq<char>, b: Seq<char>, c: Seq<char>)
    requires
        before(a, b),
        before(b, c),
    ensures
        before(a, c),
    decreases a.len(),
{
    if a.len() > 0 && a[0] == b[0] && b[0] == c[0] {
        order_is_transitive(a.drop_first(), b.drop_first(), c.drop_first());
    }
}

/// `s` cut at every `sep`; the pieces do not hold `sep`.
pub open spec fn split(s: Seq<char>, sep: char) -> Seq<Seq<char>>
    decreases s.len(),
{
    if s.len() == 0 {
        seq![Seq::<char>::empty()]
    } else {
        let head = split(s.drop_last(), sep);
        if s.last() == sep {
            head.push(Seq::<char>::empty())
        } else {
            head.drop_last().push(head.last().push(s.last()))
        }
    }
}

/// The pieces that a list of character lists holds.
pub open spec fn pieces(v: Seq<Vec<char>>) -> Seq<Seq<char>> {
    v.map_values(|p: Vec<char>| p@)
}

/// Cutting always gives at least one piece.
pub proof fn split_is_nonempty(s: Seq<char>, sep: char)
    ensures
        split(s, sep).len() >= 1,
    decreases s.len(),
{
    if s.len() > 0 {
        split_is_nonempty(s.drop_last(), sep);
    }
}

/// A text without the separator is its own single piece.
pub proof fn split_whole(s: Seq<char>, sep: char)
    requires
        !s.contains(sep),
    ensures
        split(s, sep) == seq![s],
    decreases s.len(),
{
    if s.len() > 0 {
        assert(s.last() != sep) by {
            assert(s.contains(s.last()));
        }
        assert(!s.drop_last().contains(sep)) by {
            if s.drop_last().contains(sep) {
                let i = choose|i: int| 0 <= i < s.len() - 1 && s.drop_last()[i] == sep;
                assert(s[i] == sep);
            }
        }
        split_whole(s.drop_last(), sep);
        assert(s.drop_last().push(s.last()) =~= s);
        assert(split(s, sep) =~= seq![s]);
    } else {
        assert(s =~= Seq::<char>::empty());
    }
}

/// Two texts joined by the separator have the pieces of both.
pub proof fn split_joined(a: Seq<char>, b: Seq<char>, sep: char)
    ensures
        split(a.push(sep) + b, sep) == split(a, sep) + split(b, sep),
    decreases b.len(),
{
    let ab = a.push(sep) + b;
    if b.len() == 0 {
        assert(ab =~= a.push(sep));
        assert(ab.drop_last() =~= a);
        assert(split(ab, sep) =~= split(a, sep) + split(b, sep));
    } else {
        assert(ab.drop_last() =~= a.push(sep) + b.drop_last());
        split_joined(a, b.drop_last(), sep);
        split_is_nonempty(b.drop_last(), sep);
        assert(split(ab, sep) =~= split(a, sep) + split(b, sep));
    }
}

/// A text that neither starts nor ends with a blank is already trimmed.
pub proof fn trim_keeps(s: Seq<char>)
    requires
        s.len() > 0,
        !is_blank(s[0]),
        !is_blank(s.last()),
    ensures
        trim(s) == s,
{
}

/// A digit's character reads back as the digit, in either case.
pub proof fn digit_reads_back(d: nat, upper: bool)
    requires
        d < 16,
    ensures
        digit_value(digit_char(d, upper), 16) == Some(d),
        !is_blank(digit_char(d, upper)),
        digit_char(d, upper) != ':',
        digit_char(d, upper) != '-',
        digit_char(d, upper) != '+',
{
}

/// Two hexadecimal digits read back as the byte they spell.
pub proof fn two_digits_read_back(b: u8, first_upper: bool, second_upper: bool)
    ensures
        digits_value(
            seq![digit_char((b / 16) as nat, first_upper), digit_char((b % 16) as nat, second_upper)],
            16,
        ) == Some(b as nat),
{
    let s = seq![
        digit_char((b / 16) as nat, first_upper),
        digit_char((b % 16) as nat, second_upper),
    ];
    digit_reads_back((b / 16) as nat, first_upper);
    digit_reads_back((b % 16) as nat, second_upper);
    reveal_with_fuel(digits_value, 3);
    assert(s.drop_last() =~= seq![s[0]]);
    assert(s.drop_last().drop_last() =~= Seq::<char>::empty());
}

/// `v` cut at every `sep`.
pub fn split_at_char(v: &[char], sep: char) -> (r: Vec<Vec<char>>)
    ensures
        pieces(r@) == split(v@, sep),
{
    let mut out: Vec<Vec<char>> = Vec::new();
    let mut cur: Vec<char> = Vec::new();
    let mut i: usize = 0;
    assert(v@.take(0) =~= Seq::<char>::empty());
    assert(pieces(out@).push(cur@) =~= split(v@.take(0), sep));
    while i < v.len()
        invariant
            i <= v@.len(),
            pieces(out@).push(cur@) == split(v@.take(i as int), sep),
        decreases v@.len() - i,
    {
        let ghost before = pieces(out@).push(cur@);
        assert(v@.take(i + 1).drop_last() =~= v@.take(i as int));
        assert(v@.take(i + 1).last() == v@[i as int]);
        let c = v[i];
        if c == sep {
            let ghost piece = cur@;
            out.push(cur);
            cur = Vec::new();
            assert(pieces(out@) =~= before);
            assert(pieces(out@).push(cur@) =~= split(v@.take(i + 1), sep));
        } else {
            cur.push(c);
            assert(before.drop_last() =~= pieces(out@));
            assert(pieces(out@).push(cur@) =~= split(v@.take(i + 1), sep));
        }
        i = i + 1;
    }
    assert(v@.take(i as int) =~= v@);
    let ghost before = pieces(out@).push(cur@);
    out.push(cur);
    assert(pieces(out@) =~= before);
    out
}

/// Bytes as pairs of lower case hexadecimal digits.
pub open spec fn hexes(b: Seq<u8>) -> Seq<char>
    decreases b.len(),
{
    if b.len() == 0 {
        Seq::empty()
    } else {
        hexes(b.drop_last()) + byte_lower(b.last())
    }
}

/// The number that bytes spell, most significant first.
pub open spec fn big_endian(b: Seq<u8>) -> nat
    decreases b.len(),
{
    if b.len() == 0 {
        0
    } else {
        big_endian(b.drop_last()) * 256 + b.last() as nat
    }
}

/// The digits of bytes: two to each, none of them a dash or a sign, spelling their number.
pub proof fn hexes_read_back(b: Seq<u8>)
    ensures
        hexes(b).len() == 2 * b.len(),
        forall|i: int|
            0 <= i < b.len() ==> #[trigger] hexes(b).subrange(2 * i, 2 * i + 2) == byte_lower(b[i]),
        forall|i: int|
            0 <= i < hexes(b).len() ==> #[trigger] hexes(b)[i] != '-' && hexes(b)[i] != '+',
        digits_value(hexes(b), 16) == Some(big_endian(b)),
    decreases b.len(),
{
    if b.len() > 0 {
        let front = b.drop_last();
        let last = byte_lower(b.last());
        hexes_read_back(front);
        digit_reads_back((b.last() / 16) as nat, false);
        digit_reads_back((b.last() % 16) as nat, false);
        assert forall|i: int| 0 <= i < b.len() implies #[trigger] hexes(b).subrange(
            2 * i,
            2 * i + 2,
        ) == byte_lower(b[i]) by {
            if i < front.len() {
                assert(hexes(b).subrange(2 * i, 2 * i + 2) =~= hexes(front).subrange(
                    2 * i,
                    2 * i + 2,
                ));
            } else {
                assert(hexes(b).subrange(2 * i, 2 * i + 2) =~= last);
            }
        }
        assert forall|i: int| 0 <= i < hexes(b).len() implies #[trigger] hexes(b)[i] != '-'
            && hexes(b)[i] != '+' by {
            if i < hexes(front).len() {
                assert(hexes(b)[i] == hexes(front)[i]);
            } else {
                assert(hexes(b)[i] == last[i - hexes(front).len()]);
            }
        }
        reveal_with_fuel(digits_value, 3);
        assert(hexes(b).drop_last() =~= hexes(front).push(last[0]));
        assert(hexes(front).push(last[0]).drop_last() =~= hexes(front));
    }
}

/// Digits stand for less than the base raised to their count.
pub proof fn digits_bound(s: Seq<char>, base: nat)
    ensures
        digits_value(s, base) matches Some(v) ==> v < vstd::arithmetic::power::pow(
            base as int,
            s.len(),
        ),
    decreases s.len(),
{
    reveal(vstd::arithmetic::power::pow);
    if s.len() > 0 {
        digits_bound(s.drop_last(), base);
        if digits_value(s, base) is Some {
            let high = digits_value(s.drop_last(), base)->0;
            let low = digit_value(s.last(), base)->0;
            let p = vstd::arithmetic::power::pow(base as int, (s.len() - 1) as nat);
            assert(vstd::arithmetic::power::pow(base as int, s.len()) == base * p);
            assert(high * base + low < base * p) by (nonlinear_arith)
                requires
                    high < p,
                    low < base,
            ;
        }
    }
}

/// Bytes as pairs of lower case hexadecimal digits.
pub fn hexes_text(b: &[u8], from: usize, to: usize) -> (s: String)
    requires
        from <= to <= b@.len(),
    ensures
        s@ == hexes(b@.subrange(from as int, to as int)),
{
    let mut s = String::new();
    let mut i: usize = from;
    while i < to
        invariant
            from <= i <= to <= b@.len(),
            s@ == hexes(b@.subrange(from as int, i as int)),
        decreases to - i,
    {
        assert(b@.subrange(from as int, i + 1).drop_last() =~= b@.subrange(from as int, i as int));
        s.append(byte_text(b[i], false).as_str());
        i = i + 1;
    }
    s
}

/// The text in lower case, as `str::to_lowercase` gives it.
pub uninterp spec fn lowercase(s: Seq<char>) -> Seq<char>;

/// `str::to_lowercase`: the lower case equivalent of a text by the Unicode tables,
/// which depends on the text alone.
#[verifier::external_body]
pub(crate) fn to_lowercase(s: &str) -> (r: String)
    ensures
        r@ == lowercase(s@),
{
    s.to_lowercase()
}

/// An optional text as a plain value.
pub open spec fn optional(s: Option<String>) -> Option<Seq<char>> {
    match s {
        Some(t) => Some(t@),
        None => None,
    }
}

/// A list of texts as plain values.
pub open spec fn texts(v: Seq<String>) -> Seq<Seq<char>> {
    v.map_values(|t: String| t@)
}

/// A copy of an optional text.
pub fn clone_optional(s: &Option<String>) -> (r: Option<String>)
    ensures
        optional(r) == optional(*s),
{
    match s {
        Some(t) => Some(t.clone()),
        None => None,
    }
}

/// A copy of a list of texts.
pub fn clone_texts(v: &Vec<String>) -> (r: Vec<String>)
    ensures
        texts(r@) == texts(v@),
{
    let r = v.clone();
    assert(texts(r@) =~= texts(v@));
    r
}

/// Whether a character is a letter or a digit, as `char::is_alphanumeric` says.
pub uninterp spec fn alphanumeric(c: char) -> bool;

/// `char::is_alphanumeric`: whether a character is a letter or a digit by the Unicode
/// tables, which depends on the character alone.
#[verifier::external_body]
pub(crate) fn is_alphanumeric(c: char) -> (r: bool)
    ensures
        r == alphanumeric(c),
{
    c.is_alphanumeric()
}

} // verus!
