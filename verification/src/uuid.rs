//! 128-bit Bluetooth identifiers and their 16- and 32-bit short forms.
use vstd::prelude::*;
use crate::error::Error;
use crate::error::ErrorView;
use crate::text;

verus! {

/// A 128-bit UUID, most significant byte first.
#[derive(Clone, Copy, Debug, Eq, Hash, PartialOrd, Ord)]
pub struct Uuid(pub [u8; 16]);

impl View for Uuid {
    type V = Seq<u8>;

    open spec fn view(&self) -> Seq<u8> {
        self.0@
    }
}

impl PartialEq for Uuid {
    fn eq(&self, other: &Uuid) -> (r: bool) {
        let mut i: usize = 0;
        while i < 16
            invariant
                i <= 16,
                self.0@.len() == 16,
                other.0@.len() == 16,
                self.0@.take(i as int) == other.0@.take(i as int),
            decreases 16 - i,
        {
            if self.0[i] != other.0[i] {
                return false;
            }
            assert(self.0@.take(i + 1) =~= self.0@.take(i as int).push(self.0@[i as int]));
            assert(other.0@.take(i + 1) =~= other.0@.take(i as int).push(other.0@[i as int]));
            i = i + 1;
        }
        assert(self.0@.take(16) =~= self.0@);
        assert(other.0@.take(16) =~= other.0@);
        true
    }
}

impl vstd::std_specs::cmp::PartialEqSpecImpl for Uuid {
    open spec fn obeys_eq_spec() -> bool {
        true
    }

    open spec fn eq_spec(&self, other: &Uuid) -> bool {
        self@ == other@
    }
}

/// The Bluetooth base UUID behind its first four bytes.
pub open spec fn base_tail() -> Seq<u8> {
    seq![0, 0, 0x10, 0, 0x80, 0, 0, 0x80, 0x5F, 0x9B, 0x34, 0xFB]
}

/// A 32-bit number as four bytes, most significant first.
pub open spec fn four_bytes(v: nat) -> Seq<u8> {
    seq![
        (v / 0x100_0000 % 256) as u8,
        (v / 0x1_0000 % 256) as u8,
        (v / 0x100 % 256) as u8,
        (v % 256) as u8,
    ]
}

/// The full UUID of a short form.
pub open spec fn expanded(v: nat) -> Seq<u8> {
    four_bytes(v) + base_tail()
}

/// The hyphenated text of a UUID.
pub open spec fn hyphenated(b: Seq<u8>) -> Seq<char> {
    text::hexes(b.subrange(0, 4)) + "-"@ + text::hexes(b.subrange(4, 6)) + "-"@ + text::hexes(
        b.subrange(6, 8),
    ) + "-"@ + text::hexes(b.subrange(8, 10)) + "-"@ + text::hexes(b.subrange(10, 16))
}

/// A text without its dashes.
pub open spec fn stripped(s: Seq<char>) -> Seq<char> {
    s.filter(|c: char| c != '-')
}

/// The byte that the `i`th pair of digits spells.
pub open spec fn byte_at(t: Seq<char>, i: int) -> Option<nat> {
    text::digits_value(t.subrange(2 * i, 2 * i + 2), 16)
}

/// The bytes that a UUID text spells: 4, 8 or 32 digits once the dashes are gone.
pub open spec fn parsed(s: Seq<char>) -> Option<Seq<u8>> {
    let t = stripped(s);
    if t.len() == 4 || t.len() == 8 {
        match text::digits_value(t, 16) {
            Some(v) => Some(expanded(v)),
            None => None,
        }
    } else if t.len() == 32 && forall|i: int| 0 <= i < 16 ==> #[trigger] byte_at(t, i) is Some {
        Some(Seq::new(16, |i: int| byte_at(t, i)->0 as u8))
    } else {
        None
    }
}

/// The error for a text that is no UUID.
pub open spec fn unreadable(s: Seq<char>) -> ErrorView {
    ErrorView::Invalid { what: "UUID"@, detail: "cannot parse `"@ + s + "`"@ }
}

fn bad(s: &str) -> (r: Error)
    ensures
        r@ == unreadable(s@),
{
    let mut detail = "cannot parse `".to_owned();
    detail.append(s);
    detail.append("`");
    Error::invalid("UUID", detail.as_str())
}

impl Uuid {
    /// The UUID made of sixteen bytes.
    pub fn from_bytes(bytes: [u8; 16]) -> (r: Uuid)
        ensures
            r@ == bytes@,
    {
        Uuid(bytes)
    }

    /// The sixteen bytes.
    pub fn as_bytes(&self) -> (r: &[u8; 16])
        ensures
            r@ == self@,
    {
        &self.0
    }

    /// The full UUID of a 16-bit short form.
    pub fn from_u16(short: u16) -> (r: Uuid)
        ensures
            r@ == expanded(short as nat),
    {
        Uuid::from_u32(short as u32)
    }

    /// The full UUID of a 32-bit short form.
    pub fn from_u32(short: u32) -> (r: Uuid)
        ensures
            r@ == expanded(short as nat),
    {
        let a: u8 = (short / 0x100_0000 % 256) as u8;
        let b: u8 = (short / 0x1_0000 % 256) as u8;
        let c: u8 = (short / 0x100 % 256) as u8;
        let d: u8 = (short % 256) as u8;
        let r = Uuid([a, b, c, d, 0, 0, 0x10, 0, 0x80, 0, 0, 0x80, 0x5F, 0x9B, 0x34, 0xFB]);
        assert(r@ =~= expanded(short as nat));
        r
    }

    /// The hyphenated text, in lower case.
    pub fn to_string(&self) -> (r: String)
        ensures
            r@ == hyphenated(self@),
    {
        let b: &[u8] = self.0.as_slice();
        let mut t = text::hexes_text(b, 0, 4);
        t.append("-");
        t.append(text::hexes_text(b, 4, 6).as_str());
        t.append("-");
        t.append(text::hexes_text(b, 6, 8).as_str());
        t.append("-");
        t.append(text::hexes_text(b, 8, 10).as_str());
        t.append("-");
        t.append(text::hexes_text(b, 10, 16).as_str());
        t
    }

    /// Reads a UUID: 4, 8 or 32 hexadecimal digits, with dashes anywhere.
    pub fn parse(s: &str) -> (r: Result<Uuid, Error>)
        ensures
            match r {
                Ok(u) => parsed(s@) == Some(u@),
                Err(e) => parsed(s@) is None && e@ == unreadable(s@),
            },
    {
        let t = without_dashes(s);
        if t.len() == 4 || t.len() == 8 {
            proof {
                text::digits_bound(t@, 16);
                assert(t@.skip(0) =~= t@);
                reveal_with_fuel(vstd::arithmetic::power::pow, 10);
                assert(vstd::arithmetic::power::pow(16, 8) == 0x1_0000_0000);
                assert(vstd::arithmetic::power::pow(16, 4) == 0x1_0000);
            }
            match text::parse_digits(t.as_slice(), 0, 16, 0xffff_ffff) {
                Some(v) => Ok(Uuid::from_u32(v as u32)),
                None => Err(bad(s)),
            }
        } else if t.len() == 32 {
            let mut bytes: [u8; 16] = [0; 16];
            let mut i: usize = 0;
            while i < 16
                invariant
                    i <= 16,
                    t@.len() == 32,
                    t@ == stripped(s@),
                    bytes@.len() == 16,
                    forall|k: int|
                        0 <= k < i ==> #[trigger] byte_at(t@, k) == Some(bytes@[k] as nat),
                decreases 16 - i,
            {
                let mut two: Vec<char> = Vec::new();
                two.push(t[2 * i]);
                two.push(t[2 * i + 1]);
                assert(two@ =~= t@.subrange(2 * i, 2 * i + 2));
                assert(two@.skip(0) =~= two@);
                match text::parse_digits(two.as_slice(), 0, 16, 255) {
                    Some(v) => {
                        bytes[i] = v as u8;
                    },
                    None => {
                        proof {
                            crate::address::two_digits_fit(two@);
                        }
                        assert(byte_at(t@, i as int) is None);
                        return Err(bad(s));
                    },
                }
                i = i + 1;
            }
            assert(parsed(s@)->0 =~= bytes@);
            Ok(Uuid(bytes))
        } else {
            Err(bad(s))
        }
    }
}

/// The characters of `s` without its dashes.
fn without_dashes(s: &str) -> (t: Vec<char>)
    ensures
        t@ == stripped(s@),
{
    let v = text::chars_of(s);
    let ghost keep = |c: char| c != '-';
    let mut t: Vec<char> = Vec::new();
    let mut i: usize = 0;
    proof {
        reveal(Seq::filter);
        assert(v@.take(0).filter(keep) =~= Seq::empty());
    }
    while i < v.len()
        invariant
            i <= v@.len(),
            keep == (|c: char| c != '-'),
            t@ == v@.take(i as int).filter(keep),
        decreases v@.len() - i,
    {
        proof {
            reveal(Seq::filter);
            assert(v@.take(i + 1).drop_last() =~= v@.take(i as int));
        }
        if v[i] != '-' {
            t.push(v[i]);
        }
        i = i + 1;
    }
    assert(v@.take(i as int) =~= v@);
    t
}

impl std::str::FromStr for Uuid {
    type Err = Error;

    fn from_str(s: &str) -> (r: Result<Uuid, Error>)
        ensures
            match r {
                Ok(u) => parsed(s@) == Some(u@),
                Err(e) => parsed(s@) is None && e@ == unreadable(s@),
            },
    {
        Uuid::parse(s)
    }
}

/// A text without dashes stays as it is.
proof fn stripping_keeps(s: Seq<char>)
    requires
        forall|i: int| 0 <= i < s.len() ==> s[i] != '-',
    ensures
        stripped(s) == s,
    decreases s.len(),
{
    reveal(Seq::filter);
    if s.len() > 0 {
        stripping_keeps(s.drop_last());
        assert(s.drop_last().push(s.last()) =~= s);
    } else {
        assert(stripped(s) =~= s);
    }
}

/// A text joined to another by a dash loses the dash.
proof fn stripping_joins(a: Seq<char>, b: Seq<char>)
    requires
        forall|i: int| 0 <= i < b.len() ==> b[i] != '-',
    ensures
        stripped(a + "-"@ + b) == stripped(a) + b,
{
    let keep = |c: char| c != '-';
    reveal_strlit("-");
    let dash = "-"@;
    assert(dash =~= seq!['-']);
    assert(stripped(dash) =~= Seq::empty()) by {
        reveal(Seq::filter);
        assert(dash.drop_last() =~= Seq::empty());
        assert(dash.drop_last().filter(keep) =~= Seq::empty());
    }
    Seq::filter_distributes_over_add(a + dash, b, keep);
    Seq::filter_distributes_over_add(a, dash, keep);
    stripping_keeps(b);
    assert(stripped(a) + Seq::<char>::empty() =~= stripped(a));
}

/// The digits of two runs of bytes, one behind the other.
proof fn hexes_join(a: Seq<u8>, b: Seq<u8>)
    ensures
        text::hexes(a + b) == text::hexes(a) + text::hexes(b),
    decreases b.len(),
{
    if b.len() == 0 {
        assert(a + b =~= a);
        assert(text::hexes(a) + text::hexes(b) =~= text::hexes(a));
    } else {
        assert((a + b).drop_last() =~= a + b.drop_last());
        hexes_join(a, b.drop_last());
        assert(text::hexes(a + b) =~= text::hexes(a) + text::hexes(b));
    }
}

/// The hyphenated text of a UUID, without its dashes, is the digits of its bytes.
proof fn hyphenated_strips(b: Seq<u8>)
    requires
        b.len() == 16,
    ensures
        stripped(hyphenated(b)) == text::hexes(b),
{
    let p0 = b.subrange(0, 4);
    let p1 = b.subrange(4, 6);
    let p2 = b.subrange(6, 8);
    let p3 = b.subrange(8, 10);
    let p4 = b.subrange(10, 16);
    text::hexes_read_back(p0);
    text::hexes_read_back(p1);
    text::hexes_read_back(p2);
    text::hexes_read_back(p3);
    text::hexes_read_back(p4);
    let t0 = text::hexes(p0);
    let t1 = t0 + "-"@ + text::hexes(p1);
    let t2 = t1 + "-"@ + text::hexes(p2);
    let t3 = t2 + "-"@ + text::hexes(p3);
    stripping_keeps(t0);
    stripping_joins(t0, text::hexes(p1));
    stripping_joins(t1, text::hexes(p2));
    stripping_joins(t2, text::hexes(p3));
    stripping_joins(t3, text::hexes(p4));
    hexes_join(p0, p1);
    hexes_join(p0 + p1, p2);
    hexes_join(p0 + p1 + p2, p3);
    hexes_join(p0 + p1 + p2 + p3, p4);
    assert(p0 + p1 + p2 + p3 + p4 =~= b);
}

/// The text of a UUID reads back as the UUID.
pub proof fn text_parses(u: Seq<u8>)
    requires
        u.len() == 16,
    ensures
        parsed(hyphenated(u)) == Some(u),
{
    let s = hyphenated(u);
    let t = stripped(s);
    hyphenated_strips(u);
    text::hexes_read_back(u);
    assert forall|i: int| 0 <= i < 16 implies #[trigger] byte_at(t, i) == Some(u[i] as nat) by {
        assert(text::hexes(u).subrange(2 * i, 2 * i + 2) == text::byte_lower(u[i]));
        text::two_digits_read_back(u[i], false, false);
    }
    assert(parsed(s)->0 =~= u);
}

/// Bytes as pairs of hexadecimal digits, each in the case that `upper` asks for.
pub open spec fn spelled(b: Seq<u8>, upper: spec_fn(int) -> bool) -> Seq<char> {
    Seq::new(
        2 * b.len(),
        |i: int|
            text::digit_char(
                (if i % 2 == 0 {
                    b[i / 2] / 16
                } else {
                    b[i / 2] % 16
                }) as nat,
                upper(i),
            ),
    )
}

/// A text reads as a UUID where, without its dashes, it spells the UUID's bytes: in either
/// case or a mix of both, hyphenated anywhere or not at all.
pub proof fn any_spelling_parses(s: Seq<char>, u: Seq<u8>, upper: spec_fn(int) -> bool)
    requires
        u.len() == 16,
        stripped(s) == spelled(u, upper),
    ensures
        parsed(s) == Some(u),
{
    let t = stripped(s);
    assert forall|i: int| 0 <= i < 16 implies #[trigger] byte_at(t, i) == Some(u[i] as nat) by {
        assert(t.subrange(2 * i, 2 * i + 2) =~= seq![
            text::digit_char((u[i] / 16) as nat, upper(2 * i)),
            text::digit_char((u[i] % 16) as nat, upper(2 * i + 1)),
        ]);
        text::two_digits_read_back(u[i], upper(2 * i), upper(2 * i + 1));
    }
    assert(parsed(s)->0 =~= u);
}

/// The digits of a UUID without any dash, in either case, read back as the UUID.
pub proof fn unhyphenated_text_parses(u: Seq<u8>, upper: spec_fn(int) -> bool)
    requires
        u.len() == 16,
    ensures
        parsed(spelled(u, upper)) == Some(u),
{
    let s = spelled(u, upper);
    assert forall|i: int| 0 <= i < s.len() implies s[i] != '-' by {
        let d = (if i % 2 == 0 {
            u[i / 2] / 16
        } else {
            u[i / 2] % 16
        }) as nat;
        text::digit_reads_back(d, upper(i));
    }
    stripping_keeps(s);
    any_spelling_parses(s, u, upper);
}

/// The hyphenated text of a UUID, each digit in the case that `upper` asks for.
pub open spec fn hyphenated_in(b: Seq<u8>, upper: spec_fn(int) -> bool) -> Seq<char> {
    let t = spelled(b, upper);
    t.subrange(0, 8) + "-"@ + t.subrange(8, 12) + "-"@ + t.subrange(12, 16) + "-"@ + t.subrange(
        16,
        20,
    ) + "-"@ + t.subrange(20, 32)
}

/// The hyphenated text of a UUID reads back as the UUID in upper case, in lower case and in
/// any mix.
pub proof fn hyphenated_text_parses(u: Seq<u8>, upper: spec_fn(int) -> bool)
    requires
        u.len() == 16,
    ensures
        parsed(hyphenated_in(u, upper)) == Some(u),
{
    let t = spelled(u, upper);
    assert forall|i: int| 0 <= i < t.len() implies t[i] != '-' by {
        let d = (if i % 2 == 0 {
            u[i / 2] / 16
        } else {
            u[i / 2] % 16
        }) as nat;
        text::digit_reads_back(d, upper(i));
    }
    let p0 = t.subrange(0, 8);
    let p1 = t.subrange(8, 12);
    let p2 = t.subrange(12, 16);
    let p3 = t.subrange(16, 20);
    let p4 = t.subrange(20, 32);
    let t1 = p0 + "-"@ + p1;
    let t2 = t1 + "-"@ + p2;
    let t3 = t2 + "-"@ + p3;
    stripping_keeps(p0);
    stripping_joins(p0, p1);
    stripping_joins(t1, p2);
    stripping_joins(t2, p3);
    stripping_joins(t3, p4);
    assert(p0 + p1 + p2 + p3 + p4 =~= t);
    any_spelling_parses(hyphenated_in(u, upper), u, upper);
}

/// Four or eight digits read as the short form that they spell.
proof fn digits_parse(b: Seq<u8>)
    requires
        b.len() == 2 || b.len() == 4,
    ensures
        parsed(text::hexes(b)) == Some(expanded(text::big_endian(b))),
{
    text::hexes_read_back(b);
    stripping_keeps(text::hexes(b));
}

/// Two bytes spell the number that they split.
proof fn two_bytes_spell(v: u16)
    ensures
        text::big_endian(seq![(v / 256) as u8, (v % 256) as u8]) == v,
{
    let b = seq![(v / 256) as u8, (v % 256) as u8];
    assert(b.drop_last() =~= seq![b[0]]);
    assert(seq![b[0]].drop_last() =~= Seq::<u8>::empty());
    assert(text::big_endian(Seq::<u8>::empty()) == 0);
    assert(text::big_endian(seq![b[0]]) == b[0]);
}

/// Four bytes spell the number that they split.
proof fn four_bytes_spell(v: u16)
    ensures
        text::big_endian(four_bytes(v as nat)) == v,
{
    let b = four_bytes(v as nat);
    assert(b[0] == 0 && b[1] == 0);
    assert(b.drop_last() =~= seq![b[0], b[1], b[2]]);
    assert(seq![b[0], b[1], b[2]].drop_last() =~= seq![b[0], b[1]]);
    assert(seq![b[0], b[1]].drop_last() =~= seq![b[0]]);
    assert(seq![b[0]].drop_last() =~= Seq::<u8>::empty());
    assert(text::big_endian(Seq::<u8>::empty()) == 0);
    assert(text::big_endian(seq![b[0]]) == 0);
    assert(text::big_endian(seq![b[0], b[1]]) == 0);
    assert(text::big_endian(seq![b[0], b[1], b[2]]) == b[2]);
}

/// A 16-bit short form, in two bytes of digits or in four, reads as the UUID whose
/// full text it abbreviates.
pub proof fn short_forms_parse(v: u16)
    ensures
        parsed(text::hexes(seq![(v / 256) as u8, (v % 256) as u8])) == Some(expanded(v as nat)),
        parsed(text::hexes(four_bytes(v as nat))) == Some(expanded(v as nat)),
        parsed(hyphenated(expanded(v as nat))) == Some(expanded(v as nat)),
{
    digits_parse(seq![(v / 256) as u8, (v % 256) as u8]);
    two_bytes_spell(v);
    digits_parse(four_bytes(v as nat));
    four_bytes_spell(v);
    text_parses(expanded(v as nat));
}

} // verus!
