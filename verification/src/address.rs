//! Bluetooth device addresses (`BD_ADDR`) and device identities.
use vstd::prelude::*;
use crate::error::Error;
use crate::error::ErrorView;
use crate::text;

verus! {

/// A 48-bit Bluetooth device address: six octets, most significant first, in the
/// order of the text form `AA:BB:CC:DD:EE:FF`.
#[derive(Clone, Copy, Debug, PartialEq, Eq, Structural, Hash, PartialOrd, Ord)]
pub struct BdAddr(pub u8, pub u8, pub u8, pub u8, pub u8, pub u8);

impl View for BdAddr {
    type V = Seq<u8>;

    /// The six octets, most significant first.
    open spec fn view(&self) -> Seq<u8> {
        seq![self.0, self.1, self.2, self.3, self.4, self.5]
    }
}

/// A byte as two hexadecimal digits, each in the chosen case.
pub open spec fn pair(b: u8, first_upper: bool, second_upper: bool) -> Seq<char> {
    seq![
        text::digit_char((b / 16) as nat, first_upper),
        text::digit_char((b % 16) as nat, second_upper),
    ]
}

/// Octets as pairs of digits joined by `sep`; `upper(i)` is the case of the `i`th digit.
pub open spec fn written(o: Seq<u8>, sep: char, upper: spec_fn(int) -> bool) -> Seq<char>
    decreases o.len(),
{
    if o.len() == 0 {
        Seq::empty()
    } else {
        let n = o.len() as int;
        let last = pair(o.last(), upper(2 * n - 2), upper(2 * n - 1));
        if n == 1 {
            last
        } else {
            written(o.drop_last(), sep, upper).push(sep) + last
        }
    }
}

/// The canonical text of an address: upper case pairs joined by colons.
pub open spec fn canonical(o: Seq<u8>) -> Seq<char> {
    written(o, ':', |i: int| true)
}

/// The separator that an address text uses: a colon where it holds one, else a dash.
pub open spec fn separator(s: Seq<char>) -> Option<char> {
    if s.contains(':') {
        Some(':')
    } else if s.contains('-') {
        Some('-')
    } else {
        None
    }
}

/// The octet that one part spells: two hexadecimal digits once trimmed.
pub open spec fn octet(part: Seq<char>) -> Option<nat> {
    let t = text::trim(part);
    if t.len() == 2 {
        text::digits_value(t, 16)
    } else {
        None
    }
}

/// The six octets that an address text spells, if it is one.
pub open spec fn parsed(s: Seq<char>) -> Option<Seq<u8>> {
    match separator(s) {
        None => None,
        Some(sep) => {
            let parts = text::split(s, sep);
            if parts.len() == 6 && forall|i: int| 0 <= i < 6 ==> octet(#[trigger] parts[i]) is Some {
                Some(Seq::new(6, |i: int| octet(parts[i])->0 as u8))
            } else {
                None
            }
        },
    }
}

impl BdAddr {
    /// The all-zero address, used as a "none" sentinel.
    pub open spec fn none() -> BdAddr {
        BdAddr(0, 0, 0, 0, 0, 0)
    }

    /// The all-zero address, used as a "none" sentinel.
    pub fn nil() -> (r: BdAddr)
        ensures
            r == BdAddr::none(),
    {
        BdAddr(0, 0, 0, 0, 0, 0)
    }

    /// The address made of six octets.
    pub fn new(octets: [u8; 6]) -> (r: BdAddr)
        ensures
            r@ == octets@,
    {
        BdAddr(octets[0], octets[1], octets[2], octets[3], octets[4], octets[5])
    }

    /// The six octets.
    pub fn octets(self) -> (r: [u8; 6])
        ensures
            r@ == self@,
    {
        [self.0, self.1, self.2, self.3, self.4, self.5]
    }

    /// The top three octets, which name the silicon vendor.
    pub fn oui(self) -> (r: [u8; 3])
        ensures
            r@ == self@.take(3),
    {
        [self.0, self.1, self.2]
    }

    /// Whether this is the all-zero address.
    pub fn is_nil(self) -> (r: bool)
        ensures
            r == (self == BdAddr::none()),
            r == (forall|i: int| 0 <= i < 6 ==> self@[i] == 0),
    {
        let r = self == BdAddr(0, 0, 0, 0, 0, 0);
        assert((forall|i: int| 0 <= i < 6 ==> self@[i] == 0) ==> r) by {
            if forall|i: int| 0 <= i < 6 ==> self@[i] == 0 {
                assert(self@[0] == 0 && self@[1] == 0 && self@[2] == 0);
                assert(self@[3] == 0 && self@[4] == 0 && self@[5] == 0);
            }
        }
        r
    }

    /// Whether the locally-administered bit of the first octet is set.
    pub fn is_locally_administered(self) -> (r: bool)
        ensures
            r == ((self@[0] / 2) % 2 == 1),
    {
        let first: u8 = self.0;
        assert((first & 2 != 0) == ((first / 2) % 2 == 1)) by (bit_vector);
        first & 2 != 0
    }

    /// The canonical text: upper case pairs joined by colons.
    pub fn to_string(&self) -> (r: String)
        ensures
            r@ == canonical(self@),
    {
        let mut t = text::byte_text(self.0, true);
        t.push(':');
        t.append(text::byte_text(self.1, true).as_str());
        t.push(':');
        t.append(text::byte_text(self.2, true).as_str());
        t.push(':');
        t.append(text::byte_text(self.3, true).as_str());
        t.push(':');
        t.append(text::byte_text(self.4, true).as_str());
        t.push(':');
        t.append(text::byte_text(self.5, true).as_str());
        proof {
            reveal_with_fuel(written, 7);
            assert(self@.drop_last() =~= self@.take(5));
            assert(self@.take(5).drop_last() =~= self@.take(4));
            assert(self@.take(4).drop_last() =~= self@.take(3));
            assert(self@.take(3).drop_last() =~= self@.take(2));
            assert(self@.take(2).drop_last() =~= self@.take(1));
        }
        t
    }

    /// Reads an address in colon or dash form, in either case.
    pub fn parse(s: &str) -> (r: Result<BdAddr, Error>)
        ensures
            match r {
                Ok(a) => parsed(s@) == Some(a@),
                Err(e) => parsed(s@) is None && e@ == ErrorView::InvalidAddress(s@),
            },
    {
        let chars = text::chars_of(s);
        let sep: char = if text::has_char(chars.as_slice(), ':') {
            ':'
        } else if text::has_char(chars.as_slice(), '-') {
            '-'
        } else {
            return Err(Error::InvalidAddress(s.to_owned()));
        };
        let parts = text::split_at_char(chars.as_slice(), sep);
        let ghost all = text::split(s@, sep);
        assert(all.len() == parts@.len());
        if parts.len() != 6 {
            return Err(Error::InvalidAddress(s.to_owned()));
        }
        let mut octets: Vec<u8> = Vec::new();
        let mut i: usize = 0;
        while i < 6
            invariant
                i <= 6,
                parts@.len() == 6,
                all == text::split(s@, sep),
                text::pieces(parts@) == all,
                separator(s@) == Some(sep),
                octets@.len() == i,
                forall|k: int| 0 <= k < i ==> octet(#[trigger] all[k]) == Some(octets@[k] as nat),
            decreases 6 - i,
        {
            assert(all[i as int] == parts@[i as int]@);
            let t = text::trimmed(parts[i].as_slice());
            if t.len() != 2 {
                assert(octet(all[i as int]) is None);
                return Err(Error::InvalidAddress(s.to_owned()));
            }
            assert(t@.skip(0) =~= t@);
            match text::parse_digits(t.as_slice(), 0, 16, 255) {
                Some(v) => {
                    octets.push(v as u8);
                },
                None => {
                    proof {
                        two_digits_fit(t@);
                    }
                    assert(octet(all[i as int]) is None);
                    return Err(Error::InvalidAddress(s.to_owned()));
                },
            }
            i = i + 1;
        }
        let a = BdAddr(octets[0], octets[1], octets[2], octets[3], octets[4], octets[5]);
        proof {
            assert(octets@ =~= a@);
            assert(parsed(s@)->0 =~= a@);
        }
        Ok(a)
    }
}

/// Two digits never stand for more than a byte holds.
pub proof fn two_digits_fit(s: Seq<char>)
    requires
        s.len() == 2,
    ensures
        text::digits_value(s, 16) matches Some(v) ==> v <= 255,
{
    reveal_with_fuel(text::digits_value, 3);
    assert(s.drop_last().drop_last() =~= Seq::<char>::empty());
}

/// The number of pairs, separators and pieces of a written address.
proof fn written_splits(o: Seq<u8>, sep: char, upper: spec_fn(int) -> bool)
    requires
        o.len() > 0,
        sep == ':' || sep == '-',
    ensures
        text::split(written(o, sep, upper), sep) == Seq::new(
            o.len(),
            |i: int| pair(o[i], upper(2 * i), upper(2 * i + 1)),
        ),
        sep == '-' ==> !written(o, sep, upper).contains(':'),
        o.len() > 1 ==> written(o, sep, upper).contains(sep),
    decreases o.len(),
{
    let n = o.len() as int;
    let last = pair(o.last(), upper(2 * n - 2), upper(2 * n - 1));
    text::digit_reads_back((o.last() / 16) as nat, upper(2 * n - 2));
    text::digit_reads_back((o.last() % 16) as nat, upper(2 * n - 1));
    assert(!last.contains(sep));
    assert(!last.contains(':'));
    text::split_whole(last, sep);
    let w = written(o, sep, upper);
    if n == 1 {
        assert(text::split(w, sep) =~= Seq::new(
            o.len(),
            |i: int| pair(o[i], upper(2 * i), upper(2 * i + 1)),
        ));
    } else {
        let front = written(o.drop_last(), sep, upper);
        written_splits(o.drop_last(), sep, upper);
        text::split_joined(front, last, sep);
        assert(w[front.len() as int] == sep);
        if sep == '-' && w.contains(':') {
            let i = choose|i: int| 0 <= i < w.len() && w[i] == ':';
            if i < front.len() {
                assert(front[i] == ':');
            } else if i > front.len() {
                assert(last[i - front.len() - 1] == ':');
            }
            assert(false);
        }
        assert(text::split(w, sep) =~= Seq::new(
            o.len(),
            |i: int| pair(o[i], upper(2 * i), upper(2 * i + 1)),
        ));
    }
}

/// Colon and dash forms, in any mix of cases, read back as the same address.
pub proof fn every_form_parses(a: BdAddr, sep: char, upper: spec_fn(int) -> bool)
    requires
        sep == ':' || sep == '-',
    ensures
        parsed(written(a@, sep, upper)) == Some(a@),
{
    let s = written(a@, sep, upper);
    written_splits(a@, sep, upper);
    assert(separator(s) == Some(sep));
    let parts = text::split(s, sep);
    assert forall|i: int| 0 <= i < 6 implies octet(#[trigger] parts[i]) == Some(a@[i] as nat) by {
        let p = pair(a@[i], upper(2 * i), upper(2 * i + 1));
        text::digit_reads_back((a@[i] / 16) as nat, upper(2 * i));
        text::digit_reads_back((a@[i] % 16) as nat, upper(2 * i + 1));
        text::trim_keeps(p);
        text::two_digits_read_back(a@[i], upper(2 * i), upper(2 * i + 1));
    }
    assert(parsed(s)->0 =~= a@);
}

/// The canonical text of an address reads back as the address.
pub proof fn canonical_text_parses(a: BdAddr)
    ensures
        parsed(canonical(a@)) == Some(a@),
{
    every_form_parses(a, ':', |i: int| true);
}

impl std::str::FromStr for BdAddr {
    type Err = Error;

    fn from_str(s: &str) -> (r: Result<BdAddr, Error>)
        ensures
            match r {
                Ok(a) => parsed(s@) == Some(a@),
                Err(e) => parsed(s@) is None && e@ == ErrorView::InvalidAddress(s@),
            },
    {
        BdAddr::parse(s)
    }
}

impl From<[u8; 6]> for BdAddr {
    fn from(octets: [u8; 6]) -> (r: BdAddr) {
        BdAddr::new(octets)
    }
}

impl vstd::std_specs::convert::FromSpecImpl<[u8; 6]> for BdAddr {
    open spec fn obeys_from_spec() -> bool {
        true
    }

    open spec fn from_spec(octets: [u8; 6]) -> BdAddr {
        BdAddr(octets@[0], octets@[1], octets@[2], octets@[3], octets@[4], octets@[5])
    }
}

/// How an address is interpreted on the air.
#[derive(Clone, Copy, Debug, PartialEq, Eq, Structural, Hash, PartialOrd, Ord)]
pub enum AddressType {
    /// A globally unique, vendor-assigned address.
    Public,
    /// A random address, used by Bluetooth LE for privacy.
    Random,
}

impl Default for AddressType {
    fn default() -> (r: AddressType)
        ensures
            r == AddressType::Public,
    {
        AddressType::Public
    }
}

impl AddressType {
    /// The word for the type.
    pub open spec fn word(self) -> Seq<char> {
        match self {
            AddressType::Public => "public"@,
            AddressType::Random => "random"@,
        }
    }

    /// The word for the type.
    pub fn to_string(&self) -> (r: String)
        ensures
            r@ == self.word(),
    {
        match self {
            AddressType::Public => "public".to_owned(),
            AddressType::Random => "random".to_owned(),
        }
    }
}

} // verus!
