//! MAC addresses: six octets written as hex pairs separated by `:` or `-`.

use vstd::prelude::*;

use crate::text::{dec, push_char, push_str, to_string, usize_to_dec};
use vstd::string::StringSliceAdditionalSpecFns;
use crate::types::schema_helpers::SameValue;

verus! {

broadcast use vstd::seq_lib::group_seq_properties;

/// Why a string is not a MAC address.
#[derive(Debug, Clone, Copy, PartialEq, Eq, Structural)]
pub enum ParseMacError {
    InvalidDigit(u8),
    InvalidLen { got: usize },
    InvalidDelimiter(u8),
    InconsistentDelimiter { expected: u8, got: u8 },
}

/// The length of a written MAC address.
pub open spec fn mac_text_len() -> nat {
    17
}

/// The value of a hex digit byte, either case.
pub open spec fn nibble(b: u8) -> Option<u8> {
    if 48 <= b <= 57 {
        Some((b - 48) as u8)
    } else if 97 <= b <= 102 {
        Some((b - 97 + 10) as u8)
    } else if 65 <= b <= 70 {
        Some((b - 65 + 10) as u8)
    } else {
        None
    }
}

/// Reads octets `i..6` of `b`, where `delim` is the delimiter seen so far. Each octet is two
/// hex digits (high first); after each of the first five stands the delimiter, `:` or `-`,
/// the same throughout. The first fault met, left to right, is reported.
pub open spec fn mac_scan(b: Seq<u8>, i: int, delim: Option<u8>) -> Result<Seq<u8>, ParseMacError>
    decreases 6 - i,
{
    if i >= 6 || i < 0 {
        Ok(Seq::empty())
    } else {
        let off = 3 * i;
        match nibble(b[off]) {
            None => Err(ParseMacError::InvalidDigit(b[off])),
            Some(hi) => match nibble(b[off + 1]) {
                None => Err(ParseMacError::InvalidDigit(b[off + 1])),
                Some(lo) => {
                    let octet = (hi * 16 + lo) as u8;
                    let next: Result<Option<u8>, ParseMacError> = if i < 5 {
                        let d = b[off + 2];
                        match delim {
                            None => if d != 58 && d != 45 {
                                Err(ParseMacError::InvalidDelimiter(d))
                            } else {
                                Ok(Some(d))
                            },
                            Some(e) => if d != e {
                                Err(ParseMacError::InconsistentDelimiter { expected: e, got: d })
                            } else {
                                Ok(Some(e))
                            },
                        }
                    } else {
                        Ok(delim)
                    };
                    match next {
                        Err(e) => Err(e),
                        Ok(nd) => match mac_scan(b, i + 1, nd) {
                            Err(e) => Err(e),
                            Ok(rest) => Ok(seq![octet] + rest),
                        },
                    }
                },
            },
        }
    }
}

/// The outcome of parsing the bytes `b` as a MAC address.
pub open spec fn mac_parse(b: Seq<u8>) -> Result<Seq<u8>, ParseMacError> {
    if b.len() != mac_text_len() {
        Err(ParseMacError::InvalidLen { got: b.len() as usize })
    } else {
        mac_scan(b, 0, None)
    }
}

/// The lowercase hex digit of a value below 16.
pub open spec fn hex_digit(n: u8) -> char {
    if n < 10 {
        ((48 + n) as u8) as char
    } else {
        ((87 + n) as u8) as char
    }
}

/// The colon-separated lowercase form of a MAC address, `aa:bb:cc:dd:ee:ff`: for each
/// octet its high and low hex digit, and a `:` between octets.
pub open spec fn mac_text(m: Seq<u8>) -> Seq<char> {
    Seq::new(
        17,
        |k: int|
            if k % 3 == 2 {
                ':'
            } else if k % 3 == 0 {
                hex_digit(m[k / 3] / 16)
            } else {
                hex_digit(m[k / 3] % 16)
            },
    )
}

/// A MAC address.
#[derive(Debug, PartialEq, Eq, Hash, Clone, Copy)]
pub struct MacAddress([u8; 6]);

impl View for MacAddress {
    type V = Seq<u8>;

    closed spec fn view(&self) -> Seq<u8> {
        self.0@
    }
}

fn parse_nibble(byte: u8) -> (r: Result<u8, ParseMacError>)
    ensures
        match nibble(byte) {
            Some(n) => r == Ok::<u8, ParseMacError>(n),
            None => r == Err::<u8, ParseMacError>(ParseMacError::InvalidDigit(byte)),
        },
{
    if 48 <= byte && byte <= 57 {
        Ok(byte - 48)
    } else if 97 <= byte && byte <= 102 {
        Ok(byte - 97 + 10)
    } else if 65 <= byte && byte <= 70 {
        Ok(byte - 65 + 10)
    } else {
        Err(ParseMacError::InvalidDigit(byte))
    }
}

fn check_delimiter(byte: u8, delimiter: Option<u8>) -> (r: Result<Option<u8>, ParseMacError>)
    ensures
        r == match delimiter {
            None => if byte != 58 && byte != 45 {
                Err::<Option<u8>, ParseMacError>(ParseMacError::InvalidDelimiter(byte))
            } else {
                Ok(Some(byte))
            },
            Some(e) => if byte != e {
                Err(ParseMacError::InconsistentDelimiter { expected: e, got: byte })
            } else {
                Ok(Some(e))
            },
        },
{
    match delimiter {
        None => {
            if byte != 58 && byte != 45 {
                return Err(ParseMacError::InvalidDelimiter(byte));
            }
            Ok(Some(byte))
        },
        Some(d) => {
            if byte != d {
                return Err(ParseMacError::InconsistentDelimiter { expected: d, got: byte });
            }
            Ok(Some(d))
        },
    }
}

fn hex_char(n: u8) -> (c: char)
    requires
        n < 16,
    ensures
        c == hex_digit(n),
{
    if n < 10 {
        (48 + n) as char
    } else {
        (87 + n) as char
    }
}

impl MacAddress {
    /// Parses `aa:bb:cc:dd:ee:ff` or `aa-bb-cc-dd-ee-ff`, hex digits of either case.
    pub fn parse(s: &str) -> (r: Result<MacAddress, ParseMacError>)
        ensures
            match r {
                Ok(m) => mac_parse(s.spec_bytes()) == Ok::<Seq<u8>, ParseMacError>(m@),
                Err(e) => mac_parse(s.spec_bytes()) == Err::<Seq<u8>, ParseMacError>(e),
            },
    {
        let bytes = s.as_bytes();
        if bytes.len() != 17 {
            return Err(ParseMacError::InvalidLen { got: bytes.len() });
        }
        let ghost b = bytes@;
        let mut octets: [u8; 6] = [0; 6];
        let mut delimiter: Option<u8> = None;
        let mut i: usize = 0;
        while i < 6
            invariant
                bytes@ == b,
                b.len() == 17,
                i <= 6,
                octets@.len() == 6,
                b == s.spec_bytes(),
                mac_scan(b, 0, None) == match mac_scan(b, i as int, delimiter) {
                    Ok(rest) => Ok(octets@.take(i as int) + rest),
                    Err(e) => Err::<Seq<u8>, ParseMacError>(e),
                },
            decreases 6 - i,
        {
            let off = i * 3;
            let hi = match parse_nibble(bytes[off]) {
                Ok(n) => n,
                Err(e) => return Err(e),
            };
            let lo = match parse_nibble(bytes[off + 1]) {
                Ok(n) => n,
                Err(e) => return Err(e),
            };
            let octet: u8 = hi * 16 + lo;
            let ghost old_octets = octets@;
            if i < 5 {
                delimiter = match check_delimiter(bytes[off + 2], delimiter) {
                    Ok(d) => d,
                    Err(e) => return Err(e),
                };
            }
            octets[i] = octet;
            proof {
                assert(octets@.take(i + 1) =~= old_octets.take(i as int).push(octet));
                match mac_scan(b, i + 1, delimiter) {
                    Ok(rest) => {
                        assert(octets@.take(i + 1) + rest =~= old_octets.take(i as int) + (seq![
                            octet,
                        ] + rest));
                    },
                    Err(_) => {},
                }
            }
            i = i + 1;
        }
        assert(octets@.take(6) =~= octets@);
        assert(octets@ + Seq::<u8>::empty() =~= octets@);
        Ok(MacAddress(octets))
    }

    /// The address with the given octets.
    pub fn from_octets(octets: [u8; 6]) -> (r: MacAddress)
        ensures
            r@ == octets@,
    {
        MacAddress(octets)
    }

    /// Compares two addresses.
    pub fn same(&self, other: &MacAddress) -> (r: bool)
        ensures
            r == (self@ == other@),
    {
        let mut i: usize = 0;
        while i < 6
            invariant
                i <= 6,
                self.0@.len() == 6,
                other.0@.len() == 6,
                forall|j: int| 0 <= j < i ==> self.0@[j] == other.0@[j],
            decreases 6 - i,
        {
            if self.0[i] != other.0[i] {
                return false;
            }
            i = i + 1;
        }
        assert(self.0@ =~= other.0@);
        true
    }

    /// The six octets.
    pub fn octets(&self) -> (r: [u8; 6])
        ensures
            r@ == self@,
    {
        self.0
    }

    /// `aa:bb:cc:dd:ee:ff`, lowercase.
    pub fn to_string(&self) -> (s: String)
        ensures
            s@ == mac_text(self@),
    {
        let mut s = String::new();
        let mut i: usize = 0;
        while i < 6
            invariant
                i <= 6,
                self.0@.len() == 6,
                s@ == mac_text(self.0@).take(if i == 6 { 17 } else { 3 * i as int }),
            decreases 6 - i,
        {
            let o = self.0[i];
            let ghost before = s@;
            push_char(&mut s, hex_char(o / 16));
            push_char(&mut s, hex_char(o % 16));
            if i < 5 {
                push_char(&mut s, ':');
                assert(s@ =~= mac_text(self.0@).take(3 * i + 3));
            } else {
                assert(s@ =~= mac_text(self.0@).take(17));
            }
            i = i + 1;
        }
        assert(mac_text(self.0@).take(17) =~= mac_text(self.0@));
        s
    }
}

impl std::str::FromStr for MacAddress {
    type Err = ParseMacError;

    fn from_str(s: &str) -> (r: Result<MacAddress, ParseMacError>)
        ensures
            match r {
                Ok(m) => mac_parse(s.spec_bytes()) == Ok::<Seq<u8>, ParseMacError>(m@),
                Err(e) => mac_parse(s.spec_bytes()) == Err::<Seq<u8>, ParseMacError>(e),
            },
    {
        MacAddress::parse(s)
    }
}

/// The bytes of an ASCII text.
pub open spec fn ascii_bytes(t: Seq<char>) -> Seq<u8> {
    t.map_values(|c: char| c as u8)
}

proof fn lemma_hex_digit_nibble(n: u8)
    requires
        n < 16,
    ensures
        nibble(hex_digit(n) as u8) == Some(n),
{
}

proof fn lemma_mac_scan_text(m: Seq<u8>, i: int)
    requires
        m.len() == 6,
        0 <= i <= 6,
    ensures
        mac_scan(ascii_bytes(mac_text(m)), i, if i == 0 { None } else { Some(58u8) }) == Ok::<
            Seq<u8>,
            ParseMacError,
        >(m.skip(i)),
    decreases 6 - i,
{
    let b = ascii_bytes(mac_text(m));
    if i < 6 {
        lemma_mac_scan_text(m, i + 1);
        assert(b[3 * i] == hex_digit(m[i] / 16) as u8);
        assert(b[3 * i + 1] == hex_digit(m[i] % 16) as u8);
        lemma_hex_digit_nibble((m[i] / 16) as u8);
        lemma_hex_digit_nibble((m[i] % 16) as u8);
        assert(((m[i] / 16) * 16 + m[i] % 16) as u8 == m[i]);
        if i < 5 {
            assert(b[3 * i + 2] == 58);
        }
        assert(m.skip(i) =~= seq![m[i]] + m.skip(i + 1));
    } else {
        assert(m.skip(6) =~= Seq::<u8>::empty());
    }
}

/// Parsing the written form of a MAC address gives that address back.
pub proof fn lemma_mac_roundtrip(m: Seq<u8>)
    requires
        m.len() == 6,
    ensures
        mac_parse(ascii_bytes(mac_text(m))) == Ok::<Seq<u8>, ParseMacError>(m),
{
    lemma_mac_scan_text(m, 0);
    assert(m.skip(0) =~= m);
}

/// The message of a MAC address error.
pub open spec fn mac_error_text(e: ParseMacError) -> Seq<char> {
    match e {
        ParseMacError::InvalidDelimiter(c) => "unexpected delimiter '"@ + seq![c as char]
            + "', should be either ':' or '-'"@,
        ParseMacError::InvalidDigit(c) => "invalid hex digit '"@ + seq![c as char] + "'"@,
        ParseMacError::InconsistentDelimiter { expected, got } => "mixed delimiters: started with '"@ + seq![
            expected as char,
        ] + "' found '"@ + seq![got as char] + "'"@,
        ParseMacError::InvalidLen { got } => "expected "@ + dec(mac_text_len()) + " characters, got "@ + dec(
            got as nat,
        ),
    }
}

impl ParseMacError {
    /// The message, e.g. `invalid hex digit 'g'`.
    pub fn to_string(&self) -> (r: String)
        ensures
            r@ == mac_error_text(*self),
    {
        match self {
            ParseMacError::InvalidDelimiter(c) => {
                let mut s = to_string("unexpected delimiter '");
                push_char(&mut s, *c as char);
                push_str(&mut s, "', should be either ':' or '-'");
                s
            },
            ParseMacError::InvalidDigit(c) => {
                let mut s = to_string("invalid hex digit '");
                push_char(&mut s, *c as char);
                push_str(&mut s, "'");
                s
            },
            ParseMacError::InconsistentDelimiter { expected, got } => {
                let mut s = to_string("mixed delimiters: started with '");
                push_char(&mut s, *expected as char);
                push_str(&mut s, "' found '");
                push_char(&mut s, *got as char);
                push_str(&mut s, "'");
                s
            },
            ParseMacError::InvalidLen { got } => {
                let mut s = to_string("expected ");
                push_str(&mut s, usize_to_dec(17).as_str());
                push_str(&mut s, " characters, got ");
                push_str(&mut s, usize_to_dec(*got).as_str());
                s
            },
        }
    }
}

impl SameValue for MacAddress {
    type Meaning = Seq<u8>;

    open spec fn meaning(&self) -> Seq<u8> {
        self@
    }

    fn same_value(&self, other: &Self) -> (r: bool) {
        self.same(other)
    }
}

} // verus!
