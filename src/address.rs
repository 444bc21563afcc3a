use vstd::prelude::*;
use vstd::string::StringSliceAdditionalSpecFns;

verus! {

/// Why the register configuration was refused.
#[derive(Debug, PartialEq, Eq)]
pub enum ConfigError {
    /// A register key that is not an unsigned 16-bit decimal number.
    InvalidAddress { key: String },
}

/// An ASCII decimal digit.
pub open spec fn is_decimal_digit(b: u8) -> bool {
    48 <= b <= 57
}

/// The number that a string of decimal digits denotes.
pub open spec fn digits_value(d: Seq<u8>) -> int
    decreases d.len(),
{
    if d.len() == 0 {
        0
    } else {
        digits_value(d.drop_last()) * 10 + (d.last() - 48)
    }
}

/// The text without its optional leading `+`.
pub open spec fn unsigned_digits(b: Seq<u8>) -> Seq<u8> {
    if b.len() > 0 && b[0] == 43 {
        b.drop_first()
    } else {
        b
    }
}

/// The text is an optional `+` and then one or more decimal digits whose
/// value fits in 16 bits.
pub open spec fn parses_as_address(b: Seq<u8>) -> bool {
    let d = unsigned_digits(b);
    &&& d.len() > 0
    &&& forall|i: int| 0 <= i < d.len() ==> is_decimal_digit(#[trigger] d[i])
    &&& digits_value(d) <= 0xffff
}

/// The address that the text denotes, where it parses.
pub open spec fn address_value(b: Seq<u8>) -> u16 {
    digits_value(unsigned_digits(b)) as u16
}

/// Reads a register address written in decimal.
pub fn parse_address(s: &str) -> (r: Result<u16, ConfigError>)
    ensures
        match r {
            Ok(v) => parses_as_address(s.spec_bytes()) && v == address_value(s.spec_bytes())
                && v as int == digits_value(unsigned_digits(s.spec_bytes())),
            Err(ConfigError::InvalidAddress { key }) => !parses_as_address(s.spec_bytes()) && key@ == s@,
        },
{
    let bytes = s.as_bytes();
    let n = bytes.len();
    let first: usize = if n > 0 && bytes[0] == 43 { 1 } else { 0 };
    let ghost d = unsigned_digits(bytes@);
    assert(d == bytes@.subrange(first as int, n as int));
    if first == n {
        return Err(ConfigError::InvalidAddress { key: s.to_owned() });
    }
    let mut acc: u32 = 0;
    let mut big = false;
    let mut i: usize = first;
    assert(bytes@.subrange(first as int, first as int).len() == 0);
    while i < n
        invariant
            bytes@ == s.spec_bytes(),
            n == bytes@.len(),
            d == bytes@.subrange(first as int, n as int),
            d == unsigned_digits(bytes@),
            first <= i <= n,
            forall|j: int| first <= j < i ==> is_decimal_digit(#[trigger] bytes@[j]),
            !big ==> acc as int == digits_value(bytes@.subrange(first as int, i as int)) && acc <= 0xffff,
            big ==> digits_value(bytes@.subrange(first as int, i as int)) > 0xffff,
        decreases n - i,
    {
        let c = bytes[i];
        if c < 48 || c > 57 {
            assert(d[i - first] == bytes@[i as int]);
            assert(!is_decimal_digit(d[i - first]));
            return Err(ConfigError::InvalidAddress { key: s.to_owned() });
        }
        assert(bytes@.subrange(first as int, i + 1).drop_last() == bytes@.subrange(first as int, i as int));
        if !big {
            let v = acc * 10 + (c - 48) as u32;
            if v > 0xffff {
                big = true;
            } else {
                acc = v;
            }
        }
        i += 1;
    }
    assert(bytes@.subrange(first as int, n as int) == d);
    assert forall|j: int| 0 <= j < d.len() implies is_decimal_digit(#[trigger] d[j]) by {
        assert(d[j] == bytes@[j + first]);
    }
    if big {
        Err(ConfigError::InvalidAddress { key: s.to_owned() })
    } else {
        Ok(acc as u16)
    }
}

} // verus!
