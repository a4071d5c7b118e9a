//! The shared validation contract of the barcode symbologies.
//!
//! Every symbology declares the characters it accepts and the range of input
//! lengths it accepts; `Parse::parse` checks a raw string against those two
//! declarations and hands back the string untouched when it is valid, so that
//! the digit conversion that follows can never fail.

pub mod ean13;
pub mod ean8;
pub mod ean_supp;
pub mod helpers;

use vstd::prelude::*;

verus! {

/// A fully assembled barcode: an ordered sequence of bits, one `u8` per bit,
/// each 0 or 1.
pub type EncodedBarcode = Vec<u8>;

/// Why a raw input string was rejected at construction time.
#[derive(Debug, Clone, Copy, PartialEq, Eq)]
pub enum ValidationError {
    /// The character count lies outside the accepted range; carries the
    /// inclusive bounds `min..=max` that would have been accepted.
    Length { min: u32, max: u32 },
    /// A character outside the symbology's alphabet; carries the leftmost
    /// offending character.
    InvalidCharacter { found: char },
    /// Supplemental barcodes only: the count of digits passed the range check
    /// but is not one of the exactly supported counts.
    UnsupportedLength { len: usize },
}

/// The decimal digit characters, the alphabet of the whole EAN family.
pub open spec fn is_digit_char(c: char) -> bool {
    48 <= c as int <= 57
}

/// The numeric value of a decimal digit character.
pub open spec fn digit_of(c: char) -> u8 {
    (c as int - 48) as u8
}

/// The digit values of a string of digit characters, in order.
pub open spec fn digits_of(s: Seq<char>) -> Seq<u8> {
    s.map_values(|c: char| digit_of(c))
}

/// Every character of `s` lies in the set `cs`.
pub open spec fn all_chars_in(s: Seq<char>, cs: Set<char>) -> bool {
    forall|i: int| 0 <= i < s.len() ==> cs.contains(s[i])
}

/// Position `i` holds the leftmost character of `s` outside the set `cs`.
pub open spec fn first_invalid_at(s: Seq<char>, cs: Set<char>, i: int) -> bool {
    &&& 0 <= i < s.len()
    &&& !cs.contains(s[i])
    &&& forall|j: int| 0 <= j < i ==> cs.contains(s[j])
}

/// Linear membership test over the accepted-character list.
fn contains_char(cs: &Vec<char>, c: char) -> (r: bool)
    ensures
        r == cs@.contains(c),
{
    let mut k: usize = 0;
    while k < cs.len()
        invariant
            k <= cs@.len(),
            forall|j: int| 0 <= j < k ==> cs@[j] != c,
        decreases cs@.len() - k,
    {
        if cs[k] == c {
            return true;
        }
        k += 1;
    }
    false
}

/// The ten decimal digit characters, the alphabet shared by every EAN
/// symbology.
pub fn digit_char_vec() -> (r: Vec<char>)
    ensures
        forall|c: char| r@.contains(c) <==> is_digit_char(c),
{
    let mut v: Vec<char> = Vec::new();
    v.push('0');
    v.push('1');
    v.push('2');
    v.push('3');
    v.push('4');
    v.push('5');
    v.push('6');
    v.push('7');
    v.push('8');
    v.push('9');
    proof {
        assert forall|c: char| v@.contains(c) implies is_digit_char(c) by {
            let i = choose|i: int| 0 <= i < v@.len() && v@[i] == c;
            assert(is_digit_char(v@[i]));
        }
        assert forall|c: char| is_digit_char(c) implies v@.contains(c) by {
            let ci = c as int;
            if ci == 48 {
                assert(v@[0] == c);
            } else if ci == 49 {
                assert(v@[1] == c);
            } else if ci == 50 {
                assert(v@[2] == c);
            } else if ci == 51 {
                assert(v@[3] == c);
            } else if ci == 52 {
                assert(v@[4] == c);
            } else if ci == 53 {
                assert(v@[5] == c);
            } else if ci == 54 {
                assert(v@[6] == c);
            } else if ci == 55 {
                assert(v@[7] == c);
            } else if ci == 56 {
                assert(v@[8] == c);
            } else {
                assert(v@[9] == c);
            }
        }
    }
    v
}

/// The set of characters the EAN family accepts: the decimal digits.
pub open spec fn digit_chars() -> Set<char> {
    Set::new(|c: char| is_digit_char(c))
}

/// The sum of the digits of `ds` standing at positions of parity `par`
/// (0 = the first, third, ... digit; 1 = the second, fourth, ...).
pub open spec fn position_sum(ds: Seq<u8>, par: int) -> int
    decreases ds.len(),
{
    if ds.len() == 0 {
        0
    } else {
        position_sum(ds.drop_last(), par) + if (ds.len() - 1) % 2 == par {
            ds.last() as int
        } else {
            0
        }
    }
}

/// A positional digit sum is never negative and never exceeds nine per digit.
pub proof fn lemma_position_sum_bounds(ds: Seq<u8>, par: int)
    requires
        forall|i: int| 0 <= i < ds.len() ==> ds[i] < 10,
    ensures
        0 <= position_sum(ds, par) <= 9 * ds.len(),
    decreases ds.len(),
{
    if ds.len() > 0 {
        assert(forall|i: int| 0 <= i < ds.drop_last().len() ==> ds.drop_last()[i] < 10);
        lemma_position_sum_bounds(ds.drop_last(), par);
    }
}

/// Law: the digits recovered from a valid input equal, in order, the digit
/// values of its characters — nothing is lost, reordered or invented by the
/// conversion.
pub proof fn lemma_digits_round_trip(s: Seq<char>)
    requires
        forall|i: int| 0 <= i < s.len() ==> is_digit_char(s[i]),
    ensures
        digits_of(s).len() == s.len(),
        forall|i: int| 0 <= i < s.len() ==> digits_of(s)[i] == digit_of(s[i]),
        forall|i: int| 0 <= i < s.len() ==> digits_of(s)[i] < 10,
{
}

/// Converts a validated string of digit characters to their digit values.
pub(crate) fn to_digits(s: &str) -> (r: Vec<u8>)
    requires
        forall|i: int| 0 <= i < s@.len() ==> is_digit_char(s@[i]),
    ensures
        r@ == digits_of(s@),
        r@.len() == s@.len(),
        forall|i: int| 0 <= i < r@.len() ==> r@[i] < 10,
{
    let n = s.unicode_len();
    let mut digits: Vec<u8> = Vec::new();
    let mut i: usize = 0;
    while i < n
        invariant
            i <= n,
            n == s@.len(),
            forall|k: int| 0 <= k < s@.len() ==> is_digit_char(s@[k]),
            digits@ == digits_of(s@.take(i as int)),
            digits@.len() == i,
            forall|k: int| 0 <= k < digits@.len() ==> digits@[k] < 10,
        decreases n - i,
    {
        let c = s.get_char(i);
        let v = c as u32;
        digits.push((v - 48) as u8);
        proof {
            assert(digits_of(s@.take(i + 1)) =~= digits_of(s@.take(i as int)).push(
                digit_of(s@[i as int]),
            ));
        }
        i += 1;
    }
    proof {
        assert(s@.take(n as int) =~= s@);
    }
    digits
}

/// The validation contract every symbology implements: an accepted alphabet,
/// an accepted length range `[min, max)` counted in characters, and a shared
/// validation routine built on the two.
pub trait Parse: Sized {
    /// The accepted alphabet.
    spec fn spec_valid_chars() -> Set<char>;

    /// The accepted character-count range, as `(min, max)` with `min`
    /// inclusive and `max` exclusive.
    spec fn spec_valid_len() -> (u32, u32);

    /// The accepted alphabet, as a list for the membership scan.
    fn valid_chars() -> (r: Vec<char>)
        ensures
            forall|c: char| r@.contains(c) <==> Self::spec_valid_chars().contains(c),
    ;

    /// The accepted character-count range, `start` inclusive, `end` exclusive.
    fn valid_len() -> (r: core::ops::Range<u32>)
        ensures
            r.start == Self::spec_valid_len().0,
            r.end == Self::spec_valid_len().1,
    ;

    /// Checks `data` against the declared length range and alphabet.
    ///
    /// Returns the input unchanged when it is valid, a `Length` error (with
    /// the inclusive bounds) when the character count is out of range, and an
    /// `InvalidCharacter` error carrying the leftmost offending character
    /// otherwise.
    fn parse(data: String) -> (r: Result<String, ValidationError>)
        requires
            Self::spec_valid_len().1 >= 1,
        ensures
            match r {
                Ok(s) => {
                    &&& s@ == data@
                    &&& Self::spec_valid_len().0 <= data@.len() < Self::spec_valid_len().1
                    &&& all_chars_in(data@, Self::spec_valid_chars())
                },
                Err(ValidationError::Length { min, max }) => {
                    &&& data@.len() < Self::spec_valid_len().0
                        || data@.len() >= Self::spec_valid_len().1
                    &&& min == Self::spec_valid_len().0
                    &&& max == Self::spec_valid_len().1 - 1
                },
                Err(ValidationError::InvalidCharacter { found }) => {
                    &&& Self::spec_valid_len().0 <= data@.len() < Self::spec_valid_len().1
                    &&& exists|i: int|
                        first_invalid_at(data@, Self::spec_valid_chars(), i) && data@[i]
                            == found
                },
                Err(ValidationError::UnsupportedLength { .. }) => false,
            },
    {
        let range = Self::valid_len();
        let s = data.as_str();
        let n = s.unicode_len();
        if n < range.start as usize || n >= range.end as usize {
            return Err(ValidationError::Length { min: range.start, max: range.end - 1 });
        }
        let chars = Self::valid_chars();
        let mut i: usize = 0;
        while i < n
            invariant
                i <= n,
                n == data@.len(),
                s@ == data@,
                Self::spec_valid_len().0 <= n < Self::spec_valid_len().1,
                forall|c: char| chars@.contains(c) <==> Self::spec_valid_chars().contains(c),
                forall|j: int| 0 <= j < i ==> Self::spec_valid_chars().contains(data@[j]),
            decreases n - i,
        {
            let c = s.get_char(i);
            if !contains_char(&chars, c) {
                proof {
                    assert(first_invalid_at(data@, Self::spec_valid_chars(), i as int));
                }
                return Err(ValidationError::InvalidCharacter { found: c });
            }
            i += 1;
        }
        Ok(data)
    }
}

} // verus!
