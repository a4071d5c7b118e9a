//! The supplemental EAN barcode types: 2-digit (EAN-2) add-ons used for issue
//! numbers and 5-digit (EAN-5) add-ons used for suggested retail prices.
//!
//! The range check admits two to five characters; the variant selection that
//! follows is the real gate and accepts exactly two or exactly five digits.

use crate::sym::ean13;
use crate::sym::helpers;
use crate::sym::{
    all_chars_in, digit_char_vec, digit_chars, digits_of, first_invalid_at, position_sum,
    to_digits, EncodedBarcode, Parse, ValidationError,
};
use vstd::prelude::*;

verus! {

/// The supplemental EAN barcode type.
#[derive(Debug, PartialEq, Eq)]
pub enum EANSUPP {
    EAN2 { data: Vec<u8> },
    EAN5 { data: Vec<u8> },
}

/// The supplemental checksum of `ds`: weight 3 on the first, third, ...
/// digit, weight 9 on the rest, reduced mod 10. Only semantically meaningful
/// for EAN-5, but defined uniformly over both variants.
pub open spec fn supp_checksum(ds: Seq<u8>) -> int {
    (3 * position_sum(ds, 0) + 9 * position_sum(ds, 1)) % 10
}

/// The supplemental checksum of a digit sequence is itself a digit.
pub proof fn lemma_supp_checksum_range(ds: Seq<u8>)
    requires
        forall|i: int| 0 <= i < ds.len() ==> ds[i] < 10,
    ensures
        0 <= supp_checksum(ds) < 10,
{
    crate::sym::lemma_position_sum_bounds(ds, 0);
    crate::sym::lemma_position_sum_bounds(ds, 1);
}

/// The parity pattern of an EAN-2 barcode, selected by the two digits mod 4;
/// only the first two slots are used.
pub open spec fn ean2_parity(m: int) -> Seq<usize> {
    if m == 0 {
        seq![0usize, 0, 0, 0, 0]
    } else if m == 1 {
        seq![0usize, 1, 0, 0, 0]
    } else if m == 2 {
        seq![1usize, 0, 0, 0, 0]
    } else {
        seq![1usize, 1, 0, 0, 0]
    }
}

/// The parity pattern of an EAN-5 barcode, selected by its checksum digit.
pub open spec fn ean5_parity(c: int) -> Seq<usize> {
    if c == 0 {
        seq![0usize, 0, 1, 1, 1]
    } else if c == 1 {
        seq![1usize, 0, 1, 0, 0]
    } else if c == 2 {
        seq![1usize, 0, 0, 1, 0]
    } else if c == 3 {
        seq![1usize, 0, 0, 0, 1]
    } else if c == 4 {
        seq![0usize, 1, 1, 0, 0]
    } else if c == 5 {
        seq![0usize, 0, 1, 1, 0]
    } else if c == 6 {
        seq![0usize, 0, 0, 1, 1]
    } else if c == 7 {
        seq![0usize, 1, 0, 1, 0]
    } else if c == 8 {
        seq![0usize, 1, 0, 0, 1]
    } else {
        seq![0usize, 0, 1, 0, 1]
    }
}

/// The parity selector of an EAN-2 barcode: its two digits, read as a
/// two-digit number, mod 4.
pub open spec fn ean2_index(ds: Seq<u8>) -> int {
    (10 * ds[0] as int + ds[1] as int) % 4
}

/// The encoded digit groups of a supplemental barcode, with the 2-bit
/// separator `0,1` in front of every group except the first; the first `n`
/// digits of `ds`, each looked up on the side its parity slot selects.
pub open spec fn supp_payload_prefix(ds: Seq<u8>, par: Seq<usize>, n: int) -> Seq<u8>
    decreases n,
{
    if n <= 0 {
        Seq::empty()
    } else if n == 1 {
        ean13::encoding(par[0] as int, ds[0] as int)
    } else {
        supp_payload_prefix(ds, par, n - 1) + seq![0u8, 1u8] + ean13::encoding(
            par[n - 1] as int,
            ds[n - 1] as int,
        )
    }
}

/// The full payload: every digit of `ds` encoded, separators included.
pub open spec fn supp_payload(ds: Seq<u8>, par: Seq<usize>) -> Seq<u8> {
    supp_payload_prefix(ds, par, ds.len() as int)
}

/// The supplemental start guard: `1,0,1,1`.
pub open spec fn supp_left_guard_spec() -> Seq<u8> {
    seq![1u8, 0, 1, 1]
}

/// Builds the supplemental start guard bits.
pub fn supp_left_guard() -> (r: Vec<u8>)
    ensures
        r@ == supp_left_guard_spec(),
{
    let mut v: Vec<u8> = Vec::new();
    v.push(1);
    v.push(0);
    v.push(1);
    v.push(1);
    proof {
        assert(v@ =~= supp_left_guard_spec());
    }
    v
}

/// A payload of `n` encoded digits is `7n` pattern bits plus `2(n-1)`
/// separator bits.
pub proof fn lemma_supp_payload_prefix_len(ds: Seq<u8>, par: Seq<usize>, n: int)
    requires
        0 <= n <= ds.len(),
        ds.len() <= par.len(),
        forall|i: int| 0 <= i < ds.len() ==> ds[i] < 10,
        forall|i: int| 0 <= i < par.len() ==> par[i] <= 1,
    ensures
        supp_payload_prefix(ds, par, n).len() == if n == 0 {
            0int
        } else {
            9 * n - 2
        },
    decreases n,
{
    if n == 1 {
        ean13::lemma_encoding_shape(par[0] as int, ds[0] as int);
    } else if n > 1 {
        lemma_supp_payload_prefix_len(ds, par, n - 1);
        ean13::lemma_encoding_shape(par[n - 1] as int, ds[n - 1] as int);
    }
}

impl EANSUPP {
    /// The stored digits, whichever variant holds them.
    pub open spec fn digits(&self) -> Seq<u8> {
        match self {
            EANSUPP::EAN2 { data } => data@,
            EANSUPP::EAN5 { data } => data@,
        }
    }

    /// An EAN-2 instance holds exactly two digit values, an EAN-5 instance
    /// exactly five.
    pub open spec fn wf(&self) -> bool {
        &&& (self is EAN2 ==> self.digits().len() == 2)
        &&& (self is EAN5 ==> self.digits().len() == 5)
        &&& forall|i: int| 0 <= i < self.digits().len() ==> self.digits()[i] < 10
    }

    /// Which of the two tables (0 = odd, 1 = even) each digit position uses.
    pub open spec fn parity_spec(&self) -> Seq<usize> {
        match self {
            EANSUPP::EAN2 { data } => ean2_parity(ean2_index(data@)),
            EANSUPP::EAN5 { data } => ean5_parity(supp_checksum(data@)),
        }
    }

    /// The full bit stream: the supplemental guard followed by the payload.
    pub open spec fn encode_spec(&self) -> Seq<u8> {
        supp_left_guard_spec() + supp_payload(self.digits(), self.parity_spec())
    }
}

/// The parity pattern of a well-formed instance has five slots, each
/// selecting one of the two left tables.
pub proof fn lemma_parity_shape(b: &EANSUPP)
    requires
        b.wf(),
    ensures
        b.parity_spec().len() == 5,
        forall|i: int| 0 <= i < 5 ==> b.parity_spec()[i] <= 1,
{
    match b {
        EANSUPP::EAN2 { data } => {
            assert(0 <= ean2_index(data@) < 4);
        },
        EANSUPP::EAN5 { data } => {
            lemma_supp_checksum_range(data@);
        },
    }
}

/// Law: an EAN-2 barcode encodes to exactly 20 bits and an EAN-5 barcode to
/// exactly 47.
pub proof fn lemma_supp_encode_len(b: &EANSUPP)
    requires
        b.wf(),
    ensures
        b is EAN2 ==> b.encode_spec().len() == 20,
        b is EAN5 ==> b.encode_spec().len() == 47,
{
    lemma_parity_shape(b);
    lemma_supp_payload_prefix_len(b.digits(), b.parity_spec(), b.digits().len() as int);
}

/// Law: encoding is a pure function of the variant and its digits — two
/// instances of the same variant holding the same digits always produce the
/// same bit stream.
pub proof fn lemma_supp_encode_deterministic(a: &EANSUPP, b: &EANSUPP)
    requires
        a.digits() == b.digits(),
        a is EAN2 <==> b is EAN2,
    ensures
        a.encode_spec() == b.encode_spec(),
{
}

impl EANSUPP {
    /// Creates a new barcode: an EAN-2 instance for two digits, an EAN-5
    /// instance for five.
    ///
    /// A character count outside the two-stage gate fails: counts outside
    /// `2..=5` with a `Length` error, non-digit characters with an
    /// `InvalidCharacter` error naming the leftmost offender, and counts of
    /// three or four — admitted by the range check but backed by no variant —
    /// with an `UnsupportedLength` error.
    pub fn new(data: String) -> (r: Result<EANSUPP, ValidationError>)
        ensures
            match r {
                Ok(b) => {
                    &&& b.wf()
                    &&& all_chars_in(data@, digit_chars())
                    &&& b.digits() == digits_of(data@)
                    &&& (data@.len() == 2 <==> b is EAN2)
                    &&& (data@.len() == 5 <==> b is EAN5)
                    &&& (data@.len() == 2 || data@.len() == 5)
                },
                Err(ValidationError::Length { min, max }) => {
                    &&& data@.len() < 2 || data@.len() > 5
                    &&& min == 2
                    &&& max == 5
                },
                Err(ValidationError::InvalidCharacter { found }) => {
                    &&& 2 <= data@.len() <= 5
                    &&& exists|i: int|
                        first_invalid_at(data@, digit_chars(), i) && data@[i] == found
                },
                Err(ValidationError::UnsupportedLength { len }) => {
                    &&& len == data@.len()
                    &&& (data@.len() == 3 || data@.len() == 4)
                    &&& all_chars_in(data@, digit_chars())
                },
            },
    {
        match Self::parse(data) {
            Ok(d) => {
                let digits = to_digits(d.as_str());
                if digits.len() == 2 {
                    Ok(EANSUPP::EAN2 { data: digits })
                } else if digits.len() == 5 {
                    Ok(EANSUPP::EAN5 { data: digits })
                } else {
                    Err(ValidationError::UnsupportedLength { len: digits.len() })
                }
            },
            Err(e) => Err(e),
        }
    }

    /// Returns the digits as they were passed into the constructor.
    pub fn raw_data(&self) -> (r: &[u8])
        ensures
            r@ == self.digits(),
    {
        match self {
            EANSUPP::EAN2 { data } => data.as_slice(),
            EANSUPP::EAN5 { data } => data.as_slice(),
        }
    }

    /// One digit's 7-bit pattern from the shared tables.
    fn char_encoding(&self, side: usize, d: u8) -> (r: Vec<u8>)
        requires
            side < 3,
            d < 10,
        ensures
            r@ == ean13::encoding(side as int, d as int),
            r@.len() == 7,
    {
        ean13::char_encoding(side, d)
    }

    /// Calculates the checksum digit using the modified mod-10 weighting
    /// algorithm; only semantically meaningful for EAN-5 barcodes.
    pub fn checksum_digit(&self) -> (r: u8)
        requires
            self.wf(),
        ensures
            r as int == supp_checksum(self.digits()),
            r < 10,
    {
        let data = self.raw_data();
        let mut odds: u32 = 0;
        let mut evens: u32 = 0;
        let mut i: usize = 0;
        while i < data.len()
            invariant
                data@ == self.digits(),
                self.wf(),
                i <= data@.len(),
                odds == position_sum(data@.take(i as int), 0),
                evens == position_sum(data@.take(i as int), 1),
                odds <= 9 * i,
                evens <= 9 * i,
            decreases data@.len() - i,
        {
            let d = data[i];
            proof {
                assert(data@.take(i + 1).drop_last() =~= data@.take(i as int));
            }
            if i % 2 == 1 {
                evens += d as u32;
            } else {
                odds += d as u32;
            }
            i += 1;
        }
        proof {
            assert(data@.take(data@.len() as int) =~= data@);
        }
        ((odds * 3 + evens * 9) % 10) as u8
    }

    /// Builds a five-slot parity pattern from its slots, in order.
    fn par5(a: usize, b: usize, c: usize, d: usize, e: usize) -> (r: Vec<usize>)
        ensures
            r@ == seq![a, b, c, d, e],
    {
        let mut v: Vec<usize> = Vec::new();
        v.push(a);
        v.push(b);
        v.push(c);
        v.push(d);
        v.push(e);
        proof {
            assert(v@ =~= seq![a, b, c, d, e]);
        }
        v
    }

    /// Selects, per digit position, which of the two tables to use: by the
    /// two digits mod 4 for EAN-2, by the checksum digit for EAN-5.
    fn parity(&self) -> (r: Vec<usize>)
        requires
            self.wf(),
        ensures
            r@ == self.parity_spec(),
    {
        match self {
            EANSUPP::EAN2 { data } => {
                let m = (data[0] * 10 + data[1]) % 4;
                if m == 0 {
                    Self::par5(0, 0, 0, 0, 0)
                } else if m == 1 {
                    Self::par5(0, 1, 0, 0, 0)
                } else if m == 2 {
                    Self::par5(1, 0, 0, 0, 0)
                } else {
                    Self::par5(1, 1, 0, 0, 0)
                }
            },
            EANSUPP::EAN5 { data: _ } => {
                let c = self.checksum_digit();
                if c == 0 {
                    Self::par5(0, 0, 1, 1, 1)
                } else if c == 1 {
                    Self::par5(1, 0, 1, 0, 0)
                } else if c == 2 {
                    Self::par5(1, 0, 0, 1, 0)
                } else if c == 3 {
                    Self::par5(1, 0, 0, 0, 1)
                } else if c == 4 {
                    Self::par5(0, 1, 1, 0, 0)
                } else if c == 5 {
                    Self::par5(0, 0, 1, 1, 0)
                } else if c == 6 {
                    Self::par5(0, 0, 0, 1, 1)
                } else if c == 7 {
                    Self::par5(0, 1, 0, 1, 0)
                } else if c == 8 {
                    Self::par5(0, 1, 0, 0, 1)
                } else {
                    Self::par5(0, 0, 1, 0, 1)
                }
            },
        }
    }

    /// Encodes every digit on the side its parity slot selects, inserting
    /// the 2-bit separator before every digit group except the first.
    fn payload(&self) -> (r: Vec<u8>)
        requires
            self.wf(),
        ensures
            r@ == supp_payload(self.digits(), self.parity_spec()),
    {
        let data = self.raw_data();
        let par = self.parity();
        proof {
            lemma_parity_shape(self);
        }
        let mut p: Vec<u8> = Vec::new();
        let mut i: usize = 0;
        while i < data.len()
            invariant
                self.wf(),
                data@ == self.digits(),
                par@ == self.parity_spec(),
                par@.len() == 5,
                forall|k: int| 0 <= k < 5 ==> par@[k] <= 1,
                i <= data@.len(),
                data@.len() <= 5,
                p@ == supp_payload_prefix(self.digits(), self.parity_spec(), i as int),
            decreases data@.len() - i,
        {
            let ghost p_before = p@;
            if i > 0 {
                p.push(0);
                p.push(1);
            }
            let mut enc = self.char_encoding(par[i], data[i]);
            p.append(&mut enc);
            proof {
                if i == 0 {
                    assert(p@ =~= supp_payload_prefix(self.digits(), self.parity_spec(), 1));
                } else {
                    assert(p_before.push(0u8).push(1u8) =~= p_before + seq![0u8, 1u8]);
                }
            }
            i += 1;
        }
        p
    }

    /// Encodes the barcode: the supplemental guard followed by the encoded
    /// digit groups — 20 bits for EAN-2, 47 bits for EAN-5.
    pub fn encode(&self) -> (r: EncodedBarcode)
        requires
            self.wf(),
        ensures
            r@ == self.encode_spec(),
            self is EAN2 ==> r@.len() == 20,
            self is EAN5 ==> r@.len() == 47,
    {
        let mut parts: Vec<Vec<u8>> = Vec::new();
        parts.push(supp_left_guard());
        parts.push(self.payload());
        let r = helpers::join_vecs(parts.as_slice());
        proof {
            let m = parts@.map_values(|v: Vec<u8>| v@);
            let p0 = Seq::<Seq<u8>>::empty();
            let p1 = p0.push(m[0]);
            let p2 = p1.push(m[1]);
            assert(m =~= p2);
            helpers::lemma_join_seqs_push(p1, m[1]);
            helpers::lemma_join_seqs_push(p0, m[0]);
            assert(Seq::<u8>::empty() + m[0] =~= m[0]);
            lemma_supp_encode_len(self);
        }
        r
    }
}

impl Parse for EANSUPP {
    open spec fn spec_valid_chars() -> Set<char> {
        digit_chars()
    }

    open spec fn spec_valid_len() -> (u32, u32) {
        (2, 6)
    }

    /// The set of valid characters allowed in this type of barcode.
    fn valid_chars() -> (r: Vec<char>) {
        digit_char_vec()
    }

    /// The valid length of data acceptable in this type of barcode: two to
    /// five characters pass the range check, variant selection then demands
    /// exactly two or five.
    fn valid_len() -> (r: core::ops::Range<u32>) {
        2..6
    }
}

} // verus!
