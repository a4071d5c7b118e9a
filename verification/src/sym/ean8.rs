//! The EAN-8 barcode type: seven validated digits, an eighth checksum digit
//! derived from them, and the assembly of the final 67-bit stream from the
//! shared tables and guards.

use crate::sym::ean13;
use crate::sym::helpers;
use crate::sym::{
    all_chars_in, digit_char_vec, digit_chars, digits_of, first_invalid_at, position_sum,
    to_digits, EncodedBarcode, Parse, ValidationError,
};
use vstd::prelude::*;

verus! {

/// The EAN-8 barcode type.
#[derive(Debug, PartialEq, Eq)]
pub struct EAN8 {
    data: Vec<u8>,
}

impl View for EAN8 {
    type V = Seq<u8>;

    closed spec fn view(&self) -> Seq<u8> {
        self.data@
    }
}

/// The standard EAN/UPC mod-10 weighted checksum of `ds`: weight 3 on the
/// first, third, ... digit and weight 1 on the rest, subtracted from 10, with
/// a result of 10 mapped to 0.
pub open spec fn ean8_checksum(ds: Seq<u8>) -> int {
    (10 - (3 * position_sum(ds, 0) + position_sum(ds, 1)) % 10) % 10
}

/// The checksum of a digit sequence is itself a digit.
pub proof fn lemma_ean8_checksum_range(ds: Seq<u8>)
    requires
        forall|i: int| 0 <= i < ds.len() ==> ds[i] < 10,
    ensures
        0 <= ean8_checksum(ds) < 10,
{
    crate::sym::lemma_position_sum_bounds(ds, 0);
    crate::sym::lemma_position_sum_bounds(ds, 1);
}

/// Law: the checksum digit closes the mod-10 check equation — the weighted
/// sum of the seven payload digits plus the checksum digit (which stands at
/// an even position, so it carries weight 1) is divisible by 10. This is what
/// re-deriving the checksum from the raw digits must reproduce.
pub proof fn lemma_ean8_checksum_validates(ds: Seq<u8>)
    requires
        forall|i: int| 0 <= i < ds.len() ==> ds[i] < 10,
    ensures
        (3 * position_sum(ds, 0) + position_sum(ds, 1) + ean8_checksum(ds)) % 10 == 0,
{
    crate::sym::lemma_position_sum_bounds(ds, 0);
    crate::sym::lemma_position_sum_bounds(ds, 1);
}

/// The full bit stream of an EAN-8 barcode over the digit payload `ds`:
/// start guard, two number-system digits and two further digits from the
/// left-odd table, middle guard, three digits and the checksum digit from the
/// right table, end guard.
pub open spec fn ean8_encode_spec(ds: Seq<u8>) -> Seq<u8> {
    ean13::left_guard_spec() + ean13::encoding(0, ds[0] as int) + ean13::encoding(0, ds[1] as int)
        + ean13::encoding(0, ds[2] as int) + ean13::encoding(0, ds[3] as int)
        + ean13::middle_guard_spec() + ean13::encoding(2, ds[4] as int) + ean13::encoding(
        2,
        ds[5] as int,
    ) + ean13::encoding(2, ds[6] as int) + ean13::encoding(2, ean8_checksum(ds))
        + ean13::right_guard_spec()
}

/// Law: every well-formed seven-digit payload encodes to exactly 67 bits.
pub proof fn lemma_ean8_encode_len(ds: Seq<u8>)
    requires
        ds.len() == 7,
        forall|i: int| 0 <= i < ds.len() ==> ds[i] < 10,
    ensures
        ean8_encode_spec(ds).len() == 67,
{
    lemma_ean8_checksum_range(ds);
    ean13::lemma_encoding_shape(0, ds[0] as int);
    ean13::lemma_encoding_shape(0, ds[1] as int);
    ean13::lemma_encoding_shape(0, ds[2] as int);
    ean13::lemma_encoding_shape(0, ds[3] as int);
    ean13::lemma_encoding_shape(2, ds[4] as int);
    ean13::lemma_encoding_shape(2, ds[5] as int);
    ean13::lemma_encoding_shape(2, ds[6] as int);
    ean13::lemma_encoding_shape(2, ean8_checksum(ds));
}

/// Law: encoding is a pure function of the stored digits — two instances
/// holding the same digits always produce the same bit stream.
pub proof fn lemma_ean8_encode_deterministic(a: &EAN8, b: &EAN8)
    requires
        a@ == b@,
    ensures
        ean8_encode_spec(a@) == ean8_encode_spec(b@),
{
}

impl EAN8 {
    /// A constructed instance holds exactly seven digit values.
    pub open spec fn wf(&self) -> bool {
        &&& self@.len() == 7
        &&& forall|i: int| 0 <= i < self@.len() ==> self@[i] < 10
    }

    /// Creates a new barcode from seven digit characters.
    ///
    /// Rejects any other character count with a `Length` error and any
    /// non-digit character with an `InvalidCharacter` error naming the
    /// leftmost offender; otherwise the instance stores the digit values of
    /// the input, in order.
    pub fn new(data: String) -> (r: Result<EAN8, ValidationError>)
        ensures
            match r {
                Ok(b) => {
                    &&& b.wf()
                    &&& data@.len() == 7
                    &&& all_chars_in(data@, digit_chars())
                    &&& b@ == digits_of(data@)
                },
                Err(ValidationError::Length { min, max }) => {
                    &&& data@.len() != 7
                    &&& min == 7
                    &&& max == 7
                },
                Err(ValidationError::InvalidCharacter { found }) => {
                    &&& data@.len() == 7
                    &&& exists|i: int|
                        first_invalid_at(data@, digit_chars(), i) && data@[i] == found
                },
                Err(ValidationError::UnsupportedLength { .. }) => false,
            },
    {
        match Self::parse(data) {
            Ok(d) => {
                let digits = to_digits(d.as_str());
                Ok(EAN8 { data: digits })
            },
            Err(e) => Err(e),
        }
    }

    /// Returns the digits as they were passed into the constructor.
    pub fn raw_data(&self) -> (r: &[u8])
        ensures
            r@ == self@,
    {
        self.data.as_slice()
    }

    /// Calculates the checksum digit using the mod-10 weighting algorithm.
    pub fn checksum_digit(&self) -> (r: u8)
        requires
            self.wf(),
        ensures
            r as int == ean8_checksum(self@),
            r < 10,
    {
        let mut odds: u32 = 0;
        let mut evens: u32 = 0;
        let mut i: usize = 0;
        while i < self.data.len()
            invariant
                self.wf(),
                i <= self@.len(),
                odds == position_sum(self@.take(i as int), 0),
                evens == position_sum(self@.take(i as int), 1),
                odds <= 9 * i,
                evens <= 9 * i,
            decreases self@.len() - i,
        {
            let d = self.data[i];
            proof {
                assert(self@.take(i + 1).drop_last() =~= self@.take(i as int));
            }
            if i % 2 == 1 {
                evens += d as u32;
            } else {
                odds += d as u32;
            }
            i += 1;
        }
        proof {
            assert(self@.take(self@.len() as int) =~= self@);
        }
        let m = (odds * 3 + evens) % 10;
        let c = (10 - m) % 10;
        c as u8
    }

    /// The two leading digits, which select the number system.
    fn number_system_digits(&self) -> (r: &[u8])
        requires
            self.wf(),
        ensures
            r@ == self@.subrange(0, 2),
    {
        let s = self.data.as_slice();
        &s[0..2]
    }

    /// The number-system digits encoded through the left-odd table.
    fn number_system_encoding(&self) -> (r: Vec<u8>)
        requires
            self.wf(),
        ensures
            r@ == ean13::encoding(0, self@[0] as int) + ean13::encoding(0, self@[1] as int),
    {
        let ds = self.number_system_digits();
        let mut ns = self.char_encoding(0, ds[0]);
        let mut snd = self.char_encoding(0, ds[1]);
        ns.append(&mut snd);
        ns
    }

    /// The checksum digit encoded through the right table.
    fn checksum_encoding(&self) -> (r: Vec<u8>)
        requires
            self.wf(),
        ensures
            r@ == ean13::encoding(2, ean8_checksum(self@)),
    {
        let c = self.checksum_digit();
        self.char_encoding(2, c)
    }

    /// One digit's 7-bit pattern from the shared tables.
    fn char_encoding(&self, side: usize, d: u8) -> (r: Vec<u8>)
        requires
            side < 3,
            d < 10,
        ensures
            r@ == ean13::encoding(side as int, d as int),
            r@.len() == 7,
    {
        ean13::char_encoding(side, d)
    }

    /// The third and fourth digits, encoded on the left side.
    fn left_digits(&self) -> (r: &[u8])
        requires
            self.wf(),
        ensures
            r@ == self@.subrange(2, 4),
    {
        let s = self.data.as_slice();
        &s[2..4]
    }

    /// The remaining three digits, encoded on the right side.
    fn right_digits(&self) -> (r: &[u8])
        requires
            self.wf(),
        ensures
            r@ == self@.subrange(4, 7),
    {
        let s = self.data.as_slice();
        &s[4..7]
    }

    /// The left-side digits encoded through the left-odd table.
    fn left_payload(&self) -> (r: Vec<u8>)
        requires
            self.wf(),
        ensures
            r@ == ean13::encoding(0, self@[2] as int) + ean13::encoding(0, self@[3] as int),
    {
        let ds = self.left_digits();
        let mut p = self.char_encoding(0, ds[0]);
        let mut snd = self.char_encoding(0, ds[1]);
        p.append(&mut snd);
        p
    }

    /// The right-side digits encoded through the right table.
    fn right_payload(&self) -> (r: Vec<u8>)
        requires
            self.wf(),
        ensures
            r@ == ean13::encoding(2, self@[4] as int) + ean13::encoding(2, self@[5] as int)
                + ean13::encoding(2, self@[6] as int),
    {
        let ds = self.right_digits();
        let mut p = self.char_encoding(2, ds[0]);
        let mut snd = self.char_encoding(2, ds[1]);
        let mut thd = self.char_encoding(2, ds[2]);
        p.append(&mut snd);
        p.append(&mut thd);
        p
    }

    /// Encodes the barcode: the ordered concatenation of guards and encoded
    /// digit groups, 67 bits in all.
    #[verifier::rlimit(50)]
    pub fn encode(&self) -> (r: EncodedBarcode)
        requires
            self.wf(),
        ensures
            r@ == ean8_encode_spec(self@),
            r@.len() == 67,
    {
        let mut parts: Vec<Vec<u8>> = Vec::new();
        parts.push(ean13::left_guard());
        parts.push(self.number_system_encoding());
        parts.push(self.left_payload());
        parts.push(ean13::middle_guard());
        parts.push(self.right_payload());
        parts.push(self.checksum_encoding());
        parts.push(ean13::right_guard());
        let r = helpers::join_vecs(parts.as_slice());
        proof {
            let m = parts@.map_values(|v: Vec<u8>| v@);
            let p0 = Seq::<Seq<u8>>::empty();
            let p1 = p0.push(m[0]);
            let p2 = p1.push(m[1]);
            let p3 = p2.push(m[2]);
            let p4 = p3.push(m[3]);
            let p5 = p4.push(m[4]);
            let p6 = p5.push(m[5]);
            let p7 = p6.push(m[6]);
            assert(m =~= p7);
            helpers::lemma_join_seqs_push(p6, m[6]);
            helpers::lemma_join_seqs_push(p5, m[5]);
            helpers::lemma_join_seqs_push(p4, m[4]);
            helpers::lemma_join_seqs_push(p3, m[3]);
            helpers::lemma_join_seqs_push(p2, m[2]);
            helpers::lemma_join_seqs_push(p1, m[1]);
            helpers::lemma_join_seqs_push(p0, m[0]);
            assert(helpers::join_seqs(p0) == Seq::<u8>::empty());
            let lg = ean13::left_guard_spec();
            let e0 = ean13::encoding(0, self@[0] as int);
            let e1 = ean13::encoding(0, self@[1] as int);
            let e2 = ean13::encoding(0, self@[2] as int);
            let e3 = ean13::encoding(0, self@[3] as int);
            let mg = ean13::middle_guard_spec();
            let e4 = ean13::encoding(2, self@[4] as int);
            let e5 = ean13::encoding(2, self@[5] as int);
            let e6 = ean13::encoding(2, self@[6] as int);
            assert(Seq::<u8>::empty() + lg =~= lg);
            assert(lg + (e0 + e1) =~= lg + e0 + e1);
            assert(lg + e0 + e1 + (e2 + e3) =~= lg + e0 + e1 + e2 + e3);
            assert(lg + e0 + e1 + e2 + e3 + mg + (e4 + e5 + e6) =~= lg + e0 + e1 + e2 + e3 + mg
                + e4 + e5 + e6);
            assert(r@ == ean8_encode_spec(self@));
            lemma_ean8_encode_len(self@);
        }
        r
    }
}

impl Parse for EAN8 {
    open spec fn spec_valid_chars() -> Set<char> {
        digit_chars()
    }

    open spec fn spec_valid_len() -> (u32, u32) {
        (7, 8)
    }

    /// The set of valid characters allowed in this type of barcode.
    fn valid_chars() -> (r: Vec<char>) {
        digit_char_vec()
    }

    /// The valid length of data acceptable in this type of barcode.
    fn valid_len() -> (r: core::ops::Range<u32>) {
        7..8
    }
}

} // verus!
