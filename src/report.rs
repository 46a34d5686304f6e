use thousands::Separable;
use vstd::prelude::*;

use crate::record::ImgTotals;

verus! {

/// The decimal digit for `d`, which is below ten.
pub open spec fn digit_char(d: nat) -> char {
    seq!['0', '1', '2', '3', '4', '5', '6', '7', '8', '9'][d as int]
}

/// The decimal digits of `n`, with no leading zero.
pub open spec fn decimal(n: nat) -> Seq<char>
    decreases n,
{
    if n < 10 {
        seq![digit_char(n)]
    } else {
        decimal(n / 10).push(digit_char(n % 10))
    }
}

/// The decimal digits of `n`, with a comma between each group of three from the right.
pub open spec fn with_commas(n: nat) -> Seq<char>
    decreases n,
{
    if n < 1000 {
        decimal(n)
    } else {
        with_commas(n / 1000) + seq![
            ',',
            digit_char((n % 1000) / 100),
            digit_char((n % 100) / 10),
            digit_char(n % 10),
        ]
    }
}

/// Relies on `thousands::Separable::separate_with_commas`, through the
/// `Display` of `u64`: the decimal digits with a comma every three from the right.
#[verifier::external_body]
fn separate_with_commas(n: u64) -> (r: String)
    ensures
        r@ == with_commas(n as nat),
{
    n.separate_with_commas()
}

/// The three counts of a summary, written for reading.
pub struct CountText {
    pub files: String,
    pub photos: String,
    pub pixels: String,
}

/// The file count, the photo count and the pixel total, each with a comma
/// between each group of three digits.
pub fn count_text(totals: &ImgTotals) -> (r: CountText)
    ensures
        r.files@ == with_commas(totals.filecount as nat),
        r.photos@ == with_commas(totals.photocount as nat),
        r.pixels@ == with_commas(totals.total_pixels as nat),
{
    CountText {
        files: separate_with_commas(totals.filecount as u64),
        photos: separate_with_commas(totals.photocount as u64),
        pixels: separate_with_commas(totals.total_pixels),
    }
}

} // verus!
