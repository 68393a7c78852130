//! The text encoder: `encode` from the `base94` crate.
use vstd::prelude::*;

verus! {

/// The text that `base94::encode` gives for `data` in base `base`. Nothing is
/// proved of it here beyond what `base_encode` states.
pub uninterp spec fn base_text(data: Seq<u8>, base: u8) -> Seq<char>;

/// The 94 printable ASCII characters from `'!'` to `'~'`.
pub open spec fn in_alphabet(c: char) -> bool {
    33 <= c as u32 <= 126
}

/// Every character of `text` is one of the 94 of the alphabet.
pub open spec fn all_in_alphabet(text: Seq<char>) -> bool {
    forall|i: int| 0 <= i < text.len() ==> in_alphabet(#[trigger] text[i])
}

/// Calls `base94::encode`.
///
/// Trusted, not proved: the text depends on `data` and `base` alone, and each
/// of its characters is taken from the crate's table of 94 characters, which
/// holds the codes 33 to 126 in order. The crate panics on a base outside
/// 2..=94, which `requires` leaves out.
#[verifier::external_body]
pub(crate) fn base_encode(data: &[u8], base: u8) -> (text: String)
    requires
        2 <= base <= 94,
    ensures
        text@ == base_text(data@, base),
        all_in_alphabet(text@),
{
    base94::encode(data, base)
}

} // verus!
