use vstd::prelude::*;
use rand::Rng;

verus! {

/// Relies on rand's `Rng::gen_range` on `thread_rng()`: a value drawn from
/// the half-open range `lo..hi`, which must not be empty (it panics on an
/// empty range).
#[verifier::external_body]
pub(crate) fn random_in(lo: usize, hi: usize) -> (r: usize)
    requires
        lo < hi,
    ensures
        lo <= r < hi,
{
    rand::thread_rng().gen_range(lo..hi)
}

/// The English words that `number_to_words` gives for `n`, in lower case.
pub uninterp spec fn words_of(n: u32) -> Seq<char>;

/// Relies on `number_to_words::number_to_words(n, false)`: the cardinal
/// number spelled out in English, first word not capitalised.
#[verifier::external_body]
pub(crate) fn spell_number(n: u32) -> (r: String)
    ensures
        r@ == words_of(n),
{
    number_to_words::number_to_words(n, false)
}

/// The upper-case form that `str::to_uppercase` gives for `s`.
pub uninterp spec fn upper_of(s: Seq<char>) -> Seq<char>;

/// Relies on `str::to_uppercase`: the result depends on the characters of
/// `s` alone.
#[verifier::external_body]
pub(crate) fn uppercase(s: &str) -> (r: String)
    ensures
        r@ == upper_of(s@),
{
    s.to_uppercase()
}

} // verus!
