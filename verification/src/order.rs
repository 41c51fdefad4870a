use vstd::prelude::*;

use crate::order_safety::natural_order_safe;

verus! {

/// Outcome of comparing two names.
#[derive(PartialEq, Eq, Structural, Clone, Copy, Debug)]
pub enum NameOrder {
    Less,
    Equal,
    Greater,
}

impl NameOrder {
    /// The outcome as a number: negative, zero or positive.
    pub open spec fn rank(self) -> int {
        match self {
            NameOrder::Less => -1,
            NameOrder::Equal => 0,
            NameOrder::Greater => 1,
        }
    }
}

/// Rank (-1, 0 or 1) of the natural, case-insensitive, transliterating order
/// of `lexicmp::natural_lexical_cmp` between two names.
pub uninterp spec fn natural_lexical_rank(a: Seq<char>, b: Seq<char>) -> int;

/// The characters that `lexicmp::iter::iterate_lexical_char` gives for `c`:
/// what natural ordering reads of it (lowercased, and transliterated to
/// ASCII when it is an alphanumeric character that has a transliteration).
pub uninterp spec fn lexical_char_text(c: char) -> Seq<char>;

/// What natural ordering reads of one character, with
/// `lexicmp::iter::iterate_lexical_char`.
///
/// Trusted: the text is the named reading of the character.
#[verifier::external_body]
pub(crate) fn lexical_char(c: char) -> (r: String)
    ensures
        r@ == lexical_char_text(c),
{
    lexicmp::iter::iterate_lexical_char(c).collect()
}

/// Compares two names with `lexicmp::natural_lexical_cmp`.
///
/// Trusted: the result is the named rank of the two names; swapping the names
/// negates it, since each branch of the comparison is symmetric in its two
/// inputs; and it is `Equal` exactly when the names are equal, since every
/// step returns early only on a difference and the last step falls back to
/// the ordinary string order. Transitivity is not claimed. The function
/// accumulates runs of digits of what it reads (see `lexical_char_text`) in
/// a `u64` (and panics on overflow in debug builds), hence the requirement
/// that no such digit run reaches twenty digits.
#[verifier::external_body]
pub(crate) fn compare_names(a: &str, b: &str) -> (r: NameOrder)
    requires
        natural_order_safe(a@),
        natural_order_safe(b@),
    ensures
        r.rank() == natural_lexical_rank(a@, b@),
        r.rank() == -natural_lexical_rank(b@, a@),
        (r == NameOrder::Equal) <==> a@ == b@,
{
    match lexicmp::natural_lexical_cmp(a, b) {
        std::cmp::Ordering::Less => NameOrder::Less,
        std::cmp::Ordering::Equal => NameOrder::Equal,
        std::cmp::Ordering::Greater => NameOrder::Greater,
    }
}

} // verus!
