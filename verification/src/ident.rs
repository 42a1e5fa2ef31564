use vstd::prelude::*;

verus! {

/// The number of characters in a short identifier.
pub const ID_LENGTH: usize = 10;

/// The characters a short identifier is drawn from: ASCII letters and
/// digits, the underscore and the hyphen.
pub open spec fn is_id_char(c: char) -> bool {
    ||| c == '_'
    ||| c == '-'
    ||| ('0' <= c && c <= '9')
    ||| ('a' <= c && c <= 'z')
    ||| ('A' <= c && c <= 'Z')
}

/// The shape of a short identifier: [`ID_LENGTH`] characters of the
/// identifier alphabet.
pub open spec fn is_short_id(id: Seq<char>) -> bool {
    &&& id.len() == ID_LENGTH
    &&& forall|i: int| 0 <= i < id.len() ==> is_id_char(#[trigger] id[i])
}

/// Draws `size` random characters with `nanoid::format`, using nanoid's
/// default random source (`nanoid::rngs::default`) and its URL-safe alphabet
/// (`nanoid::alphabet::SAFE`).
///
/// Trusted: the result has `size` characters, each one of the 64 characters
/// of that alphabet. Which characters come out is left open: two calls may
/// differ. A size of zero is excluded because `format` would not return, and
/// a size whose eightfold overflows because `format` computes it. The random
/// source aborts if the operating system can give it no entropy.
#[verifier::external_body]
fn random_text(size: usize) -> (text: String)
    requires
        0 < size <= usize::MAX / 8,
    ensures
        text@.len() == size,
        forall|i: int| 0 <= i < text@.len() ==> is_id_char(#[trigger] text@[i]),
{
    nanoid::format(nanoid::rngs::default, &nanoid::alphabet::SAFE, size)
}

/// Draws a fresh short identifier.
pub fn new_short_id() -> (id: String)
    ensures
        is_short_id(id@),
{
    random_text(ID_LENGTH)
}

} // verus!
