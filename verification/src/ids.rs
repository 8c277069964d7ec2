//! Random unique job IDs.

use vstd::prelude::*;

verus! {

/// Whether `c` is a lower-case hexadecimal digit.
pub open spec fn is_hex_digit(c: char) -> bool {
    ('0' <= c && c <= '9') || ('a' <= c && c <= 'f')
}

/// Whether `text` is the hyphenated form of a random (version 4) UUID: five groups of 8, 4, 4, 4
/// and 12 hexadecimal digits, with the version and the variant in their places.
pub open spec fn is_random_id(text: Seq<char>) -> bool {
    &&& text.len() == 36
    &&& forall|i: int|
        #![trigger text[i]]
        0 <= i < 36 ==> if i == 8 || i == 13 || i == 18 || i == 23 {
            text[i] == '-'
        } else {
            is_hex_digit(text[i])
        }
    &&& text[14] == '4'
    &&& (text[19] == '8' || text[19] == '9' || text[19] == 'a' || text[19] == 'b')
}

/// Makes a random ID with `uuid::Uuid::new_v4`, and writes it out with its `Display` form.
///
/// What is believed of it: the text is the hyphenated form of a version 4 UUID. That two such
/// IDs differ is only very likely, so it is not claimed.
#[verifier::external_body]
pub(crate) fn random_id() -> (id: String)
    ensures
        is_random_id(id@),
{
    uuid::Uuid::new_v4().to_string()
}

/// Whether `id` was made at random. No other ID is known to be.
pub closed spec fn drawn_at_random(id: Seq<char>) -> bool {
    exists|text: String| text@ == id && #[trigger] call_ensures(random_id, (), text)
}

/// Draws an ID at random.
pub(crate) fn draw_id() -> (id: String)
    ensures
        drawn_at_random(id@),
        is_random_id(id@),
{
    random_id()
}

/// Only what was made at random counts as such, and it has the form of a version 4 UUID.
pub(crate) proof fn law_a_random_id_is_drawn(id: Seq<char>)
    ensures
        drawn_at_random(id) <==> exists|text: String|
            text@ == id && #[trigger] call_ensures(random_id, (), text),
        drawn_at_random(id) ==> is_random_id(id),
{
}

/// A random ID consists of lower-case hexadecimal digits and four hyphens, with the version and
/// the variant in their places.
pub proof fn law_the_form_of_a_random_id(id: Seq<char>, i: int)
    requires
        is_random_id(id),
        0 <= i < id.len(),
    ensures
        id.len() == 36,
        id[i] == '-' <==> i == 8 || i == 13 || i == 18 || i == 23,
        id[i] == '-' || ('0' <= id[i] && id[i] <= '9') || ('a' <= id[i] && id[i] <= 'f'),
        id[14] == '4',
        id[19] == '8' || id[19] == '9' || id[19] == 'a' || id[19] == 'b',
{
}

} // verus!
