//! The name of the namespace that holds an enum's marker types.

use convert_case::{Case, Casing};
use vstd::prelude::*;

verus! {

/// The snake-case spelling of `name` as `convert_case` computes it: the
/// words of `name`, in lower case, joined by underscores.
pub uninterp spec fn snake_case(name: Seq<char>) -> Seq<char>;

/// Trusted: `convert_case::Casing::to_case` with `Case::Snake`.
///
/// The conversion reads nothing but the text it is given, so its result is a
/// function of that text; the contract gives that function the name
/// [`snake_case`] and claims nothing else about it.
#[verifier::external_body]
fn to_snake_case(name: &str) -> (snake: String)
    ensures
        snake@ == snake_case(name@),
{
    name.to_case(Case::Snake)
}

/// The namespace for the marker types of the enum called `enum_name`.
pub fn namespace_of(enum_name: &str) -> (namespace: String)
    ensures
        namespace@ == snake_case(enum_name@),
{
    to_snake_case(enum_name)
}

} // verus!
