use vstd::prelude::*;

verus! {

/// One row of the listing: a product identifier (an "EAN" code) and its
/// display name, both carried verbatim from the backing table to the
/// response.
#[derive(Clone, Debug, PartialEq, Eq)]
pub struct Ean {
    pub ean: String,
    pub name: String,
}

} // verus!
