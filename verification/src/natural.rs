//! Natural ("human") ordering of file names, from the `natord` crate.
use vstd::prelude::*;

verus! {

/// The outcome of comparing two names.
#[derive(Clone, Copy, Debug, PartialEq, Eq, Structural)]
pub enum NatOrder {
    Less,
    Equal,
    Greater,
}

pub open spec fn flip(o: NatOrder) -> NatOrder {
    match o {
        NatOrder::Less => NatOrder::Greater,
        NatOrder::Equal => NatOrder::Equal,
        NatOrder::Greater => NatOrder::Less,
    }
}

/// How `natord::compare` orders two strings.
pub uninterp spec fn natural_order(a: Seq<char>, b: Seq<char>) -> NatOrder;

/// `natord::compare`: compares two strings case-sensitively, skipping Unicode
/// whitespace and comparing runs of decimal digits by value. Its contract
/// names the result and states that swapping the arguments reverses it,
/// which the crate's code shows: it treats its two sides alike, answering
/// `Greater` wherever the mirrored case answers `Less`.
#[verifier::external_body]
pub(crate) fn natural_compare(a: &str, b: &str) -> (r: NatOrder)
    ensures
        r == natural_order(a@, b@),
        flip(r) == natural_order(b@, a@),
{
    match natord::compare(a, b) {
        std::cmp::Ordering::Less => NatOrder::Less,
        std::cmp::Ordering::Equal => NatOrder::Equal,
        std::cmp::Ordering::Greater => NatOrder::Greater,
    }
}

} // verus!
