//! The shared vectors in which commit data is handed around: what each
//! holds, and the two ways in and out of them that the library uses.

use crate::authors::Author;
use crate::git::RawCommit;
use crate::parse::ParsedCommit;
use ecow::EcoVec;
use vstd::prelude::*;

verus! {

/// `ecow::EcoVec`, a vector that is shared until it is written to. What is
/// inside is known through the functions below alone.
#[verifier::external_type_specification]
#[verifier::external_body]
#[verifier::reject_recursive_types(T)]
pub struct ExEcoVec<T>(EcoVec<T>);

/// `EcoVec::clone`: a vector that shares what the given one holds, and so
/// holds the same.
pub assume_specification<T: Clone>[ <EcoVec<T> as Clone>::clone ](v: &EcoVec<T>) -> (r: EcoVec<T>)
    ensures
        r == *v,
;

/// The numbers that a shared vector holds, in order.
pub uninterp spec fn held_numbers(v: EcoVec<u64>) -> Seq<u64>;

/// The texts that a shared vector holds, in order.
pub uninterp spec fn held_texts(v: EcoVec<String>) -> Seq<String>;

/// The pairs of texts that a shared vector holds, in order.
pub uninterp spec fn held_pairs(v: EcoVec<(String, String)>) -> Seq<(String, String)>;

/// The raw commits that a shared vector holds, in order.
pub uninterp spec fn held_raw_commits(v: EcoVec<RawCommit>) -> Seq<RawCommit>;

/// The parsed commits that a shared vector holds, in order.
pub uninterp spec fn held_commits(v: EcoVec<ParsedCommit>) -> Seq<ParsedCommit>;

/// The authors that a shared vector holds, in order.
pub uninterp spec fn held_authors(v: EcoVec<Author>) -> Seq<Author>;

/// `EcoVec::from` on a vector: the items of the vector, in their order.
#[verifier::external_body]
pub(crate) fn numbers_from(v: Vec<u64>) -> (r: EcoVec<u64>)
    ensures
        held_numbers(r) == v@,
{
    EcoVec::from(v)
}

/// `EcoVec::as_slice`: the items that the vector holds, in order.
#[verifier::external_body]
pub(crate) fn numbers_in(v: &EcoVec<u64>) -> (r: &[u64])
    ensures
        r@ == held_numbers(*v),
{
    v.as_slice()
}

/// `EcoVec::from` on a vector: the items of the vector, in their order.
#[verifier::external_body]
pub(crate) fn texts_from(v: Vec<String>) -> (r: EcoVec<String>)
    ensures
        held_texts(r) == v@,
{
    EcoVec::from(v)
}

/// `EcoVec::as_slice`: the items that the vector holds, in order.
#[verifier::external_body]
pub(crate) fn texts_in(v: &EcoVec<String>) -> (r: &[String])
    ensures
        r@ == held_texts(*v),
{
    v.as_slice()
}

/// `EcoVec::from` on a vector: the items of the vector, in their order.
#[verifier::external_body]
pub(crate) fn pairs_from(v: Vec<(String, String)>) -> (r: EcoVec<(String, String)>)
    ensures
        held_pairs(r) == v@,
{
    EcoVec::from(v)
}

/// `EcoVec::as_slice`: the items that the vector holds, in order.
#[verifier::external_body]
pub(crate) fn raw_commits_in(v: &EcoVec<RawCommit>) -> (r: &[RawCommit])
    ensures
        r@ == held_raw_commits(*v),
{
    v.as_slice()
}

/// `EcoVec::from` on a vector: the items of the vector, in their order.
#[verifier::external_body]
pub(crate) fn commits_from(v: Vec<ParsedCommit>) -> (r: EcoVec<ParsedCommit>)
    ensures
        held_commits(r) == v@,
{
    EcoVec::from(v)
}

/// `EcoVec::from` on a vector: the items of the vector, in their order.
#[verifier::external_body]
pub(crate) fn authors_from(v: Vec<Author>) -> (r: EcoVec<Author>)
    ensures
        held_authors(r) == v@,
{
    EcoVec::from(v)
}

/// `EcoVec::as_slice`: the items that the vector holds, in order.
#[verifier::external_body]
pub(crate) fn authors_in(v: &EcoVec<Author>) -> (r: &[Author])
    ensures
        r@ == held_authors(*v),
{
    v.as_slice()
}

} // verus!
