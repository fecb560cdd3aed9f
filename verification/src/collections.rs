//! The non-empty lists of the `nonempty` crate, as the library uses them.
use vstd::prelude::*;

use crate::grammar::DatePattern;
use nonempty::NonEmpty;

verus! {

#[verifier::external_type_specification]
#[verifier::external_body]
#[verifier::reject_recursive_types(T)]
pub struct ExNonEmpty<T>(NonEmpty<T>);

/// The date patterns a non-empty list holds, in order.
pub uninterp spec fn date_patterns_of(ne: NonEmpty<DatePattern>) -> Seq<DatePattern>;

/// The numbers a non-empty list holds, in order.
pub uninterp spec fn numbers_of(ne: NonEmpty<u32>) -> Seq<u32>;

/// `NonEmpty::new`: the list of one pattern.
#[verifier::external_body]
pub(crate) fn dates_new(p: DatePattern) -> (r: NonEmpty<DatePattern>)
    ensures
        date_patterns_of(r) == seq![p],
{
    NonEmpty::new(p)
}

/// `NonEmpty::push`: appends a pattern at the end.
#[verifier::external_body]
pub(crate) fn dates_push(ne: &mut NonEmpty<DatePattern>, p: DatePattern)
    ensures
        date_patterns_of(*final(ne)) == date_patterns_of(*old(ne)).push(p),
{
    ne.push(p)
}

/// `NonEmpty::len`.
#[verifier::external_body]
pub(crate) fn dates_len(ne: &NonEmpty<DatePattern>) -> (r: usize)
    ensures
        r == date_patterns_of(*ne).len(),
        r >= 1,
{
    ne.len()
}

/// `NonEmpty::first`: the first pattern.
#[verifier::external_body]
pub(crate) fn dates_first(ne: &NonEmpty<DatePattern>) -> (r: &DatePattern)
    ensures
        date_patterns_of(*ne).len() >= 1 ==> *r == date_patterns_of(*ne)[0],
{
    ne.first()
}

/// `NonEmpty::get`: the pattern at index `i`, if there is one.
#[verifier::external_body]
pub(crate) fn dates_get(ne: &NonEmpty<DatePattern>, i: usize) -> (r: Option<&DatePattern>)
    ensures
        r is Some <==> i < date_patterns_of(*ne).len(),
        r matches Some(p) ==> *p == date_patterns_of(*ne)[i as int],
{
    ne.get(i)
}

/// `Vec::from(NonEmpty)`: the patterns, in order, as a vector.
#[verifier::external_body]
pub(crate) fn dates_into_vec(ne: NonEmpty<DatePattern>) -> (r: Vec<DatePattern>)
    ensures
        r@ == date_patterns_of(ne),
{
    Vec::from(ne)
}

/// `<(T, Vec<T>)>::from(NonEmpty)`: the first pattern and the ones after it.
#[verifier::external_body]
pub(crate) fn dates_split(ne: NonEmpty<DatePattern>) -> (r: (DatePattern, Vec<DatePattern>))
    ensures
        date_patterns_of(ne) == seq![r.0] + r.1@,
{
    <(DatePattern, Vec<DatePattern>)>::from(ne)
}

/// `NonEmpty::from_vec`: the list of the vector's patterns, unless the vector is empty.
#[verifier::external_body]
pub(crate) fn dates_from_vec(v: Vec<DatePattern>) -> (r: Option<NonEmpty<DatePattern>>)
    ensures
        r is Some <==> v@.len() > 0,
        r matches Some(ne) ==> date_patterns_of(ne) == v@,
{
    NonEmpty::from_vec(v)
}

/// `NonEmpty::from_vec`: the list of the vector's numbers, unless the vector is empty.
#[verifier::external_body]
pub(crate) fn numbers_from_vec(v: Vec<u32>) -> (r: Option<NonEmpty<u32>>)
    ensures
        r is Some <==> v@.len() > 0,
        r matches Some(ne) ==> numbers_of(ne) == v@,
{
    NonEmpty::from_vec(v)
}

/// `NonEmpty::contains`: whether the list holds `x`.
#[verifier::external_body]
pub(crate) fn numbers_contains(ne: &NonEmpty<u32>, x: u32) -> (r: bool)
    ensures
        r == numbers_of(*ne).contains(x),
{
    ne.contains(&x)
}

} // verus!
