use rand::seq::IndexedRandom;
use vstd::prelude::*;

use crate::rng::{alpha_numeric, choose_one, is_alphanumeric, range_char};
use crate::text::push_char;

verus! {

broadcast use vstd::string::group_string_axioms;

/// The sum of the weights of weighted alternatives.
pub open spec fn total_weight<T>(items: Seq<(u32, T)>) -> int
    decreases items.len(),
{
    if items.len() == 0 {
        0
    } else {
        total_weight(items.drop_last()) + items.last().0
    }
}

/// Whether a weighted pick can be made: there are alternatives, their weights
/// are not all zero, and their sum fits in a `u32`.
pub open spec fn can_pick_weighted<T>(items: Seq<(u32, T)>) -> bool {
    items.len() > 0 && 0 < total_weight(items) <= u32::MAX
}

/// An alternative picked with probability proportional to its weight
/// (`IndexedRandom::choose_weighted` with the first component as weight);
/// none when no pick can be made.
#[verifier::external_body]
fn choose_weighted_element<T>(items: &[(u32, T)]) -> (r: Option<&(u32, T)>)
    ensures
        r is Some <==> can_pick_weighted(items@),
        r matches Some(p) ==> exists|i: int| 0 <= i < items@.len() && items@[i] == *p && p.0 > 0,
{
    items.choose_weighted(&mut rand::rng(), |v| v.0).ok()
}

/// The message for a choice among no alternatives.
pub open spec fn no_alternatives_message() -> Seq<char> {
    "OneOf has no values"@
}

fn no_alternatives() -> (message: String)
    ensures
        message@ == no_alternatives_message(),
{
    "OneOf has no values".to_owned()
}

/// One of `alternatives`, picked uniformly; an error when there are none.
pub fn pick_one<T>(alternatives: &[T]) -> (picked: Result<&T, String>)
    ensures
        picked is Err <==> alternatives@.len() == 0,
        picked matches Ok(v) ==> alternatives@.contains(*v),
        picked matches Err(e) ==> e@ == no_alternatives_message(),
{
    match choose_one(alternatives) {
        Some(v) => Ok(v),
        None => Err(no_alternatives()),
    }
}

/// One of the weighted alternatives, picked with probability proportional to
/// its weight; an error when there are none, all weights are zero, or their
/// sum overflows a `u32`.
pub fn pick_weighted<T>(alternatives: &[(u32, T)]) -> (picked: Result<&T, String>)
    ensures
        picked is Ok <==> can_pick_weighted(alternatives@),
        picked matches Ok(v) ==> exists|i: int|
            0 <= i < alternatives@.len() && alternatives@[i].1 == *v && alternatives@[i].0 > 0,
        picked matches Err(e) ==> e@ == no_alternatives_message(),
{
    match choose_weighted_element(alternatives) {
        Some(p) => Ok(&p.1),
        None => Err(no_alternatives()),
    }
}

/// A random string of `len` ASCII digits and letters.
pub fn alphanumeric_string(len: usize) -> (s: String)
    ensures
        s@.len() == len,
        forall|i: int| 0 <= i < len ==> is_alphanumeric(#[trigger] s@[i]),
{
    let mut s = String::new();
    let mut i: usize = 0;
    while i < len
        invariant
            0 <= i <= len,
            s@.len() == i,
            forall|j: int| 0 <= j < i ==> is_alphanumeric(#[trigger] s@[j]),
        decreases len - i,
    {
        let c = alpha_numeric();
        push_char(&mut s, c);
        i = i + 1;
    }
    s
}

/// A random string of `len` characters, each in `min..max`; the range must
/// not be empty unless `len` is zero.
pub fn random_string(len: usize, min: char, max: char) -> (s: String)
    requires
        len > 0 ==> min < max,
    ensures
        s@.len() == len,
        forall|i: int| 0 <= i < len ==> min <= #[trigger] s@[i] < max,
{
    let mut s = String::new();
    let mut i: usize = 0;
    while i < len
        invariant
            0 <= i <= len,
            len > 0 ==> min < max,
            s@.len() == i,
            forall|j: int| 0 <= j < i ==> min <= #[trigger] s@[j] < max,
        decreases len - i,
    {
        let c = range_char(min, max);
        push_char(&mut s, c);
        i = i + 1;
    }
    s
}

} // verus!
