use rand::seq::IndexedRandom;
use rand::RngExt;
use vstd::prelude::*;

verus! {

/// The 62 characters that alphanumeric sampling draws from.
pub open spec fn is_alphanumeric(c: char) -> bool {
    ('0' <= c <= '9') || ('A' <= c <= 'Z') || ('a' <= c <= 'z')
}

/// `picked[k]` is `values[idx[k]]` for indices `idx` that are distinct and in range.
pub open spec fn picked_at_distinct_positions<T>(values: Seq<T>, picked: Seq<T>) -> bool {
    exists|idx: Seq<int>|
        #![trigger idx.len()]
        idx.len() == picked.len() && idx.no_duplicates() && forall|k: int|
            0 <= k < idx.len() ==> 0 <= #[trigger] idx[k] < values.len() && picked[k]
                == values[idx[k]]
}

/// The smaller of two counts.
pub open spec fn min_count(a: nat, b: nat) -> nat {
    if a <= b {
        a
    } else {
        b
    }
}

/// A uniformly random `usize` in `start..end`, from the thread's generator
/// (`RngExt::random_range` over a `Range<usize>`, which panics on an empty range).
#[verifier::external_body]
fn random_usize_below(start: usize, end: usize) -> (r: usize)
    requires
        start < end,
    ensures
        start <= r < end,
{
    rand::rng().random_range(start..end)
}

/// A uniformly random `usize` in `start..=end` (`RngExt::random_range` over a
/// `RangeInclusive<usize>`, which panics when `start > end`).
#[verifier::external_body]
fn random_usize_through(start: usize, end: usize) -> (r: usize)
    requires
        start <= end,
    ensures
        start <= r <= end,
{
    rand::rng().random_range(start..=end)
}

/// A uniformly random `char` in `start..end`, skipping the surrogate gap
/// (`RngExt::random_range` over a `Range<char>`, which panics on an empty range).
#[verifier::external_body]
fn random_char_below(start: char, end: char) -> (r: char)
    requires
        start < end,
    ensures
        start <= r < end,
{
    rand::rng().random_range(start..end)
}

/// A uniformly random `char` in `start..=end` (`RngExt::random_range` over a
/// `RangeInclusive<char>`, which panics when `start > end`).
#[verifier::external_body]
fn random_char_through(start: char, end: char) -> (r: char)
    requires
        start <= end,
    ensures
        start <= r <= end,
{
    rand::rng().random_range(start..=end)
}

/// One byte drawn from `rand::distr::Alphanumeric`: an ASCII digit or letter.
#[verifier::external_body]
fn random_alphanumeric_byte() -> (b: u8)
    ensures
        is_alphanumeric(b as char),
{
    rand::rng().sample(rand::distr::Alphanumeric)
}

/// One element of `values` picked at random (`IndexedRandom::choose`): none
/// exactly when `values` is empty.
#[verifier::external_body]
fn choose_element<T>(values: &[T]) -> (r: Option<&T>)
    ensures
        r is None <==> values@.len() == 0,
        r matches Some(v) ==> exists|i: int| 0 <= i < values@.len() && values@[i] == *v,
{
    values.choose(&mut rand::rng())
}

/// `amount` elements of `values` at distinct positions, in random order, or
/// all of them when there are fewer (`IndexedRandom::sample`).
#[verifier::external_body]
fn sample_elements<T>(values: &[T], amount: usize) -> (r: Vec<&T>)
    ensures
        r@.len() == min_count(amount as nat, values@.len()),
        picked_at_distinct_positions(values@, r@.map_values(|x: &T| *x)),
{
    values.sample(&mut rand::rng(), amount).collect()
}

/// A random element of `values`, or `None` when it is empty.
pub fn choose_one<T>(values: &[T]) -> (picked: Option<&T>)
    ensures
        picked is None <==> values@.len() == 0,
        picked matches Some(v) ==> values@.contains(*v),
{
    choose_element(values)
}

/// `count` elements of `values` drawn without repetition of positions, or all
/// of them in random order when there are fewer.
pub fn choose_many<T>(values: &[T], count: usize) -> (picked: Vec<&T>)
    ensures
        picked@.len() == min_count(count as nat, values@.len()),
        picked_at_distinct_positions(values@, picked@.map_values(|x: &T| *x)),
{
    sample_elements(values, count)
}

/// The same draw as `choose_many`.
pub fn sample<T>(values: &[T], count: usize) -> (picked: Vec<&T>)
    ensures
        picked@.len() == min_count(count as nat, values@.len()),
        picked_at_distinct_positions(values@, picked@.map_values(|x: &T| *x)),
{
    sample_elements(values, count)
}

/// A random number in `start..end`; the range must not be empty.
pub fn range(start: usize, end: usize) -> (n: usize)
    requires
        start < end,
    ensures
        start <= n < end,
{
    random_usize_below(start, end)
}

/// `count` random numbers in `start..end`; the range must not be empty
/// unless `count` is zero.
pub fn range_many(start: usize, end: usize, count: usize) -> (ns: Vec<usize>)
    requires
        count > 0 ==> start < end,
    ensures
        ns@.len() == count,
        forall|i: int| 0 <= i < count ==> start <= #[trigger] ns@[i] < end,
{
    let mut ns: Vec<usize> = Vec::new();
    let mut i: usize = 0;
    while i < count
        invariant
            0 <= i <= count,
            count > 0 ==> start < end,
            ns@.len() == i,
            forall|j: int| 0 <= j < i ==> start <= #[trigger] ns@[j] < end,
        decreases count - i,
    {
        ns.push(random_usize_below(start, end));
        i = i + 1;
    }
    ns
}

/// A random character in `start..end`; the range must not be empty.
pub fn range_char(start: char, end: char) -> (c: char)
    requires
        start < end,
    ensures
        start <= c < end,
{
    random_char_below(start, end)
}

/// `count` random characters in `start..end`; the range must not be empty
/// unless `count` is zero.
pub fn range_char_many(start: char, end: char, count: usize) -> (cs: Vec<char>)
    requires
        count > 0 ==> start < end,
    ensures
        cs@.len() == count,
        forall|i: int| 0 <= i < count ==> start <= #[trigger] cs@[i] < end,
{
    let mut cs: Vec<char> = Vec::new();
    let mut i: usize = 0;
    while i < count
        invariant
            0 <= i <= count,
            count > 0 ==> start < end,
            cs@.len() == i,
            forall|j: int| 0 <= j < i ==> start <= #[trigger] cs@[j] < end,
        decreases count - i,
    {
        cs.push(random_char_below(start, end));
        i = i + 1;
    }
    cs
}

/// A random number in `start..=end`; `start` must not exceed `end`.
pub fn range_inclusive(start: usize, end: usize) -> (n: usize)
    requires
        start <= end,
    ensures
        start <= n <= end,
{
    random_usize_through(start, end)
}

/// `count` random numbers in `start..=end`; `start` must not exceed `end`
/// unless `count` is zero.
pub fn range_inclusive_many(start: usize, end: usize, count: usize) -> (ns: Vec<usize>)
    requires
        count > 0 ==> start <= end,
    ensures
        ns@.len() == count,
        forall|i: int| 0 <= i < count ==> start <= #[trigger] ns@[i] <= end,
{
    let mut ns: Vec<usize> = Vec::new();
    let mut i: usize = 0;
    while i < count
        invariant
            0 <= i <= count,
            count > 0 ==> start <= end,
            ns@.len() == i,
            forall|j: int| 0 <= j < i ==> start <= #[trigger] ns@[j] <= end,
        decreases count - i,
    {
        ns.push(random_usize_through(start, end));
        i = i + 1;
    }
    ns
}

/// A random character in `start..=end`; `start` must not exceed `end`.
pub fn range_char_inclusive(start: char, end: char) -> (c: char)
    requires
        start <= end,
    ensures
        start <= c <= end,
{
    random_char_through(start, end)
}

/// `count` random characters in `start..=end`; `start` must not exceed `end`
/// unless `count` is zero.
pub fn range_char_inclusive_many(start: char, end: char, count: usize) -> (cs: Vec<char>)
    requires
        count > 0 ==> start <= end,
    ensures
        cs@.len() == count,
        forall|i: int| 0 <= i < count ==> start <= #[trigger] cs@[i] <= end,
{
    let mut cs: Vec<char> = Vec::new();
    let mut i: usize = 0;
    while i < count
        invariant
            0 <= i <= count,
            count > 0 ==> start <= end,
            cs@.len() == i,
            forall|j: int| 0 <= j < i ==> start <= #[trigger] cs@[j] <= end,
        decreases count - i,
    {
        cs.push(random_char_through(start, end));
        i = i + 1;
    }
    cs
}

/// A random ASCII digit or letter.
pub fn alpha_numeric() -> (c: char)
    ensures
        is_alphanumeric(c),
{
    let b = random_alphanumeric_byte();
    b as char
}

/// `count` random ASCII digits and letters.
pub fn alpha_numeric_many(count: usize) -> (cs: Vec<char>)
    ensures
        cs@.len() == count,
        forall|i: int| 0 <= i < count ==> is_alphanumeric(#[trigger] cs@[i]),
{
    let mut cs: Vec<char> = Vec::new();
    let mut i: usize = 0;
    while i < count
        invariant
            0 <= i <= count,
            cs@.len() == i,
            forall|j: int| 0 <= j < i ==> is_alphanumeric(#[trigger] cs@[j]),
        decreases count - i,
    {
        cs.push(alpha_numeric());
        i = i + 1;
    }
    cs
}

} // verus!
