use rand::seq::SliceRandom;
use rand::Rng;
use vstd::prelude::*;

verus! {

/// `rand::Rng::gen_range` on the thread's generator, for a half-open range
/// of `i32`. Trusted: the value drawn lies in the range. The range must not
/// be empty.
#[verifier::external_body]
pub(crate) fn random_in_range(low: i32, high: i32) -> (drawn: i32)
    requires
        low < high,
    ensures
        low <= drawn < high,
{
    rand::thread_rng().gen_range(low..high)
}

/// `rand::Rng::gen_ratio` on the thread's generator: `true` with probability
/// `numerator / denominator`. Trusted: a ratio of zero never gives `true`
/// and a ratio of one always does.
#[verifier::external_body]
pub(crate) fn random_ratio(numerator: u32, denominator: u32) -> (drawn: bool)
    requires
        0 < denominator,
        numerator <= denominator,
    ensures
        numerator == 0 ==> !drawn,
        numerator == denominator ==> drawn,
{
    rand::thread_rng().gen_ratio(numerator, denominator)
}

/// `rand::seq::SliceRandom::choose` on the thread's generator. Trusted: the
/// result is one of the items, and `None` exactly when there are none.
#[verifier::external_body]
pub(crate) fn choose_one<T>(items: &[T]) -> (chosen: Option<&T>)
    ensures
        chosen is None <==> items@.len() == 0,
        chosen matches Some(item) ==> items@.contains(*item),
{
    items.choose(&mut rand::thread_rng())
}

/// One of the numbers, chosen at random; `None` exactly when there are none.
pub(crate) fn pick_id(ids: &Vec<u64>) -> (chosen: Option<u64>)
    ensures
        chosen is None <==> ids@.len() == 0,
        chosen matches Some(id) ==> ids@.contains(id),
{
    match choose_one(ids.as_slice()) {
        Some(id) => Some(*id),
        None => None,
    }
}

} // verus!
