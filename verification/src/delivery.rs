use rand::Rng;
use vstd::prelude::*;

use crate::order::Order;

verus! {

/// The request to a deliverer to take an order to its customer.
#[derive(Debug)]
pub struct DeliverOrder(pub Order);

/// Draws a number from `0..bound` with `rand::Rng::gen_range` on the
/// thread-local generator of `rand::thread_rng`. The contract claims only
/// what holds of every draw: the number lies in that range. `gen_range`
/// panics on an empty range, hence `bound > 0`.
#[verifier::external_body]
pub(crate) fn random_below(bound: usize) -> (drawn: usize)
    requires
        bound > 0,
    ensures
        drawn < bound,
{
    rand::thread_rng().gen_range(0..bound)
}

/// How many seconds a delivery takes: a random number below
/// `max_time_delivery`, or none at all when that is 0.
pub fn delivery_time(max_time_delivery: usize) -> (seconds: usize)
    ensures
        max_time_delivery == 0 ==> seconds == 0,
        max_time_delivery > 0 ==> seconds < max_time_delivery,
{
    if max_time_delivery != 0 {
        random_below(max_time_delivery)
    } else {
        0
    }
}

} // verus!
