//! A restaurant laid out as a tree of modules: the front of the house seats
//! and serves guests, the back of the house cooks.
use vstd::prelude::*;

pub mod back_of_house;
pub mod hosting;
pub mod serving;

verus! {

/// A visit: the guest is put on the waiting list, by absolute and by
/// relative path.
pub fn eat_at_restaurant() {
    crate::restaurant::hosting::add_to_waitlist();
    hosting::add_to_waitlist();
}

} // verus!
