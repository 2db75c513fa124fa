//! The kitchen.
use vstd::prelude::*;

use super::serving;

verus! {

/// Cooks an order again and serves it.
pub fn fix_incorrect_order() {
    cook_order();
    serving::serve_order();
}

/// Cooks an order.
pub fn cook_order() {
}

/// Reaches the kitchen from a nested place.
pub fn in_child_mod() {
    cook_order();
}

} // verus!
