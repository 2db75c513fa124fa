//! Taking orders, serving them and taking payment.
use vstd::prelude::*;

verus! {

/// Takes a guest's order.
pub fn take_order() {
}

/// Brings an order to the table.
pub fn serve_order() {
}

/// Takes the guest's payment.
pub fn take_payment() {
}

} // verus!
