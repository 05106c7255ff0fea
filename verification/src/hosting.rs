//! The front of the house: seating guests.

use vstd::prelude::*;

verus! {

/// Puts a guest on the waiting list. The house keeps no list yet, so nothing
/// changes.
pub fn add_to_waitlist() {
}

} // verus!
