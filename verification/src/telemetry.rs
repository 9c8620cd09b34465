//! Installing the subscriber that the program logs with.

use vstd::prelude::*;
use crate::trusted::set_global_default;

verus! {

/// Registers a subscriber as the program's global default, to process span
/// data. Returns whether it was registered: only the first call in a
/// process registers anything.
pub fn init_subscriber(subscriber: tracing::Dispatch) -> (installed: bool) {
    set_global_default(subscriber)
}

} // verus!
