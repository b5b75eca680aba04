//! Process-wide configuration consumed by collaborators around the store.
//! It is constructed once at startup by the surrounding program and passed
//! by reference; the core holds no global state.

use vstd::prelude::*;

verus! {

/// The configuration value: where the stroke-order data files live.
pub struct Config {
    pub stroke_order_data: String,
}

impl Config {
    /// Builds a configuration value.
    pub fn new(stroke_order_data: String) -> (r: Config)
        ensures
            r.stroke_order_data@ == stroke_order_data@,
    {
        Config { stroke_order_data }
    }
}

} // verus!
