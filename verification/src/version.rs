//! The version of this library.

use vstd::prelude::*;

verus! {

pub const VERSION: &'static str = "0.6.0";

} // verus!
