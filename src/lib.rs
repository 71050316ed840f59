//! Capital-gains tax over a sequence of buy and sell operations.
//!
//! Money is held as integer cents throughout: unit costs, the weighted
//! average cost basis, the accumulated loss and the tax owed.
use vstd::prelude::*;

pub mod laws;
pub mod rounding;
pub mod simulation;
