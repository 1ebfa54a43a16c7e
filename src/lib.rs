//! Bookkeeping for a population of neural-network-driven bots: the dense
//! grids that hold a network's parameters, and the parts of the simulation
//! tick that decide over whole numbers.
use vstd::prelude::*;

pub mod population;
pub mod vectorn;

verus! {

/// Which way a bot turns.
pub enum Direction {
    Left,
    Right,
}

/// Orientation of one edge of the rectangular field.
pub enum Boundary {
    HORIZONTAL,
    VERTICAL,
}

} // verus!
