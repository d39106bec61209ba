//! A swarm of particles doing bounded random walks inside a rectangle, and
//! the per-frame decisions of the loop that animates them.
//!
//! Coordinates, bounds and step sizes are integers in one unit that the
//! caller picks (a fraction of a pixel, say). Sampling the Gaussian steps and
//! drawing happen outside the library: a tick takes the sampled steps as an
//! argument and is verified for every value of them.
use vstd::prelude::*;

pub mod particle;
pub mod state;
pub mod frame;
