//! Error type of the library.

use vstd::prelude::*;
use crate::game::MeansOfDeath;

verus! {

/// Global error of this library.
#[derive(Debug, Clone, Copy, PartialEq, Eq)]
pub enum Error {
    /// A kill named a means of death outside the canonical table; reports
    /// refuse such games.
    UnknownMeansOfDeath(MeansOfDeath),
}

} // verus!
