//! The state that every turn works on, besides the entities.

use vstd::prelude::*;
use crate::grid::Grid;
use crate::messages::Messages;

verus! {

/// The map and the message log.
#[derive(Debug)]
pub struct Game {
    pub map: Grid,
    pub messages: Messages,
}

} // verus!
