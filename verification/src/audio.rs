use vstd::prelude::*;

verus! {

/// The sounds the game plays.
#[derive(Debug, Clone, Copy, PartialEq, Eq, Structural)]
pub enum Sound {
    Start,
    Coin,
    Pause,
    Unpause,
    Impact,
}

} // verus!
