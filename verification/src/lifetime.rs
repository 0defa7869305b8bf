//! Classification of how long a stored metric value survives.

use vstd::prelude::*;

verus! {

/// How long a recorded value lives before the engine clears it.
///
/// `Ping`-scoped values are cleared once they have been snapshotted into a
/// successfully submitted ping; `Application`-scoped values last for one
/// process run and are cleared by start-up housekeeping; `User`-scoped
/// values survive restarts and submissions until explicitly reset.
#[derive(Clone, Copy, Debug, PartialEq, Eq, Structural)]
pub enum Lifetime {
    Ping,
    Application,
    User,
}

} // verus!
