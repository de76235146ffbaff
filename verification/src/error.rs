use vstd::prelude::*;

verus! {

/// The error kinds that the command engine can report.
///
/// `AlreadyLocked` / `AlreadyUnlocked` signal lock-protocol misuse,
/// `TooFar` an adjacency violation at admission time, `TargetOccupied` a
/// destination cell that is not free at apply time, `TargetNotEmpty` a
/// transfer into an entity whose ledger is not empty, and
/// `InsufficientQuantity(have)` a ledger shortfall, carrying the quantity
/// actually held. `Fault` is reported only by the test doubles whose
/// lifecycle steps always fail.
#[derive(Clone, Copy, Debug, PartialEq, Eq, Structural)]
pub enum Error {
    AlreadyLocked,
    AlreadyUnlocked,
    TooFar,
    TargetOccupied,
    TargetNotEmpty,
    InsufficientQuantity(u32),
    Fault,
}

} // verus!
