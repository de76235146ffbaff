use vstd::prelude::*;

use crate::command::{any_init_step, any_valid, shape_preserved, AnyCommand, Command};
use crate::error::Error;
use crate::world::World;

verus! {

/// A queue of commands for one tick; itself a composite command, so that
/// a tick runner can drive it through the same two-phase lifecycle.
pub trait CommandQueue: Command {
    /// The commands currently pending, in submission order.
    spec fn pending(&self) -> Seq<AnyCommand>;

    /// Admission: runs the command's `initialize`; appends the command on
    /// success, and propagates the error without enqueueing on failure.
    fn schedule(&mut self, command: AnyCommand, world: &mut World) -> (r: Result<(), Error>)
        requires
            old(world).wf(),
            any_valid(command, old(world).model()),
            old(self).valid(old(world).model()),
        ensures
            final(world).wf(),
            shape_preserved(old(world).model(), final(world).model()),
            final(self).valid(final(world).model()),
            ({
                let (w2, c2, r2) = any_init_step(old(world).model(), command);
                &&& final(world).model() == w2
                &&& r == r2
                &&& final(self).pending() == if r2 is Ok {
                    old(self).pending().push(c2)
                } else {
                    old(self).pending()
                }
            }),
    ;

    /// The pending commands, in submission order.
    fn commands(&self) -> (r: &Vec<AnyCommand>)
        ensures
            r@ == self.pending(),
    ;
}

} // verus!
