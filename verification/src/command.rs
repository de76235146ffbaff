use vstd::prelude::*;

use crate::error::Error;
use crate::move_command::{move_consume_step, move_init_step, move_render_spec, BotMoveCommand};
use crate::panic_command::{
    consume_panic_render_spec, panic_render_spec, ConsumePanicCommand, PanicCommand,
};
use crate::pick_command::{pick_consume_step, pick_init_step, pick_render_spec, PickCommand};
use crate::test_command::{
    test_init_step, test_next_render_spec, test_render_spec, test_consume_step, TestCommand,
    TestNextCommand,
};
use crate::transfer_command::{
    transfer_consume_step, transfer_init_step, transfer_render_spec, TransferCommand,
};
use crate::world::{World, WorldModel};

verus! {

/// A command never creates or destroys entities, never turns one variant
/// into another, and never renames one: only locations, lock flags,
/// ledgers and the occupancy ledger may change.
pub open spec fn shape_preserved(pre: WorldModel, post: WorldModel) -> bool {
    &&& post.objs.len() == pre.objs.len()
    &&& forall|i: int|
        0 <= i < pre.objs.len() ==> (#[trigger] post.objs[i]).is_site == pre.objs[i].is_site
            && post.objs[i].id == pre.objs[i].id
}

/// A transient, single-use, two-phase unit of work: `initialize` validates
/// and reserves (locks) at schedule time, `consume` applies effects and
/// releases at the tick boundary, and `render` projects the command for
/// display.
pub trait Command: Sized {
    /// Structural validity against a world shape: the indices the command
    /// stores name existing entities of the right variant.
    spec fn valid(&self, w: WorldModel) -> bool;

    /// What `initialize` guarantees, over the models.
    spec fn init_ens(
        &self,
        pre: WorldModel,
        post: WorldModel,
        post_self: Self,
        r: Result<(), Error>,
    ) -> bool;

    /// What `consume` guarantees, over the models.
    spec fn consume_ens(
        &self,
        pre: WorldModel,
        post: WorldModel,
        post_self: Self,
        r: Result<bool, Error>,
    ) -> bool;

    /// The exact display projection of the command.
    spec fn render_spec(&self, w: WorldModel) -> Seq<char>;

    /// Validates preconditions against the current world state and locks
    /// every entity it will mutate; on failure no lock stays held and no
    /// state is changed.
    fn initialize(&mut self, world: &mut World) -> (r: Result<(), Error>)
        requires
            old(world).wf(),
            old(self).valid(old(world).model()),
        ensures
            final(world).wf(),
            shape_preserved(old(world).model(), final(world).model()),
            final(self).valid(final(world).model()),
            old(self).init_ens(old(world).model(), final(world).model(), *final(self), r),
    ;

    /// Applies the command's effects, releases every lock it holds, and
    /// reports whether it must run again next tick.
    fn consume(&mut self, world: &mut World) -> (r: Result<bool, Error>)
        requires
            old(world).wf(),
            old(self).valid(old(world).model()),
        ensures
            final(world).wf(),
            shape_preserved(old(world).model(), final(world).model()),
            final(self).valid(final(world).model()),
            old(self).consume_ens(old(world).model(), final(world).model(), *final(self), r),
    ;

    /// Renders the command; never fails and never mutates state.
    fn render(&self, world: &World) -> (r: Result<String, Error>)
        requires
            self.valid(world.model()),
        ensures
            match r {
                Ok(s) => s@ == self.render_spec(world.model()),
                Err(_) => false,
            },
    ;
}

/// The closed sum of command variants that a queue stores.
#[derive(Clone, Copy, Debug)]
pub enum AnyCommand {
    Move(BotMoveCommand),
    Transfer(TransferCommand),
    Pick(PickCommand),
    Test(TestCommand),
    TestNext(TestNextCommand),
    Panic(PanicCommand),
    ConsumePanic(ConsumePanicCommand),
}

/// Structural validity of a command against a world shape.
pub open spec fn any_valid(c: AnyCommand, w: WorldModel) -> bool {
    match c {
        AnyCommand::Move(mc) => mc.valid(w),
        AnyCommand::Transfer(tc) => tc.valid(w),
        AnyCommand::Pick(pc) => pc.valid(w),
        AnyCommand::Test(tc) => tc.valid(w),
        AnyCommand::TestNext(tc) => tc.valid(w),
        AnyCommand::Panic(pc) => pc.valid(w),
        AnyCommand::ConsumePanic(pc) => pc.valid(w),
    }
}

/// One `initialize` of the command interpreter: the world after, the
/// command after, and the result.
pub open spec fn any_init_step(w: WorldModel, c: AnyCommand) -> (WorldModel, AnyCommand, Result<
    (),
    Error,
>) {
    match c {
        AnyCommand::Move(mc) => {
            let (w2, r) = move_init_step(w, mc);
            (w2, c, r)
        },
        AnyCommand::Transfer(tc) => {
            let (w2, r) = transfer_init_step(w, tc);
            (w2, c, r)
        },
        AnyCommand::Pick(pc) => {
            let (w2, r) = pick_init_step(w, pc);
            (w2, c, r)
        },
        AnyCommand::Test(tc) => (w, AnyCommand::Test(test_init_step(tc)), Ok(())),
        AnyCommand::TestNext(_) => (w, c, Ok(())),
        AnyCommand::Panic(_) => (w, c, Err(Error::Fault)),
        AnyCommand::ConsumePanic(_) => (w, c, Ok(())),
    }
}

/// One `consume` of the command interpreter.
pub open spec fn any_consume_step(w: WorldModel, c: AnyCommand) -> (
    WorldModel,
    AnyCommand,
    Result<bool, Error>,
) {
    match c {
        AnyCommand::Move(mc) => {
            let (w2, r) = move_consume_step(w, mc);
            (w2, c, r)
        },
        AnyCommand::Transfer(tc) => {
            let (w2, r) = transfer_consume_step(w, tc);
            (w2, c, r)
        },
        AnyCommand::Pick(pc) => {
            let (w2, r) = pick_consume_step(w, pc);
            (w2, c, r)
        },
        AnyCommand::Test(tc) => (w, AnyCommand::Test(test_consume_step(tc)), Ok(false)),
        AnyCommand::TestNext(_) => (w, c, Ok(true)),
        AnyCommand::Panic(_) => (w, c, Err(Error::Fault)),
        AnyCommand::ConsumePanic(_) => (w, c, Err(Error::Fault)),
    }
}

/// The display projection of a command.
pub open spec fn any_render_spec(c: AnyCommand, w: WorldModel) -> Seq<char> {
    match c {
        AnyCommand::Move(mc) => move_render_spec(mc, w),
        AnyCommand::Transfer(tc) => transfer_render_spec(tc, w),
        AnyCommand::Pick(pc) => pick_render_spec(pc, w),
        AnyCommand::Test(_) => test_render_spec(),
        AnyCommand::TestNext(_) => test_next_render_spec(),
        AnyCommand::Panic(_) => panic_render_spec(),
        AnyCommand::ConsumePanic(_) => consume_panic_render_spec(),
    }
}

impl Command for AnyCommand {
    open spec fn valid(&self, w: WorldModel) -> bool {
        any_valid(*self, w)
    }

    open spec fn init_ens(
        &self,
        pre: WorldModel,
        post: WorldModel,
        post_self: Self,
        r: Result<(), Error>,
    ) -> bool {
        (post, post_self, r) == any_init_step(pre, *self)
    }

    open spec fn consume_ens(
        &self,
        pre: WorldModel,
        post: WorldModel,
        post_self: Self,
        r: Result<bool, Error>,
    ) -> bool {
        (post, post_self, r) == any_consume_step(pre, *self)
    }

    open spec fn render_spec(&self, w: WorldModel) -> Seq<char> {
        any_render_spec(*self, w)
    }

    fn initialize(&mut self, world: &mut World) -> (r: Result<(), Error>) {
        match self {
            AnyCommand::Move(c) => c.initialize(world),
            AnyCommand::Transfer(c) => c.initialize(world),
            AnyCommand::Pick(c) => c.initialize(world),
            AnyCommand::Test(c) => c.initialize(world),
            AnyCommand::TestNext(c) => c.initialize(world),
            AnyCommand::Panic(c) => c.initialize(world),
            AnyCommand::ConsumePanic(c) => c.initialize(world),
        }
    }

    fn consume(&mut self, world: &mut World) -> (r: Result<bool, Error>) {
        match self {
            AnyCommand::Move(c) => c.consume(world),
            AnyCommand::Transfer(c) => c.consume(world),
            AnyCommand::Pick(c) => c.consume(world),
            AnyCommand::Test(c) => c.consume(world),
            AnyCommand::TestNext(c) => c.consume(world),
            AnyCommand::Panic(c) => c.consume(world),
            AnyCommand::ConsumePanic(c) => c.consume(world),
        }
    }

    fn render(&self, world: &World) -> (r: Result<String, Error>) {
        match self {
            AnyCommand::Move(c) => c.render(world),
            AnyCommand::Transfer(c) => c.render(world),
            AnyCommand::Pick(c) => c.render(world),
            AnyCommand::Test(c) => c.render(world),
            AnyCommand::TestNext(c) => c.render(world),
            AnyCommand::Panic(c) => c.render(world),
            AnyCommand::ConsumePanic(c) => c.render(world),
        }
    }
}

} // verus!
