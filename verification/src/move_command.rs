use vstd::prelude::*;
use vstd::string::StringExecFns;

use crate::command::Command;
use crate::error::Error;
use crate::location::{adjacent, location_render_spec, Location};
use crate::object::{obj_lock, Object, ObjectModel};
use crate::world::{move_occ, World, WorldModel};

verus! {

/// Moves one entity to an adjacent cell, if that cell is still free when
/// the batch is applied.
#[derive(Clone, Copy, Debug)]
pub struct BotMoveCommand {
    pub bot: usize,
    pub location: Location,
}

impl BotMoveCommand {
    pub fn new(bot: usize, location: Location) -> (r: Self)
        ensures
            r == (BotMoveCommand { bot, location }),
    {
        Self { bot, location }
    }
}

/// Admission: the target must be adjacent to the entity's current cell,
/// and the entity is locked.
pub open spec fn move_init_step(w: WorldModel, c: BotMoveCommand) -> (WorldModel, Result<
    (),
    Error,
>) {
    let m = w.objs[c.bot as int];
    if !adjacent(c.location, m.location) {
        (w, Err(Error::TooFar))
    } else {
        let (m2, r) = obj_lock(m);
        (WorldModel { objs: w.objs.update(c.bot as int, m2), occ: w.occ }, r)
    }
}

/// Apply: fails if the target cell is occupied, or if the occupancy ledger
/// holds no unit for the source cell; otherwise moves one unit of
/// occupancy and updates the entity's location. The entity is released on
/// every path.
pub open spec fn move_consume_step(w: WorldModel, c: BotMoveCommand) -> (WorldModel, Result<
    bool,
    Error,
>) {
    let m = w.objs[c.bot as int];
    if w.occ[c.location] > 0 {
        (
            WorldModel {
                objs: w.objs.update(c.bot as int, ObjectModel { locked: false, ..m }),
                occ: w.occ,
            },
            Err(Error::TargetOccupied),
        )
    } else if w.occ[m.location] == 0 {
        (
            WorldModel {
                objs: w.objs.update(c.bot as int, ObjectModel { locked: false, ..m }),
                occ: w.occ,
            },
            Err(Error::InsufficientQuantity(0)),
        )
    } else {
        (
            WorldModel {
                objs: w.objs.update(
                    c.bot as int,
                    ObjectModel { location: c.location, locked: false, ..m },
                ),
                occ: move_occ(w.occ, m.location, c.location),
            },
            Ok(false),
        )
    }
}

/// The display projection of a move command.
pub open spec fn move_render_spec(c: BotMoveCommand, w: WorldModel) -> Seq<char> {
    "{ \"type\": \"move\", \"bot\": \""@ + w.objs[c.bot as int].id + "\", \"location\": "@
        + location_render_spec(c.location) + " }"@
}

impl Command for BotMoveCommand {
    open spec fn valid(&self, w: WorldModel) -> bool {
        self.bot < w.objs.len()
    }

    open spec fn init_ens(
        &self,
        pre: WorldModel,
        post: WorldModel,
        post_self: Self,
        r: Result<(), Error>,
    ) -> bool {
        post_self == *self && (post, r) == move_init_step(pre, *self)
    }

    open spec fn consume_ens(
        &self,
        pre: WorldModel,
        post: WorldModel,
        post_self: Self,
        r: Result<bool, Error>,
    ) -> bool {
        post_self == *self && (post, r) == move_consume_step(pre, *self)
    }

    open spec fn render_spec(&self, w: WorldModel) -> Seq<char> {
        move_render_spec(*self, w)
    }

    fn initialize(&mut self, world: &mut World) -> (r: Result<(), Error>) {
        let target = self.location;
        let bot_loc = {
            let o = &world.items[self.bot];
            *o.location()
        };
        proof {
            assert(old(world).model().objs[self.bot as int] == old(world).items@[self.bot as int].model());
        }
        if !target.nearby(bot_loc) {
            return Err(Error::TooFar);
        }
        let r = {
            let o = &mut world.items[self.bot];
            o.lock()
        };
        proof {
            let pre = old(world).model();
            let step = move_init_step(pre, *self);
            assert(final(world).model().objs =~= step.0.objs);
            assert(final(world).model().occ =~= step.0.occ);
        }
        r
    }

    fn consume(&mut self, world: &mut World) -> (r: Result<bool, Error>) {
        let target = self.location;
        proof {
            assert(old(world).model().objs[self.bot as int] == old(world).items@[self.bot as int].model());
        }
        if world.check_location(target) > 0 {
            let _ = {
                let o = &mut world.items[self.bot];
                o.unlock()
            };
            proof {
                let step = move_consume_step(old(world).model(), *self);
                assert(final(world).model().objs =~= step.0.objs);
                assert(final(world).model().occ =~= step.0.occ);
            }
            return Err(Error::TargetOccupied);
        }
        match world.notify_will_move(self.bot, target) {
            Err(e) => {
                let _ = {
                    let o = &mut world.items[self.bot];
                    o.unlock()
                };
                proof {
                    let step = move_consume_step(old(world).model(), *self);
                    assert(final(world).model().objs =~= step.0.objs);
                    assert(final(world).model().occ =~= step.0.occ);
                }
                Err(e)
            },
            Ok(_) => {
                {
                    let o = &mut world.items[self.bot];
                    let loc = o.get_location();
                    *loc = target;
                }
                let _ = {
                    let o = &mut world.items[self.bot];
                    o.unlock()
                };
                proof {
                    let step = move_consume_step(old(world).model(), *self);
                    assert(final(world).model().objs =~= step.0.objs);
                    assert(final(world).model().occ =~= step.0.occ);
                }
                Ok(false)
            },
        }
    }

    fn render(&self, world: &World) -> (r: Result<String, Error>) {
        let mut s = String::new();
        s.append("{ \"type\": \"move\", \"bot\": \"");
        {
            let o = &world.items[self.bot];
            s.append(o.id());
        }
        s.append("\", \"location\": ");
        let lo = self.location.render();
        s.append(lo.as_str());
        s.append(" }");
        proof {
            assert(world.model().objs[self.bot as int] == world.items@[self.bot as int].model());
            assert(s@ =~= move_render_spec(*self, world.model()));
        }
        Ok(s)
    }
}

} // verus!
