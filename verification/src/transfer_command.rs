use vstd::prelude::*;
use vstd::string::StringExecFns;

use crate::command::Command;
use crate::error::Error;
use crate::location::adjacent;
use crate::object::{Object, ObjectModel};
use crate::world::{World, WorldModel};

verus! {

/// An exclusive full-ledger swap between two entities. Admission demands
/// an empty destination ledger and adjacency, and locks both entities in
/// a fixed order — source first — releasing the source again if the
/// destination cannot be locked.
#[derive(Clone, Copy, Debug)]
pub struct TransferCommand {
    pub from: usize,
    pub to: usize,
}

/// Builds a transfer whose source is a robot.
pub struct BotTransferToCommand {}

impl BotTransferToCommand {
    pub fn new(from: usize, to: usize) -> (r: TransferCommand)
        ensures
            r == (TransferCommand { from, to }),
    {
        TransferCommand { from, to }
    }
}

/// Builds a transfer whose destination is a robot.
pub struct BotTransferFromCommand {}

impl BotTransferFromCommand {
    pub fn new(from: usize, to: usize) -> (r: TransferCommand)
        ensures
            r == (TransferCommand { from, to }),
    {
        TransferCommand { from, to }
    }
}

/// Admission: the destination ledger must be empty, the two entities
/// adjacent, and both get locked (source first; on a destination lock
/// failure the source lock is released again and nothing changes).
pub open spec fn transfer_init_step(w: WorldModel, c: TransferCommand) -> (WorldModel, Result<
    (),
    Error,
>) {
    let mf = w.objs[c.from as int];
    let mt = w.objs[c.to as int];
    if mt.storage.len() > 0 {
        (w, Err(Error::TargetNotEmpty))
    } else if !adjacent(mt.location, mf.location) {
        (w, Err(Error::TooFar))
    } else if mf.locked {
        (w, Err(Error::AlreadyLocked))
    } else if mt.locked {
        (w, Err(Error::AlreadyLocked))
    } else {
        (
            WorldModel {
                objs: w.objs.update(c.from as int, ObjectModel { locked: true, ..mf }).update(
                    c.to as int,
                    ObjectModel { locked: true, ..mt },
                ),
                occ: w.occ,
            },
            Ok(()),
        )
    }
}

/// Apply: the two ledgers are swapped wholesale and both entities are
/// released.
pub open spec fn transfer_consume_step(w: WorldModel, c: TransferCommand) -> (WorldModel, Result<
    bool,
    Error,
>) {
    let mf = w.objs[c.from as int];
    let mt = w.objs[c.to as int];
    (
        WorldModel {
            objs: w.objs.update(
                c.from as int,
                ObjectModel { storage: mt.storage, locked: false, ..mf },
            ).update(c.to as int, ObjectModel { storage: mf.storage, locked: false, ..mt }),
            occ: w.occ,
        },
        Ok(false),
    )
}

/// The display projection of a transfer command.
pub open spec fn transfer_render_spec(c: TransferCommand, w: WorldModel) -> Seq<char> {
    "{ type: \"transfer\", from: \""@ + w.objs[c.from as int].id + "\", to: \""@
        + w.objs[c.to as int].id + "\" }"@
}

impl Command for TransferCommand {
    open spec fn valid(&self, w: WorldModel) -> bool {
        self.from < w.objs.len() && self.to < w.objs.len() && self.from != self.to
    }

    open spec fn init_ens(
        &self,
        pre: WorldModel,
        post: WorldModel,
        post_self: Self,
        r: Result<(), Error>,
    ) -> bool {
        post_self == *self && (post, r) == transfer_init_step(pre, *self)
    }

    open spec fn consume_ens(
        &self,
        pre: WorldModel,
        post: WorldModel,
        post_self: Self,
        r: Result<bool, Error>,
    ) -> bool {
        post_self == *self && (post, r) == transfer_consume_step(pre, *self)
    }

    open spec fn render_spec(&self, w: WorldModel) -> Seq<char> {
        transfer_render_spec(*self, w)
    }

    fn initialize(&mut self, world: &mut World) -> (r: Result<(), Error>) {
        proof {
            assert(old(world).model().objs[self.from as int] == old(world).items@[self.from as int].model());
            assert(old(world).model().objs[self.to as int] == old(world).items@[self.to as int].model());
        }
        let to_nonempty = {
            let o = &world.items[self.to];
            o.storage().items.len() > 0
        };
        if to_nonempty {
            return Err(Error::TargetNotEmpty);
        }
        let from_loc = {
            let o = &world.items[self.from];
            *o.location()
        };
        let to_loc = {
            let o = &world.items[self.to];
            *o.location()
        };
        if !to_loc.nearby(from_loc) {
            return Err(Error::TooFar);
        }
        let r1 = {
            let o = &mut world.items[self.from];
            o.lock()
        };
        match r1 {
            Err(e) => {
                proof {
                    let step = transfer_init_step(old(world).model(), *self);
                    assert(final(world).model().objs =~= step.0.objs);
                    assert(final(world).model().occ =~= step.0.occ);
                }
                Err(e)
            },
            Ok(_) => {
                let r2 = {
                    let o = &mut world.items[self.to];
                    o.lock()
                };
                match r2 {
                    Err(e) => {
                        let _ = {
                            let o = &mut world.items[self.from];
                            o.unlock()
                        };
                        proof {
                            let step = transfer_init_step(old(world).model(), *self);
                            assert(final(world).model().objs =~= step.0.objs);
                            assert(final(world).model().occ =~= step.0.occ);
                        }
                        Err(e)
                    },
                    Ok(_) => {
                        proof {
                            let step = transfer_init_step(old(world).model(), *self);
                            assert(final(world).model().objs =~= step.0.objs);
                            assert(final(world).model().occ =~= step.0.occ);
                        }
                        Ok(())
                    },
                }
            },
        }
    }

    fn consume(&mut self, world: &mut World) -> (r: Result<bool, Error>) {
        proof {
            assert(old(world).model().objs[self.from as int] == old(world).items@[self.from as int].model());
            assert(old(world).model().objs[self.to as int] == old(world).items@[self.to as int].model());
        }
        world.swap_storages(self.from, self.to);
        let ghost w1 = world.model();
        proof {
            assert(w1.objs[self.from as int] == world.items@[self.from as int].model());
        }
        let _ = {
            let o = &mut world.items[self.from];
            o.unlock()
        };
        let ghost w2 = world.model();
        proof {
            assert(w2.objs =~= w1.objs.update(
                self.from as int,
                ObjectModel { locked: false, ..w1.objs[self.from as int] },
            ));
        }
        proof {
            assert(w2.objs[self.to as int] == world.items@[self.to as int].model());
        }
        let _ = {
            let o = &mut world.items[self.to];
            o.unlock()
        };
        proof {
            let pre = old(world).model();
            let step = transfer_consume_step(pre, *self);
            let fin = final(world).model();
            assert(fin.objs =~= w2.objs.update(
                self.to as int,
                ObjectModel { locked: false, ..w2.objs[self.to as int] },
            ));
            assert forall|i: int| 0 <= i < fin.objs.len() implies fin.objs[i] == step.0.objs[i] by {
                if i == self.from as int {
                    assert(fin.objs[i] == ObjectModel {
                        locked: false,
                        ..w1.objs[self.from as int]
                    });
                } else if i == self.to as int {
                    assert(fin.objs[i] == ObjectModel { locked: false, ..w2.objs[self.to as int] });
                }
            }
            assert(fin.objs =~= step.0.objs);
            assert(fin.occ =~= step.0.occ);
        }
        Ok(false)
    }

    fn render(&self, world: &World) -> (r: Result<String, Error>) {
        let mut s = String::new();
        s.append("{ type: \"transfer\", from: \"");
        {
            let o = &world.items[self.from];
            s.append(o.id());
        }
        s.append("\", to: \"");
        {
            let o = &world.items[self.to];
            s.append(o.id());
        }
        s.append("\" }");
        proof {
            assert(world.model().objs[self.from as int] == world.items@[self.from as int].model());
            assert(world.model().objs[self.to as int] == world.items@[self.to as int].model());
            assert(s@ =~= transfer_render_spec(*self, world.model()));
        }
        Ok(s)
    }
}

} // verus!
