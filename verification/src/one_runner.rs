use vstd::prelude::*;

use crate::command::{any_init_step, AnyCommand, Command};
use crate::command_queue::CommandQueue;
use crate::error::Error;
use crate::location::Location;
use crate::move_command::BotMoveCommand;
use crate::object::Object;
use crate::one_bot::one_bot;
use crate::parallel_queue::{cmds_render_spec, run_batch, ParallelCommandQueue};
use crate::world::{World, WorldModel};

verus! {

/// The move command one tick of the demonstration runner submits: the
/// world's one robot, one cell upward.
pub open spec fn task_cmd(w: WorldModel, bot: usize) -> AnyCommand {
    let loc = w.objs[bot as int].location;
    AnyCommand::Move(
        BotMoveCommand { bot, location: Location { z: (loc.z + 1) as u32, ..loc } },
    )
}

/// Drives the single-robot floor one batch per tick: each tick schedules
/// one upward move for the robot, renders the queue, and applies the
/// batch.
pub struct OneRunner {
    pub world: World,
    pub bots: Vec<usize>,
    pub shelves: Vec<usize>,
    pub sites: Vec<usize>,
    pub scheduler: ParallelCommandQueue,
}

impl OneRunner {
    /// The world is well-formed, the one robot index is in range, and
    /// every pending command is valid for the world.
    pub open spec fn wf(&self) -> bool {
        &&& self.world.wf()
        &&& self.bots@.len() == 1
        &&& self.bots@[0] < self.world.model().objs.len()
        &&& self.scheduler.valid(self.world.model())
    }

    pub fn new() -> (r: Self)
        ensures
            r.wf(),
            r.scheduler.queue@ =~= Seq::<AnyCommand>::empty(),
    {
        let data = one_bot();
        Self {
            world: data.0,
            bots: data.1,
            shelves: data.2,
            sites: data.3,
            scheduler: ParallelCommandQueue::new(),
        }
    }

    /// Schedules one upward move for the robot. When the robot already
    /// stands on the grid's highest layer, the cell above does not exist
    /// and the task reports `TooFar` without scheduling anything.
    pub fn task(&mut self) -> (r: Result<(), Error>)
        requires
            old(self).wf(),
        ensures
            final(self).wf(),
            final(self).bots@ == old(self).bots@,
            ({
                let w0 = old(self).world.model();
                let q0 = old(self).scheduler.queue@;
                let bot = old(self).bots@[0];
                if w0.objs[bot as int].location.z >= u32::MAX {
                    r == Err::<(), Error>(Error::TooFar) && final(self).world.model() == w0
                        && final(self).scheduler.queue@ == q0
                } else {
                    let (w2, c2, r2) = any_init_step(w0, task_cmd(w0, bot));
                    final(self).world.model() == w2 && r == r2 && final(self).scheduler.queue@
                        == if r2 is Ok {
                        q0.push(c2)
                    } else {
                        q0
                    }
                }
            }),
    {
        let bot = self.bots[0];
        let loc = {
            let o = &self.world.items[bot];
            *o.location()
        };
        proof {
            assert(old(self).world.model().objs[bot as int] == old(
                self,
            ).world.items@[bot as int].model());
        }
        if loc.z == u32::MAX {
            return Err(Error::TooFar);
        }
        let target = loc.up();
        let cmd = AnyCommand::Move(BotMoveCommand::new(bot, target));
        self.scheduler.schedule(cmd, &mut self.world)
    }

    /// One tick: admit this tick's task, render the pending batch, then
    /// apply it. The rendered snapshot of the batch as admitted is
    /// returned; a failed admission or a mid-batch failure is propagated.
    pub fn tick(&mut self) -> (r: Result<String, Error>)
        requires
            old(self).wf(),
        ensures
            final(self).wf(),
            final(self).bots@ == old(self).bots@,
            ({
                let w0 = old(self).world.model();
                let q0 = old(self).scheduler.queue@;
                let bot = old(self).bots@[0];
                if w0.objs[bot as int].location.z >= u32::MAX {
                    r == Err::<String, Error>(Error::TooFar)
                } else {
                    let (w1, c2, r1) = any_init_step(w0, task_cmd(w0, bot));
                    match r1 {
                        Err(e) => r == Err::<String, Error>(e),
                        Ok(_) => {
                            let q1 = q0.push(c2);
                            let out = run_batch(w1, q1);
                            &&& final(self).world.model() == out.world
                            &&& final(self).scheduler.queue@ == out.pending
                            &&& match out.result {
                                Err(e) => r == Err::<String, Error>(e),
                                Ok(_) => r matches Ok(s) && s@
                                    == "{ \"type\": \"parallel_queue\", \"commands\": ["@
                                    + cmds_render_spec(q1, w1) + "] }"@,
                            }
                        },
                    }
                }
            }),
    {
        match self.task() {
            Err(e) => {
                return Err(e);
            },
            Ok(_) => {},
        }
        let data = match self.scheduler.render(&self.world) {
            Ok(d) => d,
            Err(e) => {
                return Err(e);
            },
        };
        match self.scheduler.consume(&mut self.world) {
            Ok(_) => Ok(data),
            Err(e) => Err(e),
        }
    }
}

} // verus!
