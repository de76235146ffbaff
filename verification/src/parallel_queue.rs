use vstd::prelude::*;
use vstd::string::StringExecFns;

use crate::command::{
    any_consume_step, any_render_spec, any_valid, shape_preserved, AnyCommand, Command,
};
use crate::command_queue::CommandQueue;
use crate::error::Error;
use crate::world::{World, WorldModel};

verus! {

/// What one tick's batch leaves behind: the world after the batch, every
/// command with the self-updates of the steps that ran, the commands
/// still pending, and the overall result.
pub ghost struct BatchOutcome {
    pub world: WorldModel,
    /// Every command of the batch, in order, as the run left it.
    pub cmds: Seq<AnyCommand>,
    /// On success, the commands whose `consume` asked to run again; on a
    /// mid-batch error, every command (nothing is dropped or rolled back).
    pub pending: Seq<AnyCommand>,
    pub result: Result<(), Error>,
}

/// The commands of `pairs` whose flag is set, in order.
pub open spec fn retained(pairs: Seq<(AnyCommand, bool)>) -> Seq<AnyCommand>
    decreases pairs.len(),
{
    if pairs.len() == 0 {
        Seq::empty()
    } else {
        retained(pairs.drop_last()) + if pairs.last().1 {
            seq![pairs.last().0]
        } else {
            Seq::empty()
        }
    }
}

pub open spec fn pairs_cmds(pairs: Seq<(AnyCommand, bool)>) -> Seq<AnyCommand> {
    pairs.map_values(|p: (AnyCommand, bool)| p.0)
}

/// Runs the rest of a batch in submission order, `done` holding the
/// commands already applied and whether each asked to run again. The
/// first error aborts the batch: effects already applied stay applied,
/// and every command stays pending.
pub open spec fn run_batch_from(
    w: WorldModel,
    done: Seq<(AnyCommand, bool)>,
    rest: Seq<AnyCommand>,
) -> BatchOutcome
    decreases rest.len(),
{
    if rest.len() == 0 {
        BatchOutcome { world: w, cmds: pairs_cmds(done), pending: retained(done), result: Ok(()) }
    } else {
        let (w2, c2, r) = any_consume_step(w, rest[0]);
        match r {
            Ok(next) => run_batch_from(w2, done.push((c2, next)), rest.drop_first()),
            Err(e) => BatchOutcome {
                world: w2,
                cmds: pairs_cmds(done) + seq![c2] + rest.drop_first(),
                pending: pairs_cmds(done) + seq![c2] + rest.drop_first(),
                result: Err(e),
            },
        }
    }
}

/// Runs a whole batch in submission order.
pub open spec fn run_batch(w: WorldModel, cmds: Seq<AnyCommand>) -> BatchOutcome {
    run_batch_from(w, Seq::empty(), cmds)
}

/// Validity only depends on the world's shape, which no command changes.
pub proof fn lemma_any_valid_shape(c: AnyCommand, a: WorldModel, b: WorldModel)
    requires
        shape_preserved(a, b),
        any_valid(c, a),
    ensures
        any_valid(c, b),
{
    match c {
        AnyCommand::Pick(pc) => {
            assert(b.objs[pc.site as int].is_site == a.objs[pc.site as int].is_site);
        },
        _ => {},
    }
}

/// Shape preservation composes across the steps of a batch.
pub proof fn lemma_shape_trans(a: WorldModel, b: WorldModel, c: WorldModel)
    requires
        shape_preserved(a, b),
        shape_preserved(b, c),
    ensures
        shape_preserved(a, c),
{
    assert forall|i: int|
        0 <= i < a.objs.len() implies (#[trigger] c.objs[i]).is_site == a.objs[i].is_site
            && c.objs[i].id == a.objs[i].id by {
        assert(b.objs[i].is_site == a.objs[i].is_site && b.objs[i].id == a.objs[i].id);
    }
}

/// The display projections of the commands, joined by ", ".
pub open spec fn cmds_render_spec(cmds: Seq<AnyCommand>, w: WorldModel) -> Seq<char>
    decreases cmds.len(),
{
    if cmds.len() == 0 {
        Seq::empty()
    } else if cmds.len() == 1 {
        any_render_spec(cmds[0], w)
    } else {
        cmds_render_spec(cmds.drop_last(), w) + ", "@ + any_render_spec(cmds.last(), w)
    }
}

/// The batching strategy of one tick: every admitted command is applied,
/// in submission order, when the queue itself is consumed. "Parallel"
/// names the batching policy, not hardware concurrency; execution is
/// single-threaded and deterministic, and submission order resolves
/// contention.
pub struct ParallelCommandQueue {
    pub queue: Vec<AnyCommand>,
}

impl ParallelCommandQueue {
    pub fn new() -> (r: Self)
        ensures
            r.queue@ =~= Seq::<AnyCommand>::empty(),
    {
        Self { queue: Vec::new() }
    }
}

impl Command for ParallelCommandQueue {
    /// Every pending command is structurally valid for the world.
    open spec fn valid(&self, w: WorldModel) -> bool {
        forall|i: int| 0 <= i < self.queue@.len() ==> any_valid(#[trigger] self.queue@[i], w)
    }

    open spec fn init_ens(
        &self,
        pre: WorldModel,
        post: WorldModel,
        post_self: Self,
        r: Result<(), Error>,
    ) -> bool {
        post == pre && post_self == *self && r == Ok::<(), Error>(())
    }

    /// Consuming the queue runs the batch interpreter: the world, the
    /// retained commands and the result are exactly its outcome, and the
    /// returned flag says whether any command is still pending.
    open spec fn consume_ens(
        &self,
        pre: WorldModel,
        post: WorldModel,
        post_self: Self,
        r: Result<bool, Error>,
    ) -> bool {
        let out = run_batch(pre, self.queue@);
        &&& post == out.world
        &&& post_self.queue@ == out.pending
        &&& match out.result {
            Ok(_) => r == Ok::<bool, Error>(out.pending.len() > 0),
            Err(e) => r == Err::<bool, Error>(e),
        }
    }

    open spec fn render_spec(&self, w: WorldModel) -> Seq<char> {
        "{ \"type\": \"parallel_queue\", \"commands\": ["@ + cmds_render_spec(self.queue@, w)
            + "] }"@
    }

    fn initialize(&mut self, world: &mut World) -> (r: Result<(), Error>) {
        Ok(())
    }

    #[verifier::loop_isolation(false)]
    fn consume(&mut self, world: &mut World) -> (r: Result<bool, Error>) {
        let ghost w0 = old(world).model();
        let ghost q0 = old(self).queue@;
        let mut flags: Vec<bool> = Vec::new();
        let mut i: usize = 0;
        proof {
            assert(Seq::new(0nat, |j: int| (self.queue@[j], flags@[j])) =~= Seq::<(
                AnyCommand,
                bool,
            )>::empty());
            assert(q0.skip(0) =~= q0);
        }
        while i < self.queue.len()
            invariant
                world.wf(),
                i <= self.queue@.len(),
                self.queue@.len() == q0.len(),
                flags@.len() == i,
                forall|j: int| i <= j < q0.len() ==> self.queue@[j] == q0[j],
                forall|j: int|
                    0 <= j < q0.len() ==> any_valid(#[trigger] self.queue@[j], world.model()),
                shape_preserved(w0, world.model()),
                run_batch(w0, q0) == run_batch_from(
                    world.model(),
                    Seq::new(i as nat, |j: int| (self.queue@[j], flags@[j])),
                    q0.skip(i as int),
                ),
            decreases self.queue@.len() - i,
        {
            let ghost w_pre = world.model();
            let ghost q_pre = self.queue@;
            let ghost flags_pre = flags@;
            proof {
                assert(q0.skip(i as int)[0] == q0[i as int]);
            }
            let c_res = {
                let c = &mut self.queue[i];
                c.consume(world)
            };
            match c_res {
                Ok(next) => {
                    flags.push(next);
                    i += 1;
                    proof {
                        let pairs_pre = Seq::new(
                            (i - 1) as nat,
                            |j: int| (q_pre[j], flags_pre[j]),
                        );
                        let pairs_now = Seq::new(i as nat, |j: int| (self.queue@[j], flags@[j]));
                        assert(pairs_now =~= pairs_pre.push((self.queue@[i - 1], next)));
                        assert(q0.skip((i - 1) as int).drop_first() =~= q0.skip(i as int));
                        assert forall|j: int|
                            0 <= j < q0.len() implies any_valid(
                            #[trigger] self.queue@[j],
                            world.model(),
                        ) by {
                            if j != i - 1 {
                                lemma_any_valid_shape(self.queue@[j], w_pre, world.model());
                            }
                        }
                        lemma_shape_trans(w0, w_pre, world.model());
                    }
                },
                Err(e) => {
                    proof {
                        let pairs_pre = Seq::new(i as nat, |j: int| (q_pre[j], flags_pre[j]));
                        let out = run_batch(w0, q0);
                        let step = any_consume_step(w_pre, q0[i as int]);
                        assert(q0.skip(i as int).len() > 0);
                        assert(out == run_batch_from(w_pre, pairs_pre, q0.skip(i as int)));
                        assert(out == BatchOutcome {
                            world: step.0,
                            cmds: pairs_cmds(pairs_pre) + seq![step.1] + q0.skip(
                                i as int,
                            ).drop_first(),
                            pending: pairs_cmds(pairs_pre) + seq![step.1] + q0.skip(
                                i as int,
                            ).drop_first(),
                            result: Err(e),
                        });
                        lemma_shape_trans(w0, w_pre, world.model());
                        assert(pairs_cmds(pairs_pre) =~= self.queue@.take(i as int));
                        assert(self.queue@ =~= pairs_cmds(pairs_pre) + seq![self.queue@[i as int]]
                            + q0.skip(i as int).drop_first());
                        assert(out.world == world.model());
                        assert(out.pending == self.queue@);
                        assert(out.result == Err::<(), Error>(e));

                        assert forall|j: int|
                            0 <= j < q0.len() implies any_valid(
                            #[trigger] self.queue@[j],
                            world.model(),
                        ) by {
                            if j != i as int {
                                lemma_any_valid_shape(self.queue@[j], w_pre, world.model());
                            }
                        }
                    }
                    return Err(e);
                },
            }
        }
        let ghost pairs = Seq::new(q0.len(), |j: int| (self.queue@[j], flags@[j]));
        let mut newq: Vec<AnyCommand> = Vec::new();
        let mut j: usize = 0;
        proof {
            assert(pairs.take(0) =~= Seq::<(AnyCommand, bool)>::empty());
        }
        while j < self.queue.len()
            invariant
                world.wf(),
                self.queue@.len() == q0.len(),
                flags@.len() == q0.len(),
                j <= q0.len(),
                pairs == Seq::new(q0.len(), |k: int| (self.queue@[k], flags@[k])),
                newq@ == retained(pairs.take(j as int)),
                forall|k: int|
                    0 <= k < q0.len() ==> any_valid(#[trigger] self.queue@[k], world.model()),
                forall|k: int| 0 <= k < newq@.len() ==> any_valid(#[trigger] newq@[k], world.model()),
            decreases q0.len() - j,
        {
            if flags[j] {
                newq.push(self.queue[j]);
            }
            j += 1;
            proof {
                assert(pairs.take(j as int).drop_last() =~= pairs.take(j - 1));
                assert(pairs.take(j as int).last() == (self.queue@[j - 1], flags@[j - 1]));
                if flags@[j - 1] {
                    assert(newq@ =~= retained(pairs.take(j - 1)) + seq![self.queue@[j - 1]]);
                } else {
                    assert(newq@ =~= retained(pairs.take(j - 1)));
                }
            }
        }
        proof {
            assert(pairs.take(q0.len() as int) =~= pairs);
        }
        self.queue = newq;
        Ok(self.queue.len() > 0)
    }

    fn render(&self, world: &World) -> (r: Result<String, Error>) {
        let mut s = String::new();
        s.append("{ \"type\": \"parallel_queue\", \"commands\": [");
        let mut i: usize = 0;
        while i < self.queue.len()
            invariant
                self.valid(world.model()),
                i <= self.queue@.len(),
                s@ == "{ \"type\": \"parallel_queue\", \"commands\": ["@ + cmds_render_spec(
                    self.queue@.take(i as int),
                    world.model(),
                ),
            decreases self.queue@.len() - i,
        {
            if i > 0 {
                s.append(", ");
            }
            let part = match self.queue[i].render(world) {
                Ok(p) => p,
                Err(e) => {
                    return Err(e);
                },
            };
            s.append(part.as_str());
            proof {
                let t = self.queue@.take(i + 1);
                assert(t.drop_last() =~= self.queue@.take(i as int));
                assert(t.last() == self.queue@[i as int]);
                assert(s@ =~= "{ \"type\": \"parallel_queue\", \"commands\": ["@
                    + cmds_render_spec(t, world.model()));
            }
            i += 1;
        }
        proof {
            assert(self.queue@.take(self.queue@.len() as int) =~= self.queue@);
        }
        s.append("] }");
        proof {
            assert(s@ =~= self.render_spec(world.model()));
        }
        Ok(s)
    }
}

impl CommandQueue for ParallelCommandQueue {
    open spec fn pending(&self) -> Seq<AnyCommand> {
        self.queue@
    }

    fn schedule(&mut self, command: AnyCommand, world: &mut World) -> (r: Result<(), Error>) {
        let ghost w_pre = world.model();
        let mut command = command;
        let res = command.initialize(world);
        match res {
            Ok(_) => {
                self.queue.push(command);
                proof {
                    assert forall|i: int|
                        0 <= i < self.queue@.len() implies any_valid(
                        #[trigger] self.queue@[i],
                        world.model(),
                    ) by {
                        if i < self.queue@.len() - 1 {
                            assert(self.queue@[i] == old(self).queue@[i]);
                            lemma_any_valid_shape(self.queue@[i], w_pre, world.model());
                        }
                    }
                }
                Ok(())
            },
            Err(e) => {
                proof {
                    assert forall|i: int|
                        0 <= i < self.queue@.len() implies any_valid(
                        #[trigger] self.queue@[i],
                        world.model(),
                    ) by {
                        lemma_any_valid_shape(self.queue@[i], w_pre, world.model());
                    }
                }
                Err(e)
            },
        }
    }

    fn commands(&self) -> (r: &Vec<AnyCommand>) {
        &self.queue
    }
}

} // verus!
