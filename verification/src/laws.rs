use vstd::prelude::*;

use crate::command::{any_consume_step, AnyCommand};
use crate::error::Error;
use crate::location::{adjacent, Location};
use crate::move_command::{move_consume_step, BotMoveCommand};
use crate::object::{obj_lock, obj_unlock, obj_wf, ObjectModel};
use crate::parallel_queue::{retained, run_batch, run_batch_from};
use crate::pick_command::{pick_consume_step, pick_init_step, PickCommand};
use crate::storage::{
    add_to, counts_positive, has_key, have_of, keys_unique, lemma_add_to_have,
    lemma_take_from_have, take_from, Item,
};
use crate::test_command::{test_consume_step, TestCommand, TestNextCommand};
use crate::transfer_command::{transfer_consume_step, transfer_init_step, TransferCommand};
use crate::world::{count_at, move_occ, WorldModel};

verus! {

/// The lock protocol is a non-reentrant advisory mutex: from an unlocked
/// entity, `lock` succeeds, a second `lock` fails with `AlreadyLocked`
/// and changes nothing, and an `unlock` without a prior successful `lock`
/// fails with `AlreadyUnlocked` and changes nothing.
pub proof fn lemma_lock_protocol(m: ObjectModel)
    requires
        !m.locked,
    ensures
        ({
            let (m1, r1) = obj_lock(m);
            let (m2, r2) = obj_lock(m1);
            r1 == Ok::<(), Error>(()) && r2 == Err::<(), Error>(Error::AlreadyLocked) && m2 == m1
        }),
        ({
            let (m3, r3) = obj_unlock(m);
            r3 == Err::<(), Error>(Error::AlreadyUnlocked) && m3 == m
        }),
{
}

/// Adding one item kind twice accumulates: from a ledger holding none of
/// `k`, `add(k, n1)` then `add(k, n2)` yields `have(k) == n1 + n2`.
pub proof fn lemma_add_accumulates(s: Seq<(Item, u32)>, k: Item, n1: u32, n2: u32)
    requires
        keys_unique(s),
        counts_positive(s),
        have_of(s, k) == 0,
        n1 + n2 <= u32::MAX,
    ensures
        have_of(add_to(add_to(s, k, n1), k, n2), k) == n1 + n2,
{
    lemma_add_to_have(s, k, n1);
    lemma_add_to_have(add_to(s, k, n1), k, n2);
}

/// Taking everything a ledger holds of `k` leaves `have(k) == 0` and no
/// entry for `k` at all. (That a short `take` fails and mutates nothing
/// is stated directly by `Storage::take`.)
pub proof fn lemma_take_all(s: Seq<(Item, u32)>, k: Item)
    requires
        keys_unique(s),
        counts_positive(s),
    ensures
        have_of(take_from(s, k, have_of(s, k)), k) == 0,
        !has_key(take_from(s, k, have_of(s, k)), k),
{
    lemma_take_from_have(s, k, have_of(s, k));
}

/// After a successful move apply, the entity stands at the target cell
/// and is unlocked.
pub proof fn lemma_move_success(w: WorldModel, c: BotMoveCommand)
    requires
        c.bot < w.objs.len(),
    ensures
        ({
            let (w2, r) = move_consume_step(w, c);
            r == Ok::<bool, Error>(false) ==> w2.objs[c.bot as int].location == c.location
                && !w2.objs[c.bot as int].locked
        }),
{
}

/// Registering three entities that stand on the same cell counts 3 for
/// that cell.
pub proof fn lemma_register_three(objs: Seq<ObjectModel>, l: Location)
    requires
        objs.len() == 3,
        objs[0].location == l,
        objs[1].location == l,
        objs[2].location == l,
    ensures
        count_at(objs, l) == 3,
{
    let t1 = objs.drop_first();
    let t2 = t1.drop_first();
    let t3 = t2.drop_first();
    assert(t1[0] == objs[1]);
    assert(t2[0] == objs[2]);
    assert(t3.len() == 0);
    assert(count_at(t3, l) == 0);
    assert(count_at(t2, l) == 1);
    assert(count_at(t1, l) == 2);
}

/// An accepted move shifts exactly one unit of occupancy: the source
/// cell's count drops by one, the target cell's count rises by one, and
/// every other cell keeps its count.
pub proof fn lemma_move_occ_shift(m: Map<Location, u64>, from: Location, to: Location)
    requires
        from != to,
        m.dom().contains(from),
        m.dom().contains(to),
        m[from] > 0,
        m[to] < u64::MAX,
    ensures
        move_occ(m, from, to)[from] == m[from] - 1,
        move_occ(m, from, to)[to] == m[to] + 1,
        forall|l: Location|
            l != from && l != to && m.dom().contains(l) ==> #[trigger] move_occ(m, from, to)[l]
                == m[l],
{
}

/// Two move commands in one batch, submitted from different adjacent
/// source cells toward the same free target cell: the first-submitted
/// command succeeds and its entity stands on the target, the second
/// fails with `TargetOccupied` and its entity keeps its original
/// location. (The positive source occupancy is the world-consistency the
/// occupancy ledger maintains for a registered entity.)
pub proof fn lemma_move_race(w: WorldModel, c1: BotMoveCommand, c2: BotMoveCommand)
    requires
        c1.bot < w.objs.len(),
        c2.bot < w.objs.len(),
        c1.bot != c2.bot,
        c1.location == c2.location,
        w.occ[c1.location] == 0,
        w.objs[c1.bot as int].location != w.objs[c2.bot as int].location,
        w.objs[c1.bot as int].location != c1.location,
        w.objs[c2.bot as int].location != c2.location,
        adjacent(c1.location, w.objs[c1.bot as int].location),
        adjacent(c2.location, w.objs[c2.bot as int].location),
        w.occ[w.objs[c1.bot as int].location] > 0,
    ensures
        ({
            let out = run_batch(w, seq![AnyCommand::Move(c1), AnyCommand::Move(c2)]);
            &&& out.result == Err::<(), Error>(Error::TargetOccupied)
            &&& out.world.objs[c1.bot as int].location == c1.location
            &&& out.world.objs[c2.bot as int].location == w.objs[c2.bot as int].location
        }),
{
    let cmds = seq![AnyCommand::Move(c1), AnyCommand::Move(c2)];
    let step1 = any_consume_step(w, cmds[0]);
    let w1 = step1.0;
    assert(step1.2 == Ok::<bool, Error>(false));
    assert(w1.occ[c1.location] == 1) by {
        let src1 = w.objs[c1.bot as int].location;
        let m1 = w.occ.insert(src1, (w.occ[src1] - 1) as u64);
        assert(m1[c1.location] == 0);
    }
    let done1 = Seq::<(AnyCommand, bool)>::empty().push((cmds[0], false));
    assert(run_batch(w, cmds) == run_batch_from(w1, done1, cmds.drop_first()));
    assert(cmds.drop_first()[0] == cmds[1]);
    let step2 = any_consume_step(w1, cmds[1]);
    assert(step2.2 == Err::<bool, Error>(Error::TargetOccupied));
    let out = run_batch(w, cmds);
    assert(out.world == step2.0);
    assert(out.result == Err::<(), Error>(Error::TargetOccupied));
    assert(out.world.objs[c1.bot as int].location == c1.location);
    assert(out.world.objs[c2.bot as int].location == w.objs[c2.bot as int].location);
}

/// A transfer into an empty, adjacent, unlocked entity is admitted and,
/// when applied, swaps the ledgers wholesale: the destination ends with
/// exactly what the source held — no loss, no duplication — and the
/// source ends empty.
pub proof fn lemma_transfer_full_swap(w: WorldModel, c: TransferCommand)
    requires
        c.from < w.objs.len(),
        c.to < w.objs.len(),
        c.from != c.to,
        w.objs[c.to as int].storage.len() == 0,
        adjacent(w.objs[c.to as int].location, w.objs[c.from as int].location),
        !w.objs[c.from as int].locked,
        !w.objs[c.to as int].locked,
    ensures
        ({
            let (w1, r1) = transfer_init_step(w, c);
            let (w2, r2) = transfer_consume_step(w1, c);
            &&& r1 == Ok::<(), Error>(())
            &&& r2 == Ok::<bool, Error>(false)
            &&& w2.objs[c.to as int].storage == w.objs[c.from as int].storage
            &&& w2.objs[c.from as int].storage.len() == 0
        }),
{
}

/// A pick of `n` units of `k` followed by a put of the same units runs
/// through both two-phase lifecycles and restores the site's primary
/// ledger quantity of `k`; the staging ledger, which held none of `k`
/// before the pick, holds none of it after the put.
pub proof fn lemma_pick_put_round_trip(w: WorldModel, site: usize, k: Item, n: u32)
    requires
        site < w.objs.len(),
        obj_wf(w.objs[site as int]),
        !w.objs[site as int].locked,
        have_of(w.objs[site as int].storage, k) >= n,
        have_of(w.objs[site as int].pick_storage, k) == 0,
    ensures
        ({
            let c_pick = PickCommand { site, item: (k, n), reverse: false };
            let c_put = PickCommand { site, item: (k, n), reverse: true };
            let (w1, r1) = pick_init_step(w, c_pick);
            let (w2, r2) = pick_consume_step(w1, c_pick);
            let (w3, r3) = pick_init_step(w2, c_put);
            let (w4, r4) = pick_consume_step(w3, c_put);
            &&& r1 == Ok::<(), Error>(())
            &&& r2 == Ok::<bool, Error>(false)
            &&& r3 == Ok::<(), Error>(())
            &&& r4 == Ok::<bool, Error>(false)
            &&& have_of(w4.objs[site as int].storage, k) == have_of(
                w.objs[site as int].storage,
                k,
            )
            &&& have_of(w4.objs[site as int].pick_storage, k) == 0
        }),
{
    let m = w.objs[site as int];
    lemma_take_from_have(m.storage, k, n);
    lemma_add_to_have(m.pick_storage, k, n);
    let s2 = take_from(m.storage, k, n);
    let p2 = add_to(m.pick_storage, k, n);
    lemma_take_from_have(p2, k, n);
    lemma_add_to_have(s2, k, n);
}

/// Multi-tick retention: a batch holding one command that reports itself
/// unfinished retains it; a batch holding one one-shot command ends
/// empty.
pub proof fn lemma_retention(w: WorldModel, tc: TestCommand)
    ensures
        ({
            let out = run_batch(w, seq![AnyCommand::TestNext(TestNextCommand {})]);
            out.result == Ok::<(), Error>(()) && out.pending =~= seq![
                AnyCommand::TestNext(TestNextCommand {}),
            ]
        }),
        ({
            let out = run_batch(w, seq![AnyCommand::Test(tc)]);
            out.result == Ok::<(), Error>(()) && out.pending.len() == 0
        }),
{
    let next = AnyCommand::TestNext(TestNextCommand {});
    let cmds1 = seq![next];
    let done1 = Seq::<(AnyCommand, bool)>::empty().push((next, true));
    assert(run_batch(w, cmds1) == run_batch_from(w, done1, cmds1.drop_first()));
    assert(cmds1.drop_first().len() == 0);
    assert(retained(done1.drop_last()) + seq![next] =~= seq![next]);
    assert(run_batch(w, cmds1).pending =~= seq![next]);

    let one = AnyCommand::Test(tc);
    let cmds2 = seq![one];
    let done2 = Seq::<(AnyCommand, bool)>::empty().push(
        (AnyCommand::Test(test_consume_step(tc)), false),
    );
    assert(run_batch(w, cmds2) == run_batch_from(w, done2, cmds2.drop_first()));
    assert(cmds2.drop_first().len() == 0);
    assert(retained(done2) =~= retained(done2.drop_last()));
    assert(run_batch(w, cmds2).pending.len() == 0);
}

} // verus!
