use vstd::prelude::*;

use crate::error::Error;
use crate::location::Location;
use vstd::string::StringExecFns;

use crate::object::{obj_render_spec, obj_wf, AnyObject, Object, ObjectModel};
use crate::storage::Storage;

verus! {

/// The abstract state of the world: the entities it owns and, for every
/// cell, how many of them the occupancy ledger counts there.
pub ghost struct WorldModel {
    pub objs: Seq<ObjectModel>,
    /// Total: a cell with no ledger entry counts 0.
    pub occ: Map<Location, u64>,
}

/// The display projections of the entities, joined by ", ".
pub open spec fn objs_render_spec(objs: Seq<ObjectModel>) -> Seq<char>
    decreases objs.len(),
{
    if objs.len() == 0 {
        Seq::empty()
    } else if objs.len() == 1 {
        obj_render_spec(objs[0])
    } else {
        objs_render_spec(objs.drop_last()) + ", "@ + obj_render_spec(objs.last())
    }
}

/// The display projection of the whole world.
pub open spec fn world_render_spec(m: WorldModel) -> Seq<char> {
    "{ \"objects\": ["@ + objs_render_spec(m.objs) + "] }"@
}

/// Every entity of the model has well-formed ledgers.
pub open spec fn wm_wf(m: WorldModel) -> bool {
    forall|i: int| 0 <= i < m.objs.len() ==> obj_wf(#[trigger] m.objs[i])
}

/// The occupancy count recorded for `l`, 0 when no entry exists.
pub open spec fn occ_of(s: Seq<(Location, u64)>, l: Location) -> u64
    decreases s.len(),
{
    if s.len() == 0 {
        0
    } else if s[0].0 == l {
        s[0].1
    } else {
        occ_of(s.drop_first(), l)
    }
}

/// No two ledger entries are for the same cell.
pub open spec fn loc_keys_unique(s: Seq<(Location, u64)>) -> bool {
    forall|i: int, j: int| 0 <= i < j < s.len() ==> s[i].0 != s[j].0
}

/// How the occupancy map changes when one entity leaves `from` and
/// enters `to`: decrement, then increment, so a move within one cell is a
/// no-op.
pub open spec fn move_occ(m: Map<Location, u64>, from: Location, to: Location) -> Map<
    Location,
    u64,
> {
    let m1 = m.insert(from, (m[from] - 1) as u64);
    m1.insert(to, (m1[to] + 1) as u64)
}

/// The number of entities of `objs` located at `l`.
pub open spec fn count_at(objs: Seq<ObjectModel>, l: Location) -> int
    decreases objs.len(),
{
    if objs.len() == 0 {
        0
    } else {
        count_at(objs.drop_first(), l) + if objs[0].location == l {
            1int
        } else {
            0int
        }
    }
}

proof fn lemma_occ_first_match(s: Seq<(Location, u64)>, l: Location, i: int)
    requires
        0 <= i < s.len(),
        s[i].0 == l,
        forall|j: int| 0 <= j < i ==> s[j].0 != l,
    ensures
        occ_of(s, l) == s[i].1,
    decreases s.len(),
{
    if i == 0 {
    } else {
        assert(s.drop_first()[i - 1] == s[i]);
        assert forall|j: int| 0 <= j < i - 1 implies s.drop_first()[j].0 != l by {
            assert(s.drop_first()[j] == s[j + 1]);
        }
        lemma_occ_first_match(s.drop_first(), l, i - 1);
    }
}

proof fn lemma_occ_no_key(s: Seq<(Location, u64)>, l: Location)
    requires
        forall|j: int| 0 <= j < s.len() ==> s[j].0 != l,
    ensures
        occ_of(s, l) == 0,
    decreases s.len(),
{
    if s.len() > 0 {
        assert forall|j: int| 0 <= j < s.drop_first().len() implies s.drop_first()[j].0 != l by {
            assert(s.drop_first()[j] == s[j + 1]);
        }
        lemma_occ_no_key(s.drop_first(), l);
    }
}

proof fn lemma_occ_update(s: Seq<(Location, u64)>, i: int, p: (Location, u64))
    requires
        loc_keys_unique(s),
        0 <= i < s.len(),
        p.0 == s[i].0,
    ensures
        forall|l: Location| #[trigger] occ_of(s.update(i, p), l) == if l == p.0 {
            p.1
        } else {
            occ_of(s, l)
        },
        loc_keys_unique(s.update(i, p)),
    decreases s.len(),
{
    if i == 0 {
        assert(s.update(0, p).drop_first() =~= s.drop_first());
        assert(s.update(0, p)[0] == p);
    } else {
        assert(s.update(i, p).drop_first() =~= s.drop_first().update(i - 1, p));
        assert(s.drop_first()[i - 1] == s[i]);
        lemma_occ_update(s.drop_first(), i - 1, p);
        assert(s.update(i, p)[0] == s[0]);
        assert forall|l: Location| #[trigger] occ_of(s.update(i, p), l) == if l == p.0 {
            p.1
        } else {
            occ_of(s, l)
        } by {
            assert(occ_of(s.drop_first().update(i - 1, p), l) == if l == p.0 {
                p.1
            } else {
                occ_of(s.drop_first(), l)
            });
        }
    }
}

proof fn lemma_occ_push(s: Seq<(Location, u64)>, l: Location, c: u64)
    requires
        forall|j: int| 0 <= j < s.len() ==> s[j].0 != l,
    ensures
        forall|l2: Location| #[trigger] occ_of(s.push((l, c)), l2) == if l2 == l {
            c
        } else {
            occ_of(s, l2)
        },
        loc_keys_unique(s) ==> loc_keys_unique(s.push((l, c))),
    decreases s.len(),
{
    assert(s.push((l, c))[s.len() as int] == (l, c));
    if s.len() == 0 {
        assert forall|l2: Location| #[trigger] occ_of(s.push((l, c)), l2) == if l2 == l {
            c
        } else {
            occ_of(s, l2)
        } by {
            assert(s.push((l, c)).drop_first() =~= Seq::<(Location, u64)>::empty());
            assert(occ_of(Seq::<(Location, u64)>::empty(), l2) == 0);
        }
    } else {
        assert(s.push((l, c)).drop_first() =~= s.drop_first().push((l, c)));
        assert forall|j: int| 0 <= j < s.drop_first().len() implies s.drop_first()[j].0 != l by {
            assert(s.drop_first()[j] == s[j + 1]);
        }
        lemma_occ_push(s.drop_first(), l, c);
        assert(s.push((l, c))[0] == s[0]);
        assert forall|l2: Location| #[trigger] occ_of(s.push((l, c)), l2) == if l2 == l {
            c
        } else {
            occ_of(s, l2)
        } by {
            assert(occ_of(s.drop_first().push((l, c)), l2) == if l2 == l {
                c
            } else {
                occ_of(s.drop_first(), l2)
            });
        }
    }
}

/// The index of the ledger entry for `l`, if one exists.
fn occ_find(v: &Vec<(Location, u64)>, l: Location) -> (r: Option<usize>)
    ensures
        match r {
            Some(i) => i < v@.len() && v@[i as int].0 == l && (forall|j: int|
                0 <= j < i ==> v@[j].0 != l),
            None => forall|j: int| 0 <= j < v@.len() ==> v@[j].0 != l,
        },
{
    let mut i: usize = 0;
    while i < v.len()
        invariant
            i <= v@.len(),
            forall|j: int| 0 <= j < i ==> v@[j].0 != l,
        decreases v@.len() - i,
    {
        if v[i].0 == l {
            return Some(i);
        }
        i += 1;
    }
    None
}

/// The recorded count for `l`.
fn occ_get(v: &Vec<(Location, u64)>, l: Location) -> (r: u64)
    ensures
        r == occ_of(v@, l),
{
    match occ_find(v, l) {
        Some(i) => {
            proof {
                lemma_occ_first_match(v@, l, i as int);
            }
            v[i].1
        },
        None => {
            proof {
                lemma_occ_no_key(v@, l);
            }
            0
        },
    }
}

/// Records count `c` for `l`, updating the entry in place or appending one.
fn occ_set(v: &mut Vec<(Location, u64)>, l: Location, c: u64)
    requires
        loc_keys_unique(old(v)@),
    ensures
        loc_keys_unique(final(v)@),
        forall|l2: Location| #[trigger] occ_of(final(v)@, l2) == if l2 == l {
            c
        } else {
            occ_of(old(v)@, l2)
        },
{
    match occ_find(v, l) {
        Some(i) => {
            proof {
                lemma_occ_update(v@, i as int, (l, c));
            }
            let e = &mut v[i];
            e.1 = c;
        },
        None => {
            proof {
                lemma_occ_push(v@, l, c);
            }
            v.push((l, c));
        },
    }
}

/// The single source of truth for which entities exist and how many of
/// them occupy each cell. The occupancy ledger is maintained incrementally:
/// once per registration and once per accepted move, never recomputed.
pub struct World {
    pub items: Vec<AnyObject>,
    pub is_available: Vec<(Location, u64)>,
}

impl World {
    pub open spec fn model(&self) -> WorldModel {
        WorldModel {
            objs: self.items@.map_values(|o: AnyObject| o.model()),
            occ: Map::new(|l: Location| true, |l: Location| occ_of(self.is_available@, l)),
        }
    }

    /// Well-formedness: one ledger entry per cell, and well-formed
    /// entity ledgers.
    pub open spec fn wf(&self) -> bool {
        loc_keys_unique(self.is_available@) && wm_wf(self.model())
    }

    pub fn new() -> (r: Self)
        ensures
            r.wf(),
            r.model().objs =~= Seq::<ObjectModel>::empty(),
            forall|l: Location| #[trigger] r.model().occ[l] == 0,
    {
        Self { items: Vec::new(), is_available: Vec::new() }
    }

    /// Registers a batch of entities: appends them to the world and counts
    /// each one's current location into the occupancy ledger.
    pub fn add_items(&mut self, items: Vec<AnyObject>) -> (r: ())
        requires
            old(self).wf(),
            forall|i: int|
                0 <= i < items@.len() ==> obj_wf(#[trigger] items@[i].model()),
            forall|l: Location| #[trigger] old(self).model().occ[l] + items@.len() <= u64::MAX,
        ensures
            final(self).wf(),
            final(self).model().objs =~= old(self).model().objs + items@.map_values(
                |o: AnyObject| o.model(),
            ),
            forall|l: Location|
                #[trigger] final(self).model().occ[l] == old(self).model().occ[l] + count_at(
                    items@.map_values(|o: AnyObject| o.model()),
                    l,
                ),
            forall|l: Location|
                old(self).model().occ[l] <= #[trigger] final(self).model().occ[l] <= old(
                    self,
                ).model().occ[l] + items@.len(),
    {
        let ghost ms = items@.map_values(|o: AnyObject| o.model());
        proof {
            lemma_count_at_bounds(ms);
        }
        let mut i: usize = 0;
        while i < items.len()
            invariant
                old(self).wf(),
                i <= items@.len(),
                loc_keys_unique(self.is_available@),
                self.items == old(self).items,
                ms == items@.map_values(|o: AnyObject| o.model()),
                forall|j: int| 0 <= j < ms.len() ==> obj_wf(#[trigger] ms[j]),
                forall|l: Location| #[trigger] old(self).model().occ[l] + items@.len()
                    <= u64::MAX,
                forall|l: Location|
                    #[trigger] occ_of(self.is_available@, l) == occ_of(old(self).is_available@, l)
                        + count_at(ms.take(i as int), l),
            decreases items@.len() - i,
        {
            let loc = *items[i].location();
            let cnt = occ_get(&self.is_available, loc);
            proof {
                lemma_count_at_bounds(ms.take(i as int));
                assert(ms.take(i as int).len() == i);
                assert(occ_of(old(self).is_available@, loc) == old(self).model().occ[loc]);
                lemma_count_at_take_step(ms, i as int, loc);
            }
            occ_set(&mut self.is_available, loc, cnt + 1);
            i += 1;
        }
        proof {
            assert(ms.take(items@.len() as int) =~= ms);
        }
        let mut items = items;
        self.items.append(&mut items);
        proof {
            assert(final(self).model().objs =~= old(self).model().objs + ms);
            lemma_count_at_bounds(ms);
        }
    }

    /// The number of entities the occupancy ledger counts at `location`.
    pub fn check_location(&self, location: Location) -> (r: u64)
        ensures
            r == self.model().occ[location],
    {
        occ_get(&self.is_available, location)
    }

    /// Mutable access to the entities; the occupancy ledger is untouched.
    pub fn get_items(&mut self) -> (r: &mut Vec<AnyObject>)
        ensures
            *r == old(self).items,
            final(self).items == *final(r),
            final(self).is_available == old(self).is_available,
    {
        &mut self.items
    }

    /// Exchanges the primary ledgers of two distinct entities wholesale;
    /// the occupancy ledger and everything else about them is untouched.
    pub fn swap_storages(&mut self, i: usize, j: usize)
        requires
            old(self).wf(),
            i < old(self).model().objs.len(),
            j < old(self).model().objs.len(),
            i != j,
        ensures
            final(self).wf(),
            final(self).is_available == old(self).is_available,
            final(self).model().occ == old(self).model().occ,
            final(self).model().objs =~= old(self).model().objs.update(
                i as int,
                ObjectModel {
                    storage: old(self).model().objs[j as int].storage,
                    ..old(self).model().objs[i as int]
                },
            ).update(
                j as int,
                ObjectModel {
                    storage: old(self).model().objs[i as int].storage,
                    ..old(self).model().objs[j as int]
                },
            ),
    {
        let mut tmp = Storage::new();
        {
            let s = self.items[i].get_storage();
            core::mem::swap(s, &mut tmp);
        }
        {
            let s = self.items[j].get_storage();
            core::mem::swap(s, &mut tmp);
        }
        {
            let s = self.items[i].get_storage();
            core::mem::swap(s, &mut tmp);
        }
        proof {
            assert(final(self).model().occ =~= old(self).model().occ);
            assert(final(self).model().objs =~= old(self).model().objs.update(
                i as int,
                ObjectModel {
                    storage: old(self).model().objs[j as int].storage,
                    ..old(self).model().objs[i as int]
                },
            ).update(
                j as int,
                ObjectModel {
                    storage: old(self).model().objs[i as int].storage,
                    ..old(self).model().objs[j as int]
                },
            ));
        }
    }

    /// Renders every entity; never fails and never mutates state.
    pub fn render(&self) -> (r: Result<String, Error>)
        ensures
            match r {
                Ok(s) => s@ == world_render_spec(self.model()),
                Err(_) => false,
            },
    {
        let ghost ms = self.model().objs;
        let mut s = String::new();
        s.append("{ \"objects\": [");
        let mut i: usize = 0;
        while i < self.items.len()
            invariant
                i <= self.items@.len(),
                ms == self.model().objs,
                s@ == "{ \"objects\": ["@ + objs_render_spec(ms.take(i as int)),
            decreases self.items@.len() - i,
        {
            if i > 0 {
                s.append(", ");
            }
            let part = match self.items[i].render() {
                Ok(p) => p,
                Err(e) => {
                    return Err(e);
                },
            };
            s.append(part.as_str());
            proof {
                let t = ms.take(i + 1);
                assert(t.drop_last() =~= ms.take(i as int));
                assert(t.last() == ms[i as int]);
                assert(ms[i as int] == self.items@[i as int].model());
                assert(s@ =~= "{ \"objects\": ["@ + objs_render_spec(t));
            }
            i += 1;
        }
        proof {
            assert(ms.take(self.items@.len() as int) =~= ms);
        }
        s.append("] }");
        proof {
            assert(s@ =~= world_render_spec(self.model()));
        }
        Ok(s)
    }

    /// Moves one unit of occupancy from the cell entity `item` stands on to
    /// `to_location`: the ledger half of an accepted move. Fails, changing
    /// nothing, when the source cell's count is already 0.
    pub fn notify_will_move(&mut self, item: usize, to_location: Location) -> (r: Result<
        (),
        Error,
    >)
        requires
            old(self).wf(),
            item < old(self).model().objs.len(),
            old(self).model().occ[to_location] < u64::MAX,
        ensures
            final(self).wf(),
            final(self).model().objs == old(self).model().objs,
            ({
                let from = old(self).model().objs[item as int].location;
                match r {
                    Ok(_) => old(self).model().occ[from] > 0 && final(self).model().occ
                        =~= move_occ(old(self).model().occ, from, to_location),
                    Err(e) => e == Error::InsufficientQuantity(0) && old(self).model().occ[from]
                        == 0 && *final(self) == *old(self),
                }
            }),
    {
        let from = {
            let o = &self.items[item];
            *o.location()
        };
        proof {
            assert(old(self).model().objs[item as int] == self.items@.map_values(
                |o: AnyObject| o.model(),
            )[item as int]);
        }
        let from_cnt = occ_get(&self.is_available, from);
        if from_cnt == 0 {
            return Err(Error::InsufficientQuantity(0));
        }
        occ_set(&mut self.is_available, from, from_cnt - 1);
        let to_cnt = occ_get(&self.is_available, to_location);
        occ_set(&mut self.is_available, to_location, to_cnt + 1);
        proof {
            assert(final(self).model().occ =~= move_occ(
                old(self).model().occ,
                from,
                to_location,
            ));
        }
        Ok(())
    }
}

/// `count_at` is between 0 and the number of entities.
pub proof fn lemma_count_at_bounds(objs: Seq<ObjectModel>)
    ensures
        forall|l: Location| 0 <= #[trigger] count_at(objs, l) <= objs.len(),
    decreases objs.len(),
{
    if objs.len() > 0 {
        lemma_count_at_bounds(objs.drop_first());
        assert forall|l: Location| 0 <= #[trigger] count_at(objs, l) <= objs.len() by {
            assert(0 <= count_at(objs.drop_first(), l) <= objs.drop_first().len());
        }
    }
}

/// Extending a prefix by one entity raises its cell's count by one.
proof fn lemma_count_at_take_step(objs: Seq<ObjectModel>, i: int, l: Location)
    requires
        0 <= i < objs.len(),
        objs[i].location == l,
    ensures
        forall|l2: Location| #[trigger] count_at(objs.take(i + 1), l2) == count_at(
            objs.take(i),
            l2,
        ) + if l2 == l {
            1int
        } else {
            0int
        },
    decreases i,
{
    if i == 0 {
        assert forall|l2: Location|
            #[trigger] count_at(objs.take(1), l2) == count_at(objs.take(0), l2) + if l2 == l {
                1int
            } else {
                0int
            } by {
            assert(objs.take(1).drop_first() =~= Seq::<ObjectModel>::empty());
            assert(objs.take(1)[0] == objs[0]);
            assert(objs.take(0) =~= Seq::<ObjectModel>::empty());
        }
    } else {
        assert(objs.take(i + 1).drop_first() =~= objs.drop_first().take(i));
        assert(objs.take(i).drop_first() =~= objs.drop_first().take(i - 1));
        assert(objs.drop_first()[i - 1] == objs[i]);
        lemma_count_at_take_step(objs.drop_first(), i - 1, l);
        assert(objs.take(i + 1)[0] == objs[0]);
        assert(objs.take(i)[0] == objs[0]);
        assert forall|l2: Location|
            #[trigger] count_at(objs.take(i + 1), l2) == count_at(objs.take(i), l2) + if l2 == l {
                1int
            } else {
                0int
            } by {
            assert(count_at(objs.drop_first().take(i), l2) == count_at(
                objs.drop_first().take(i - 1),
                l2,
            ) + if l2 == l {
                1int
            } else {
                0int
            });
        }
    }
}

} // verus!
