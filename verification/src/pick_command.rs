use vstd::prelude::*;
use vstd::string::StringExecFns;

use crate::command::Command;
use crate::error::Error;
use crate::fmt::{dec_str, u32_to_string, u64_to_string};
use crate::object::{obj_lock, AnyObject, Object, ObjectModel};
use crate::storage::{add_to, have_of, take_from, ItemSet};
use crate::world::{World, WorldModel};

verus! {

/// Moves a quantity of one item kind between a Site's primary ledger and
/// its staging ledger: primary to staging when `reverse` is false (a
/// pick), staging to primary when it is true (a put).
#[derive(Clone, Copy, Debug)]
pub struct PickCommand {
    pub site: usize,
    pub item: ItemSet,
    pub reverse: bool,
}

/// Builds a pick: primary ledger to staging ledger.
pub struct SitePickCommand {}

impl SitePickCommand {
    pub fn new(site: usize, item: ItemSet) -> (r: PickCommand)
        ensures
            r == (PickCommand { site, item, reverse: false }),
    {
        PickCommand { site, item, reverse: false }
    }
}

/// Builds a put: staging ledger back to primary ledger.
pub struct SitePutCommand {}

impl SitePutCommand {
    pub fn new(site: usize, item: ItemSet) -> (r: PickCommand)
        ensures
            r == (PickCommand { site, item, reverse: true }),
    {
        PickCommand { site, item, reverse: true }
    }
}

/// Admission: the source ledger must hold enough of the item kind, and
/// the site is locked.
pub open spec fn pick_init_step(w: WorldModel, c: PickCommand) -> (WorldModel, Result<(), Error>) {
    let m = w.objs[c.site as int];
    let src = if c.reverse {
        m.pick_storage
    } else {
        m.storage
    };
    if have_of(src, c.item.0) < c.item.1 {
        (w, Err(Error::InsufficientQuantity(have_of(src, c.item.0))))
    } else {
        let (m2, r) = obj_lock(m);
        (WorldModel { objs: w.objs.update(c.site as int, m2), occ: w.occ }, r)
    }
}

/// Apply: takes from the source ledger and adds to the destination
/// ledger, then releases the site. A source shortfall, or a destination
/// quantity that would no longer fit its counter, is reported as
/// `InsufficientQuantity` with the quantity that ledger holds, and moves
/// nothing.
pub open spec fn pick_consume_step(w: WorldModel, c: PickCommand) -> (WorldModel, Result<
    bool,
    Error,
>) {
    let m = w.objs[c.site as int];
    let k = c.item.0;
    let n = c.item.1;
    let src = if c.reverse {
        m.pick_storage
    } else {
        m.storage
    };
    let dst = if c.reverse {
        m.storage
    } else {
        m.pick_storage
    };
    if have_of(src, k) < n {
        (
            WorldModel {
                objs: w.objs.update(c.site as int, ObjectModel { locked: false, ..m }),
                occ: w.occ,
            },
            Err(Error::InsufficientQuantity(have_of(src, k))),
        )
    } else if have_of(dst, k) + n > u32::MAX {
        (
            WorldModel {
                objs: w.objs.update(c.site as int, ObjectModel { locked: false, ..m }),
                occ: w.occ,
            },
            Err(Error::InsufficientQuantity(have_of(dst, k))),
        )
    } else {
        let src2 = take_from(src, k, n);
        let dst2 = add_to(dst, k, n);
        let m2 = if c.reverse {
            ObjectModel { storage: dst2, pick_storage: src2, locked: false, ..m }
        } else {
            ObjectModel { storage: src2, pick_storage: dst2, locked: false, ..m }
        };
        (WorldModel { objs: w.objs.update(c.site as int, m2), occ: w.occ }, Ok(false))
    }
}

/// The display projection of a pick or put command.
pub open spec fn pick_render_spec(c: PickCommand, w: WorldModel) -> Seq<char> {
    let kind = if c.reverse {
        "put"@
    } else {
        "pick"@
    };
    "{ \"type\": \""@ + kind + "\", \"site\": \""@ + w.objs[c.site as int].id + "\", \"item\": "@
        + dec_str(c.item.0 as nat) + ", \"count\": "@ + dec_str(c.item.1 as nat) + " }"@
}

impl Command for PickCommand {
    open spec fn valid(&self, w: WorldModel) -> bool {
        self.site < w.objs.len() && w.objs[self.site as int].is_site
    }

    open spec fn init_ens(
        &self,
        pre: WorldModel,
        post: WorldModel,
        post_self: Self,
        r: Result<(), Error>,
    ) -> bool {
        post_self == *self && (post, r) == pick_init_step(pre, *self)
    }

    open spec fn consume_ens(
        &self,
        pre: WorldModel,
        post: WorldModel,
        post_self: Self,
        r: Result<bool, Error>,
    ) -> bool {
        post_self == *self && (post, r) == pick_consume_step(pre, *self)
    }

    open spec fn render_spec(&self, w: WorldModel) -> Seq<char> {
        pick_render_spec(*self, w)
    }

    fn initialize(&mut self, world: &mut World) -> (r: Result<(), Error>) {
        let k = self.item.0;
        let n = self.item.1;
        proof {
            assert(old(world).model().objs[self.site as int] == old(world).items@[self.site as int].model());
        }
        let h = {
            let o = &world.items[self.site];
            match o {
                AnyObject::Site(site) => {
                    if self.reverse {
                        site.pick_storage.have(k)
                    } else {
                        site.storage.have(k)
                    }
                },
                _ => {
                    proof {
                        assert(false);
                    }
                    0
                },
            }
        };
        if h < n {
            return Err(Error::InsufficientQuantity(h));
        }
        let r = {
            let o = &mut world.items[self.site];
            o.lock()
        };
        proof {
            let step = pick_init_step(old(world).model(), *self);
            assert(final(world).model().objs =~= step.0.objs);
            assert(final(world).model().occ =~= step.0.occ);
        }
        r
    }

    fn consume(&mut self, world: &mut World) -> (r: Result<bool, Error>) {
        let k = self.item.0;
        let n = self.item.1;
        proof {
            assert(old(world).model().objs[self.site as int] == old(world).items@[self.site as int].model());
        }
        let o = &mut world.items[self.site];
        match o {
            AnyObject::Site(site) => {
                let h_src = if self.reverse {
                    site.pick_storage.have(k)
                } else {
                    site.storage.have(k)
                };
                if h_src < n {
                    let _ = site.unlock();
                    proof {
                        let step = pick_consume_step(old(world).model(), *self);
                        assert(final(world).model().objs =~= step.0.objs);
                        assert(final(world).model().occ =~= step.0.occ);
                    }
                    return Err(Error::InsufficientQuantity(h_src));
                }
                let h_dst = if self.reverse {
                    site.storage.have(k)
                } else {
                    site.pick_storage.have(k)
                };
                if h_dst > u32::MAX - n {
                    let _ = site.unlock();
                    proof {
                        let step = pick_consume_step(old(world).model(), *self);
                        assert(final(world).model().objs =~= step.0.objs);
                        assert(final(world).model().occ =~= step.0.occ);
                    }
                    return Err(Error::InsufficientQuantity(h_dst));
                }
                if self.reverse {
                    let _ = site.pick_storage.take(k, n);
                    let _ = site.storage.add(k, n);
                } else {
                    let _ = site.storage.take(k, n);
                    let _ = site.pick_storage.add(k, n);
                }
                let _ = site.unlock();
                proof {
                    let step = pick_consume_step(old(world).model(), *self);
                    assert(final(world).model().objs =~= step.0.objs);
                    assert(final(world).model().occ =~= step.0.occ);
                }
                Ok(false)
            },
            _ => {
                proof {
                    assert(false);
                }
                Err(Error::Fault)
            },
        }
    }

    fn render(&self, world: &World) -> (r: Result<String, Error>) {
        let mut s = String::new();
        s.append("{ \"type\": \"");
        if self.reverse {
            s.append("put");
        } else {
            s.append("pick");
        }
        s.append("\", \"site\": \"");
        {
            let o = &world.items[self.site];
            s.append(o.id());
        }
        s.append("\", \"item\": ");
        let si = u64_to_string(self.item.0);
        s.append(si.as_str());
        s.append(", \"count\": ");
        let sc = u32_to_string(self.item.1);
        s.append(sc.as_str());
        s.append(" }");
        proof {
            assert(world.model().objs[self.site as int] == world.items@[self.site as int].model());
            assert(s@ =~= pick_render_spec(*self, world.model()));
        }
        Ok(s)
    }
}

} // verus!
