use vstd::prelude::*;

use crate::location::Location;
use crate::object::{obj_wf, AnyObject, Bot, IntoAny, Object, Shelf, Site};
use crate::util::{map_as_object, move_location};
use crate::world::World;

verus! {

/// Builds the single-robot demonstration floor: six double-sided shelf
/// blocks with a pick/put site below each, and one robot in the aisle.
/// Returns the world together with the robot, shelf and site indices.
#[verifier::loop_isolation(false)]
pub fn one_bot() -> (r: (World, Vec<usize>, Vec<usize>, Vec<usize>))
    ensures
        r.0.wf(),
        r.1@.len() == 1,
        forall|i: int| 0 <= i < r.1@.len() ==> (#[trigger] r.1@[i]) < r.0.model().objs.len(),
        forall|i: int| 0 <= i < r.2@.len() ==> (#[trigger] r.2@[i]) < r.0.model().objs.len(),
        forall|i: int| 0 <= i < r.3@.len() ==> (#[trigger] r.3@[i]) < r.0.model().objs.len(),
        r.0.model().objs[r.1@[0] as int].location == (Location { x: 1, y: 13, z: 0 }),
        !r.0.model().objs[r.1@[0] as int].locked,
{
    let margin_l: u32 = 1;
    let margin_t: u32 = 1;
    let shelf_width: u32 = 10;
    let mut world = World::new();
    let mut vec_shelf: Vec<Shelf> = Vec::new();
    let mut cnt: u32 = 0;
    while cnt < 6
        invariant
            cnt <= 6,
            vec_shelf@.len() == 100 * cnt,
            forall|i: int| 0 <= i < vec_shelf@.len() ==> obj_wf(#[trigger] vec_shelf@[i].model()),
        decreases 6 - cnt,
    {
        let mut col: u32 = 0;
        while col < 2
            invariant
                col <= 2,
                vec_shelf@.len() == 100 * cnt + 50 * col,
                forall|i: int|
                    0 <= i < vec_shelf@.len() ==> obj_wf(#[trigger] vec_shelf@[i].model()),
            decreases 2 - col,
        {
            let mut row: u32 = 0;
            while row < 10
                invariant
                    row <= 10,
                    vec_shelf@.len() == 100 * cnt + 50 * col + 5 * row,
                    forall|i: int|
                        0 <= i < vec_shelf@.len() ==> obj_wf(#[trigger] vec_shelf@[i].model()),
                decreases 10 - row,
            {
                let mut tal: u32 = 0;
                while tal < 5
                    invariant
                        tal <= 5,
                        vec_shelf@.len() == 100 * cnt + 50 * col + 5 * row + tal,
                        forall|i: int|
                            0 <= i < vec_shelf@.len() ==> obj_wf(#[trigger] vec_shelf@[i].model()),
                    decreases 5 - tal,
                {
                    let mut shelf = Shelf::new();
                    shelf.location = Location::new(cnt * 3 + col + margin_l, margin_t + row, tal);
                    vec_shelf.push(shelf);
                    tal += 1;
                }
                row += 1;
            }
            col += 1;
        }
        cnt += 1;
    }
    let mut vec_site: Vec<Site> = Vec::new();
    let mut cnt2: u32 = 0;
    while cnt2 < 6
        invariant
            cnt2 <= 6,
            vec_site@.len() == cnt2,
            forall|i: int| 0 <= i < vec_site@.len() ==> obj_wf(#[trigger] vec_site@[i].model()),
        decreases 6 - cnt2,
    {
        let mut site = Site::new();
        site.location = Location::new(cnt2 * 3 + margin_l + 1, margin_t + shelf_width + 1, 0);
        vec_site.push(site);
        cnt2 += 1;
    }
    let n_shelves = vec_shelf.len();
    let n_sites = vec_site.len();
    let shelf_objs = map_as_object(vec_shelf);
    let site_objs = map_as_object(vec_site);
    world.add_items(shelf_objs);
    world.add_items(site_objs);
    let mut bot = Bot::new();
    bot.location = Location::new(margin_l, shelf_width + 3, 0);
    let ghost bot_model = bot.model();
    let mut bot_objs: Vec<AnyObject> = Vec::new();
    bot_objs.push(bot.into_any());
    world.add_items(bot_objs);
    let bot_index = n_shelves + n_sites;
    let total = world.items.len();
    proof {
        assert(world.model().objs.len() == total);
        assert(world.model().objs[bot_index as int] == bot_model);
    }
    let mut bots: Vec<usize> = Vec::new();
    bots.push(bot_index);
    let mut shelves: Vec<usize> = Vec::new();
    let mut i: usize = 0;
    while i < n_shelves
        invariant
            i <= n_shelves,
            shelves@.len() == i,
            n_shelves + n_sites < total,
            forall|j: int| 0 <= j < shelves@.len() ==> (#[trigger] shelves@[j]) < total,
        decreases n_shelves - i,
    {
        shelves.push(i);
        i += 1;
    }
    let mut sites: Vec<usize> = Vec::new();
    let mut j: usize = 0;
    while j < n_sites
        invariant
            j <= n_sites,
            sites@.len() == j,
            n_shelves + n_sites < total,
            forall|k: int| 0 <= k < sites@.len() ==> (#[trigger] sites@[k]) < total,
        decreases n_sites - j,
    {
        sites.push(n_shelves + j);
        j += 1;
    }
    (world, bots, shelves, sites)
}

} // verus!
