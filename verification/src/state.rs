//! The world that all agents share.

use vstd::prelude::*;

use crate::anycellmap::AnyCellmap;
use crate::carriableitem::CarriableItems;
use crate::entity::Entity;
use crate::gametime::Time;
use crate::interactive::InteractiveObjects;
use crate::worldmap::Cellmap;

verus! {

/// The minute of the day at which a new world starts: four in the afternoon.
pub const START_MINUTES: usize = 960;

/// The shared world: the grid, the registries of items and of interactive
/// objects, the map of who stands where for the agents' eyes, and the clock.
pub struct Reality {
    pub cellmap: Cellmap,
    pub carriables: CarriableItems,
    pub interactive: InteractiveObjects,
    pub comm_map: AnyCellmap<Vec<Entity>>,
    pub time: Time,
}

impl Reality {
    /// Every part of the world is well formed, and the map for the agents'
    /// eyes has the shape of the grid.
    pub open spec fn wf(&self) -> bool {
        &&& self.cellmap.wf()
        &&& self.carriables.wf()
        &&& self.time.wf()
        &&& self.comm_map.wf()
        &&& self.comm_map.width == self.cellmap.width
        &&& self.comm_map.height == self.cellmap.height
    }

    /// A world on the grid `cellmap`, without items or objects, at
    /// `START_MINUTES` on day 0.
    pub fn new(cellmap: Cellmap) -> (r: Reality)
        requires
            cellmap.wf(),
        ensures
            r.wf(),
            r.cellmap == cellmap,
            r.carriables.items@.len() == 0,
            r.interactive.items@.len() == 0,
            r.time.minutes_since_zero() == START_MINUTES,
            forall|i: int| 0 <= i < r.comm_map.map.len()
                ==> (#[trigger] r.comm_map.map[i])@.len() == 0,
    {
        let wh = cellmap.wh_i32();
        let nobody: Vec<Entity> = Vec::new();
        assert(wh.0 * wh.1 == cellmap.map.len());
        let comm_map = AnyCellmap::new(&nobody, wh.0, wh.1);
        proof {
            assert forall|i: int| 0 <= i < comm_map.map.len() implies (
            #[trigger] comm_map.map[i])@.len() == 0 by {
                assert(cloned(nobody, comm_map.map[i]));
            }
        }
        Reality {
            cellmap,
            carriables: CarriableItems::new(),
            interactive: InteractiveObjects::new(),
            time: Time::new(START_MINUTES),
            comm_map,
        }
    }
}

} // verus!
