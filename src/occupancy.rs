use vstd::prelude::*;

verus! {

/// A discrete tile coordinate on the dungeon map.
#[derive(Clone, Copy, Debug, PartialEq, Eq, Structural)]
pub struct Point {
    pub x: i32,
    pub y: i32,
}

impl Point {
    pub fn new(x: i32, y: i32) -> (p: Point)
        ensures
            p.x == x,
            p.y == y,
    {
        Point { x, y }
    }
}

/// Identifier of an entity in a `World`.
pub type EntityId = u64;

/// The map that a sequence of registrations describes: each registration
/// overwrites whatever the tile held before, so the last writer wins.
pub open spec fn occupancy_of(entries: Seq<(Point, EntityId)>) -> Map<Point, EntityId>
    decreases entries.len(),
{
    if entries.len() == 0 {
        Map::empty()
    } else {
        occupancy_of(entries.drop_last()).insert(entries.last().0, entries.last().1)
    }
}

/// Mapping from tile to the entity registered there last.
pub struct OccupancyIndex {
    entries: Vec<(Point, EntityId)>,
}

impl View for OccupancyIndex {
    type V = Map<Point, EntityId>;

    closed spec fn view(&self) -> Map<Point, EntityId> {
        occupancy_of(self.entries@)
    }
}

impl OccupancyIndex {
    pub fn new() -> (r: OccupancyIndex)
        ensures
            r@ == Map::<Point, EntityId>::empty(),
    {
        OccupancyIndex { entries: Vec::new() }
    }

    /// Records that `entity` now stands on `tile`; an earlier occupant of the
    /// tile is forgotten.
    pub fn occupy(&mut self, entity: EntityId, tile: Point)
        ensures
            final(self)@ == old(self)@.insert(tile, entity),
    {
        self.entries.push((tile, entity));
        assert(self.entries@.drop_last() =~= old(self).entries@);
    }

    /// The entity registered last on `tile`, if any.
    pub fn occupant(&self, tile: Point) -> (r: Option<EntityId>)
        ensures
            r == (if self@.contains_key(tile) { Some(self@[tile]) } else { None::<EntityId> }),
    {
        let mut i: usize = self.entries.len();
        assert(self.entries@.subrange(0, i as int) =~= self.entries@);
        while i > 0
            invariant
                i <= self.entries@.len(),
                forall|j: int| i <= j < self.entries@.len() ==> #[trigger] self.entries@[j].0 != tile,
                occupancy_of(self.entries@).contains_key(tile) == occupancy_of(self.entries@.subrange(0, i as int)).contains_key(tile),
                occupancy_of(self.entries@).contains_key(tile) ==> occupancy_of(self.entries@)[tile] == occupancy_of(self.entries@.subrange(0, i as int))[tile],
            decreases i,
        {
            let ghost pre = self.entries@.subrange(0, i as int);
            assert(pre.drop_last() =~= self.entries@.subrange(0, i - 1));
            let entry = self.entries[i - 1];
            if entry.0 == tile {
                return Some(entry.1);
            }
            i = i - 1;
        }
        assert(self.entries@.subrange(0, 0) =~= Seq::<(Point, EntityId)>::empty());
        None
    }
}

/// The layout that map generation hands over: where the player starts,
/// where enemies or items may appear, where the amulet lies, and the tile
/// occupancy index.
pub struct MapBuilder {
    pub player_start: Point,
    pub enemies_start: Vec<Point>,
    pub amulet_start: Point,
    pub occupancy: OccupancyIndex,
}

/// `a` and `b` describe the same start tiles.
pub open spec fn same_layout(a: &MapBuilder, b: &MapBuilder) -> bool {
    &&& a.player_start == b.player_start
    &&& a.enemies_start@ == b.enemies_start@
    &&& a.amulet_start == b.amulet_start
}

impl MapBuilder {
    pub fn new(player_start: Point, enemies_start: Vec<Point>, amulet_start: Point) -> (mb: MapBuilder)
        ensures
            mb.player_start == player_start,
            mb.enemies_start@ == enemies_start@,
            mb.amulet_start == amulet_start,
            mb.occupancy@ == Map::<Point, EntityId>::empty(),
    {
        MapBuilder { player_start, enemies_start, amulet_start, occupancy: OccupancyIndex::new() }
    }

    /// Marks `tile` as occupied by `entity`; no conflict is raised when the
    /// tile was taken.
    pub fn entity_occupy_tile(&mut self, entity: EntityId, tile: Point)
        ensures
            same_layout(final(self), old(self)),
            final(self).occupancy@ == old(self).occupancy@.insert(tile, entity),
    {
        self.occupancy.occupy(entity, tile);
    }
}

} // verus!
