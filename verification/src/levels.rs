//! The level model: a player start position and an ordered list of placed
//! map objects, with the closed dispatch over object kinds. Object order is
//! preserved through every encoding; level equality is deliberately weak —
//! equal starts, equal counts, and matching per-index object kinds.

use crate::animation::Animations;
use crate::collectable::{spec_collectable_spawn_post, Collectable, CollectableV};
use crate::tile_map::{
    spec_box_cells, spec_footprint_supported, GridPos, HalfPos, MapBox, MapData, SpriteCell,
};
use vstd::assert_sets_equal;
use vstd::prelude::*;

verus! {

/// The wire and text tag of an object kind.
#[derive(Clone, Copy, Debug, PartialEq, Eq, Structural)]
pub enum MapObjectType {
    Box,
    Collectable,
}

/// A placed level object: the closed set of kinds the dispatch table knows.
#[derive(Clone, Debug)]
pub enum MapObject {
    Box(MapBox),
    Collectable(Collectable),
}

/// The mathematical shape of a placed object.
pub enum MapObjectV {
    Box(MapBox),
    Collectable(CollectableV),
}

impl View for MapObject {
    type V = MapObjectV;

    open spec fn view(&self) -> MapObjectV {
        match self {
            MapObject::Box(b) => MapObjectV::Box(*b),
            MapObject::Collectable(c) => MapObjectV::Collectable(c@),
        }
    }
}

/// The kind tag of an object shape.
pub open spec fn spec_object_type(o: MapObjectV) -> MapObjectType {
    match o {
        MapObjectV::Box(_) => MapObjectType::Box,
        MapObjectV::Collectable(_) => MapObjectType::Collectable,
    }
}

/// What spawning one object may do: terrain materializes at a position with
/// its child sprites, an item materializes at a grid cell.
pub enum SpawnEffect {
    Terrain(HalfPos, Vec<SpriteCell>),
    Item(GridPos),
}

impl MapObject {
    /// The kind tag used as the wire and text key of this object.
    pub fn object_type(&self) -> (r: MapObjectType)
        ensures
            r == spec_object_type(self@),
    {
        match self {
            MapObject::Box(_) => MapObjectType::Box,
            MapObject::Collectable(_) => MapObjectType::Collectable,
        }
    }

    /// A deep copy, as respawning an object requires.
    pub fn duplicate(&self) -> (r: MapObject)
        ensures
            r@ == self@,
    {
        match self {
            MapObject::Box(b) => MapObject::Box(*b),
            MapObject::Collectable(c) => MapObject::Collectable(c.duplicate()),
        }
    }

    /// Marks the cells this object covers; items cover none.
    pub fn set_full(&self, map: &mut MapData)
        requires
            self matches MapObject::Box(b) ==> b.offset.x + b.width <= i32::MAX && b.offset.y
                + b.height <= i32::MAX,
        ensures
            self matches MapObject::Box(b) ==> final(map)@ == old(map)@.union(spec_box_cells(*b)),
            self matches MapObject::Collectable(c) ==> final(map)@ == old(map)@,
            final(map).spec_need_correcting() == old(map).spec_need_correcting(),
    {
        match self {
            MapObject::Box(b) => b.set_full(map),
            MapObject::Collectable(_) => (),
        }
    }

    /// Spawns the object: decides whether it materializes, where, with which
    /// child sprites, and which descriptor its next generation uses. Terrain
    /// marks the cells it covers as full before returning; an unsupported
    /// terrain footprint declines without touching the map.
    pub fn spawn(&self, animations: &Animations, map: &mut MapData) -> (r: Option<
        (SpawnEffect, MapObject),
    >)
        requires
            self matches MapObject::Box(b) ==> b.offset.x + b.width <= i32::MAX && b.offset.y
                + b.height <= i32::MAX,
            self matches MapObject::Collectable(c) ==> (c.spawn_type matches
                crate::collectable::SpawnType::Order(l, i) ==> i < usize::MAX),
        ensures
            final(map).spec_need_correcting() == old(map).spec_need_correcting(),
            self matches MapObject::Box(b) ==> {
                &&& (r is Some <==> spec_footprint_supported(b.width as int, b.height as int))
                &&& (r is Some ==> final(map)@ == old(map)@.union(spec_box_cells(*b)))
                &&& (r is None ==> final(map)@ == old(map)@)
                &&& (r matches Some((eff, next)) ==> {
                    &&& next@ == self@
                    &&& eff matches SpawnEffect::Terrain(p, sprites) && p
                        == crate::tile_map::spec_calc_pos_half(*b) && sprites@
                        == crate::tile_map::spec_square_layout(b.width as int, b.height as int)
                })
            },
            self matches MapObject::Collectable(c) ==> {
                &&& final(map)@ == old(map)@
                &&& match r {
                    None => spec_collectable_spawn_post(*c, *animations, *old(map), None),
                    Some((eff, next)) => {
                        &&& eff matches SpawnEffect::Item(cell) && next matches
                            MapObject::Collectable(nc) && spec_collectable_spawn_post(
                            *c,
                            *animations,
                            *old(map),
                            Some((cell, nc)),
                        )
                    },
                }
            },
    {
        match self {
            MapObject::Box(b) => {
                let sprites = match crate::tile_map::square_sprite_layout(b.width, b.height) {
                    Some(s) => s,
                    None => {
                        return None;
                    },
                };
                b.set_full(map);
                let pos = b.calc_pos_half();
                Some((SpawnEffect::Terrain(pos, sprites), MapObject::Box(*b)))
            },
            MapObject::Collectable(c) => {
                match c.spawn(animations, map) {
                    Some((cell, next)) => Some(
                        (SpawnEffect::Item(cell), MapObject::Collectable(next)),
                    ),
                    None => None,
                }
            },
        }
    }
}

/// A request to materialize one object, drained once per tick.
pub enum MapEvent {
    Spawn(MapObject),
}

impl MapEvent {
    pub fn spawn(object: MapObject) -> (r: MapEvent)
        ensures
            r matches MapEvent::Spawn(o) && o@ == object@,
    {
        MapEvent::Spawn(object)
    }
}

/// A level: where the player starts and, in order, what stands in the world.
#[derive(Debug)]
pub struct Level {
    pub player_start: GridPos,
    pub objects: Vec<MapObject>,
}

/// The mathematical shape of a level.
#[verifier::ext_equal]
pub struct LevelV {
    pub player_start: GridPos,
    pub objects: Seq<MapObjectV>,
}

impl View for Level {
    type V = LevelV;

    open spec fn view(&self) -> LevelV {
        LevelV {
            player_start: self.player_start,
            objects: Seq::new(self.objects@.len(), |i: int| self.objects@[i]@),
        }
    }
}

/// The deliberately weak level equality: equal player starts, equal object
/// counts, and equal per-index object kinds — object fields do not count.
pub open spec fn spec_level_equivalent(a: LevelV, b: LevelV) -> bool {
    &&& a.player_start == b.player_start
    &&& a.objects.len() == b.objects.len()
    &&& forall|i: int|
        0 <= i < a.objects.len() ==> spec_object_type(#[trigger] a.objects[i]) == spec_object_type(
            b.objects[i],
        )
}

impl PartialEq for Level {
    fn eq(&self, other: &Level) -> (r: bool) {
        if self.player_start.x != other.player_start.x || self.player_start.y
            != other.player_start.y {
            return false;
        }
        if self.objects.len() != other.objects.len() {
            return false;
        }
        let mut i: usize = 0;
        while i < self.objects.len()
            invariant
                0 <= i <= self.objects@.len(),
                self.objects@.len() == other.objects@.len(),
                forall|k: int|
                    0 <= k < i ==> spec_object_type(#[trigger] self@.objects[k])
                        == spec_object_type(other@.objects[k]),
            decreases self.objects@.len() - i,
        {
            let ta = self.objects[i].object_type();
            let tb = other.objects[i].object_type();
            proof {
                assert(self@.objects[i as int] == self.objects@[i as int]@);
                assert(other@.objects[i as int] == other.objects@[i as int]@);
            }
            let same = match (ta, tb) {
                (MapObjectType::Box, MapObjectType::Box) => true,
                (MapObjectType::Collectable, MapObjectType::Collectable) => true,
                _ => false,
            };
            if !same {
                return false;
            }
            i = i + 1;
        }
        true
    }
}

impl vstd::std_specs::cmp::PartialEqSpecImpl for Level {
    open spec fn obeys_eq_spec() -> bool {
        true
    }

    open spec fn eq_spec(&self, other: &Level) -> bool {
        spec_level_equivalent(self@, other@)
    }
}

impl Level {
    /// A deep copy of the object list, in order, as a reload respawns it.
    pub fn duplicate_objects(&self) -> (r: Vec<MapObject>)
        ensures
            r@.len() == self.objects@.len(),
            forall|i: int| 0 <= i < r@.len() ==> (#[trigger] r@[i])@ == self@.objects[i],
    {
        let mut r: Vec<MapObject> = Vec::new();
        let mut i: usize = 0;
        while i < self.objects.len()
            invariant
                0 <= i <= self.objects@.len(),
                r@.len() == i,
                forall|k: int| 0 <= k < i ==> (#[trigger] r@[k])@ == self@.objects[k],
            decreases self.objects@.len() - i,
        {
            r.push(self.objects[i].duplicate());
            i = i + 1;
        }
        r
    }
}

/// What reloading a level does, besides the despawning that the world layer
/// performs: both lifecycle clears are raised in order, the occupancy map is
/// emptied for terrain to re-mark itself, and every stored object is sent to
/// spawn as a fresh copy, in the stored order. The player is to stand at the
/// returned start position.
pub fn load_map(level: &Level, map: &mut MapData) -> (r: (
    Vec<crate::ghost::GhostEvents>,
    GridPos,
    Vec<MapEvent>,
))
    ensures
        final(map)@ == Set::<u64>::empty(),
        r.0@ =~= seq![
            crate::ghost::GhostEvents::ClearGhosts,
            crate::ghost::GhostEvents::ClearTrail,
        ],
        r.1 == level.player_start,
        r.2@.len() == level.objects@.len(),
        forall|i: int|
            0 <= i < r.2@.len() ==> ((#[trigger] r.2@[i]) matches MapEvent::Spawn(o) && o@
                == level@.objects[i]),
{
    map.clear();
    let mut events: Vec<crate::ghost::GhostEvents> = Vec::new();
    events.push(crate::ghost::GhostEvents::ClearGhosts);
    events.push(crate::ghost::GhostEvents::ClearTrail);
    let mut spawns: Vec<MapEvent> = Vec::new();
    let mut i: usize = 0;
    while i < level.objects.len()
        invariant
            0 <= i <= level.objects@.len(),
            spawns@.len() == i,
            forall|k: int|
                0 <= k < i ==> ((#[trigger] spawns@[k]) matches MapEvent::Spawn(o) && o@
                    == level@.objects[k]),
        decreases level.objects@.len() - i,
    {
        proof {
            assert(level@.objects[i as int] == level.objects@[i as int]@);
        }
        spawns.push(MapEvent::Spawn(level.objects[i].duplicate()));
        i = i + 1;
    }
    (events, level.player_start, spawns)
}

/// The cells that the supported terrain blocks among the first `n` spawn
/// requests cover.
pub open spec fn spec_events_box_cells(events: Seq<MapEvent>, n: int) -> Set<u64>
    decreases n,
{
    if n <= 0 {
        Set::empty()
    } else {
        let prev = spec_events_box_cells(events, n - 1);
        match events[n - 1] {
            MapEvent::Spawn(o) => match o {
                MapObject::Box(b) => if spec_footprint_supported(
                    b.width as int,
                    b.height as int,
                ) {
                    prev.union(spec_box_cells(b))
                } else {
                    prev
                },
                MapObject::Collectable(_) => prev,
            },
        }
    }
}

/// What the drain promises of the slot a spawn request produced, judged
/// against the occupancy map as it stood when the drain began: a supported
/// terrain block yields exactly one terrain effect at its computed centre
/// with its footprint's sprite layout; an unsupported one yields nothing; a
/// collectable's slot keeps the whole collectable spawn promise.
pub open spec fn spec_spawn_slot_post(
    e: MapEvent,
    animations: Animations,
    map: MapData,
    r: Option<(SpawnEffect, MapObject)>,
) -> bool {
    match e {
        MapEvent::Spawn(o) => match o {
            MapObject::Box(b) => {
                &&& (r is Some <==> spec_footprint_supported(b.width as int, b.height as int))
                &&& (r matches Some((eff, next)) ==> {
                    &&& next@ == o@
                    &&& eff matches SpawnEffect::Terrain(p, sprites) && p
                        == crate::tile_map::spec_calc_pos_half(b) && sprites@
                        == crate::tile_map::spec_square_layout(b.width as int, b.height as int)
                })
            },
            MapObject::Collectable(c) => match r {
                None => spec_collectable_spawn_post(c, animations, map, None),
                Some((eff, next)) => eff matches SpawnEffect::Item(cell) && next matches
                    MapObject::Collectable(nc) && spec_collectable_spawn_post(
                    c,
                    animations,
                    map,
                    Some((cell, nc)),
                ),
            },
        },
    }
}

/// Drains one tick's spawn requests first to last: each request makes
/// exactly one spawn against the shared occupancy map, and the slot at its
/// index carries what that spawn produced, or nothing where it declined.
/// Terrain marks its cells as it goes; a collectable judges free cells
/// against what terrain had marked by its turn, which covers at least the
/// map as the drain began.
pub fn spawn_map_objects(
    events: &Vec<MapEvent>,
    animations: &Animations,
    map: &mut MapData,
) -> (r: Vec<Option<(SpawnEffect, MapObject)>>)
    requires
        forall|i: int|
            0 <= i < events@.len() ==> ((#[trigger] events@[i]) matches MapEvent::Spawn(o) ==> {
                &&& (o matches MapObject::Box(b) ==> b.offset.x + b.width <= i32::MAX
                    && b.offset.y + b.height <= i32::MAX)
                &&& (o matches MapObject::Collectable(c) ==> (c.spawn_type matches
                    crate::collectable::SpawnType::Order(l, idx) ==> idx < usize::MAX))
            }),
    ensures
        r@.len() == events@.len(),
        final(map)@ == old(map)@.union(spec_events_box_cells(events@, events@.len() as int)),
        final(map).spec_need_correcting() == old(map).spec_need_correcting(),
        forall|i: int|
            0 <= i < events@.len() ==> spec_spawn_slot_post(
                #[trigger] events@[i],
                *animations,
                *old(map),
                r@[i],
            ),
{
    let mut out: Vec<Option<(SpawnEffect, MapObject)>> = Vec::new();
    let mut i: usize = 0;
    proof {
        assert_sets_equal!(old(map)@.union(spec_events_box_cells(events@, 0)) == old(map)@);
    }
    while i < events.len()
        invariant
            0 <= i <= events@.len(),
            out@.len() == i,
            map@ == old(map)@.union(spec_events_box_cells(events@, i as int)),
            map.spec_need_correcting() == old(map).spec_need_correcting(),
            forall|k: int|
                0 <= k < i ==> spec_spawn_slot_post(
                    #[trigger] events@[k],
                    *animations,
                    *old(map),
                    out@[k],
                ),
            forall|k: int|
                0 <= k < events@.len() ==> ((#[trigger] events@[k]) matches MapEvent::Spawn(o)
                    ==> {
                    &&& (o matches MapObject::Box(b) ==> b.offset.x + b.width <= i32::MAX
                        && b.offset.y + b.height <= i32::MAX)
                    &&& (o matches MapObject::Collectable(c) ==> (c.spawn_type matches
                        crate::collectable::SpawnType::Order(l, idx) ==> idx < usize::MAX))
                }),
        decreases events@.len() - i,
    {
        let ghost pre = *map;
        let MapEvent::Spawn(obj) = &events[i];
        let slot = obj.spawn(animations, map);
        proof {
            assert(old(map)@.subset_of(pre@)) by {
                assert(forall|k: u64|
                    old(map)@.contains(k) ==> #[trigger] pre@.contains(k));
            }
            match &events@[i as int] {
                MapEvent::Spawn(o) => {
                    match o {
                        MapObject::Box(b) => {
                            if spec_footprint_supported(b.width as int, b.height as int) {
                                assert_sets_equal!(
                                    old(map)@.union(spec_events_box_cells(events@, i as int))
                                        .union(spec_box_cells(*b))
                                    == old(map)@.union(spec_events_box_cells(events@, i + 1)));
                            } else {
                                assert(spec_events_box_cells(events@, i + 1)
                                    == spec_events_box_cells(events@, i as int));
                            }
                        },
                        MapObject::Collectable(c) => {
                            assert(spec_events_box_cells(events@, i + 1)
                                == spec_events_box_cells(events@, i as int));
                            match &slot {
                                Some((eff, next)) => {
                                    if let SpawnEffect::Item(cell) = eff {
                                        if let MapObject::Collectable(nc) = next {
                                            crate::collectable::lemma_collectable_spawn_post_monotone(
                                                *c,
                                                *animations,
                                                *old(map),
                                                pre,
                                                Some((*cell, *nc)),
                                            );
                                        }
                                    }
                                },
                                None => {
                                    crate::collectable::lemma_collectable_spawn_post_monotone(
                                        *c,
                                        *animations,
                                        *old(map),
                                        pre,
                                        None,
                                    );
                                },
                            }
                        },
                    }
                },
            }
        }
        out.push(slot);
        i = i + 1;
    }
    out
}

} // verus!
