//! Collectable items and their placement strategies. Spawning a collectable
//! picks the next cell its strategy dictates and hands back the descriptor
//! that the next respawn of the same logical collectable must use: strategies
//! that consume their configuration advance it here.

use crate::animation::{Animation, Animations};
use crate::tile_map::{GridPos, MapData};
use vstd::prelude::*;

verus! {

/// What a collectable looks like and counts as.
#[derive(Clone, Copy, Debug, PartialEq, Eq, Structural)]
pub enum CollectableType {
    Strawberry,
    Bananan,
}

/// The animation identifier a collectable kind is drawn with.
pub open spec fn spec_collectable_animation(c: CollectableType) -> Animation {
    match c {
        CollectableType::Strawberry => Animation::Strawberry,
        CollectableType::Bananan => Animation::Bananas,
    }
}

pub fn collectable_animation(c: CollectableType) -> (r: Animation)
    ensures
        r == spec_collectable_animation(c),
{
    match c {
        CollectableType::Strawberry => Animation::Strawberry,
        CollectableType::Bananan => Animation::Bananas,
    }
}

/// Where and how a collectable repositions itself each time it is spawned.
#[derive(Clone, Debug)]
pub enum SpawnType {
    /// Never spawns again.
    NoSpawn,
    /// A uniformly random free cell inside a rectangle, retried a bounded
    /// number of times against the occupancy map.
    RandomRange(GridPos, GridPos),
    /// A uniformly random pick from a fixed list, with replacement.
    RandomPoints(Vec<GridPos>),
    /// A fixed cell, used once.
    Fixed(GridPos),
    /// Cyclic order through a list, remembering the last index used.
    Order(Vec<GridPos>, usize),
    /// Back-to-front through a list, consuming one entry per spawn.
    OrderDec(Vec<GridPos>),
    /// A random pick from a list, without replacement.
    RandomPointsDec(Vec<GridPos>),
}

/// A collectable description as a level stores it.
#[derive(Clone, Debug)]
pub struct Collectable {
    pub collectable_type: CollectableType,
    pub spawn_type: SpawnType,
}

impl Default for Collectable {
    fn default() -> (r: Self)
        ensures
            r.collectable_type == CollectableType::Strawberry,
            r.spawn_type is NoSpawn,
    {
        Collectable { collectable_type: CollectableType::Strawberry, spawn_type: SpawnType::NoSpawn }
    }
}

/// The mathematical shape of a placement strategy: lists as sequences.
pub enum SpawnTypeV {
    NoSpawn,
    RandomRange(GridPos, GridPos),
    RandomPoints(Seq<GridPos>),
    Fixed(GridPos),
    Order(Seq<GridPos>, usize),
    OrderDec(Seq<GridPos>),
    RandomPointsDec(Seq<GridPos>),
}

impl View for SpawnType {
    type V = SpawnTypeV;

    open spec fn view(&self) -> SpawnTypeV {
        match self {
            SpawnType::NoSpawn => SpawnTypeV::NoSpawn,
            SpawnType::RandomRange(a, b) => SpawnTypeV::RandomRange(*a, *b),
            SpawnType::RandomPoints(l) => SpawnTypeV::RandomPoints(l@),
            SpawnType::Fixed(p) => SpawnTypeV::Fixed(*p),
            SpawnType::Order(l, i) => SpawnTypeV::Order(l@, *i),
            SpawnType::OrderDec(l) => SpawnTypeV::OrderDec(l@),
            SpawnType::RandomPointsDec(l) => SpawnTypeV::RandomPointsDec(l@),
        }
    }
}

/// The mathematical shape of a collectable description.
pub struct CollectableV {
    pub collectable_type: CollectableType,
    pub spawn_type: SpawnTypeV,
}

impl View for Collectable {
    type V = CollectableV;

    open spec fn view(&self) -> CollectableV {
        CollectableV { collectable_type: self.collectable_type, spawn_type: self.spawn_type@ }
    }
}

impl Collectable {
    /// A deep copy; `Collectable` owns point lists, so `Clone` alone says
    /// nothing about the copy in contracts.
    pub fn duplicate(&self) -> (r: Collectable)
        ensures
            r@ == self@,
    {
        let spawn_type = match &self.spawn_type {
            SpawnType::NoSpawn => SpawnType::NoSpawn,
            SpawnType::RandomRange(a, b) => SpawnType::RandomRange(*a, *b),
            SpawnType::RandomPoints(l) => SpawnType::RandomPoints(copy_points(l)),
            SpawnType::Fixed(p) => SpawnType::Fixed(*p),
            SpawnType::Order(l, i) => SpawnType::Order(copy_points(l), *i),
            SpawnType::OrderDec(l) => SpawnType::OrderDec(copy_points(l)),
            SpawnType::RandomPointsDec(l) => SpawnType::RandomPointsDec(copy_points(l)),
        };
        Collectable { collectable_type: self.collectable_type, spawn_type }
    }
}

/// Retry bound for random placement against the occupancy map.
pub const MAX_RNG_TRYS: usize = 50;

/// Relies on `rand::Rng::gen_range` on `rand::thread_rng`: a sample from an
/// `lo..hi` range lies in the range; the call panics only on an empty range,
/// which the precondition rules out.
#[verifier::external_body]
fn rand_in_range(lo: i64, hi: i64) -> (r: i64)
    requires
        lo < hi,
    ensures
        lo <= r < hi,
{
    rand::Rng::gen_range(&mut rand::thread_rng(), lo..hi)
}

/// Relies on `rand::Rng::gen_range` on `rand::thread_rng`, instantiated at
/// `usize` to pick an index: a sample from `0..len` is below `len`; the call
/// panics only on an empty range, which the precondition rules out.
#[verifier::external_body]
fn rand_index(len: usize) -> (r: usize)
    requires
        0 < len,
    ensures
        r < len,
{
    rand::Rng::gen_range(&mut rand::thread_rng(), 0..len)
}

fn copy_points(v: &Vec<GridPos>) -> (r: Vec<GridPos>)
    ensures
        r@ == v@,
{
    let mut r: Vec<GridPos> = Vec::new();
    let mut i: usize = 0;
    while i < v.len()
        invariant
            0 <= i <= v@.len(),
            r@ == v@.subrange(0, i as int),
        decreases v@.len() - i,
    {
        r.push(v[i]);
        i = i + 1;
    }
    proof {
        assert(r@ =~= v@);
    }
    r
}

/// Holds when `s` is an order strategy over `list` with last-used index `idx`.
pub open spec fn spec_is_order(s: SpawnType, list: Seq<GridPos>, idx: usize) -> bool {
    &&& s matches SpawnType::Order(l, i)
    &&& l@ == list
    &&& i == idx
}

/// Holds when `s` consumes `list` back to front.
pub open spec fn spec_is_order_dec(s: SpawnType, list: Seq<GridPos>) -> bool {
    &&& s matches SpawnType::OrderDec(l)
    &&& l@ == list
}

/// Holds when `s` picks from `list` without replacement.
pub open spec fn spec_is_random_points_dec(s: SpawnType, list: Seq<GridPos>) -> bool {
    &&& s matches SpawnType::RandomPointsDec(l)
    &&& l@ == list
}

/// Everything `Collectable::spawn` promises of its result `r`, for a
/// collectable `c` spawned against the given registry and occupancy map.
pub open spec fn spec_collectable_spawn_post(
    c: Collectable,
    animations: Animations,
    map: MapData,
    r: Option<(GridPos, Collectable)>,
) -> bool {
    &&& (r matches Some((cell, next)) ==> next.collectable_type == c.collectable_type)
    &&& (c.spawn_type is NoSpawn ==> r is None)
    &&& (animations.spec_get_animation(spec_collectable_animation(c.collectable_type))
        is None ==> r is None)
    &&& (c.spawn_type matches SpawnType::RandomRange(a, b) ==> (r matches Some(
        (cell, next),
    ) ==> {
        &&& spec_min(a.x as int, b.x as int) <= cell.x < spec_max(a.x as int, b.x as int)
        &&& spec_min(a.y as int, b.y as int) <= cell.y < spec_max(a.y as int, b.y as int)
        &&& !map.spec_contains(cell)
        &&& next.spawn_type matches SpawnType::RandomRange(a2, b2) && a2 == a && b2 == b
    }))
    &&& (c.spawn_type matches SpawnType::RandomPoints(pts) ==> {
        &&& pts@.len() == 0 ==> r is None
        &&& (pts@.len() > 0 && animations.spec_get_animation(
            spec_collectable_animation(c.collectable_type),
        ) is Some) ==> r is Some
        &&& (r matches Some((cell, next)) ==> pts@.contains(cell)
            && spec_points_of(next.spawn_type) == Some(pts@)
            && next.spawn_type is RandomPoints)
    })
    &&& (c.spawn_type matches SpawnType::Fixed(p) ==> (r matches Some((cell, next)) ==> cell
        == p && next.spawn_type is NoSpawn))
    &&& ((c.spawn_type matches SpawnType::Fixed(p) && animations.spec_get_animation(
        spec_collectable_animation(c.collectable_type),
    ) is Some) ==> r is Some)
    &&& (c.spawn_type matches SpawnType::Order(list, idx) ==> {
        &&& list@.len() == 0 ==> r is None
        &&& (list@.len() > 0 && animations.spec_get_animation(
            spec_collectable_animation(c.collectable_type),
        ) is Some) ==> r is Some
        &&& (r matches Some((cell, next)) ==> {
            &&& spec_is_order(
                next.spawn_type,
                list@,
                ((idx + 1) % list@.len() as int) as usize,
            )
            &&& cell == list@[(idx + 1) % list@.len() as int]
        })
    })
    &&& (c.spawn_type matches SpawnType::OrderDec(list) ==> {
        &&& list@.len() == 0 ==> r is None
        &&& (list@.len() > 0 && animations.spec_get_animation(
            spec_collectable_animation(c.collectable_type),
        ) is Some) ==> r is Some
        &&& (r matches Some((cell, next)) ==> {
            &&& cell == list@.last()
            &&& (list@.len() == 1 ==> next.spawn_type is NoSpawn)
            &&& (list@.len() > 1 ==> spec_is_order_dec(
                next.spawn_type,
                list@.drop_last(),
            ))
        })
    })
    &&& (c.spawn_type matches SpawnType::RandomPointsDec(pts) ==> {
        &&& pts@.len() == 0 ==> r is None
        &&& (pts@.len() > 0 && animations.spec_get_animation(
            spec_collectable_animation(c.collectable_type),
        ) is Some) ==> r is Some
        &&& (r matches Some((cell, next)) ==> exists|i: int|
            {
                &&& 0 <= i < pts@.len()
                &&& cell == #[trigger] pts@[i]
                &&& (pts@.len() == 1 ==> next.spawn_type is NoSpawn)
                &&& (pts@.len() > 1 ==> spec_is_random_points_dec(
                    next.spawn_type,
                    pts@.remove(i),
                ))
            })
    })
}

/// The spawn promise only reads the occupancy map through "this cell is
/// free", so it carries over from any map to a map that covers no more.
pub proof fn lemma_collectable_spawn_post_monotone(
    c: Collectable,
    animations: Animations,
    smaller: MapData,
    larger: MapData,
    r: Option<(GridPos, Collectable)>,
)
    requires
        smaller@.subset_of(larger@),
        spec_collectable_spawn_post(c, animations, larger, r),
    ensures
        spec_collectable_spawn_post(c, animations, smaller, r),
{
}

impl Collectable {
    /// Decides the cell this collectable materializes at, if any, and the
    /// descriptor its next generation spawns from. Strategies with an empty
    /// configuration, a missing animation, or an exhausted retry budget
    /// decline by returning `None`; nothing panics.
    pub fn spawn(&self, animations: &Animations, map: &MapData) -> (r: Option<
        (GridPos, Collectable),
    >)
        requires
            self.spawn_type matches SpawnType::Order(l, i) ==> i < usize::MAX,
        ensures
            spec_collectable_spawn_post(*self, *animations, *map, r),
    {
        let mut next = Collectable {
            collectable_type: self.collectable_type,
            spawn_type: SpawnType::NoSpawn,
        };
        let ghost mut pick: int = 0;
        let pos: GridPos = match &self.spawn_type {
            SpawnType::NoSpawn => {
                return None;
            },
            SpawnType::RandomRange(a, b) => {
                let x_lo: i32 = if a.x <= b.x {
                    a.x
                } else {
                    b.x
                };
                let x_hi: i32 = if a.x <= b.x {
                    b.x
                } else {
                    a.x
                };
                let y_lo: i32 = if a.y <= b.y {
                    a.y
                } else {
                    b.y
                };
                let y_hi: i32 = if a.y <= b.y {
                    b.y
                } else {
                    a.y
                };
                if x_lo == x_hi || y_lo == y_hi {
                    return None;
                }
                let mut trys: usize = 0;
                let mut found: Option<GridPos> = None;
                while trys <= MAX_RNG_TRYS && found.is_none()
                    invariant
                        trys <= MAX_RNG_TRYS + 1,
                        x_lo < x_hi,
                        y_lo < y_hi,
                        spec_min(a.x as int, b.x as int) == x_lo,
                        spec_max(a.x as int, b.x as int) == x_hi,
                        spec_min(a.y as int, b.y as int) == y_lo,
                        spec_max(a.y as int, b.y as int) == y_hi,
                        found matches Some(cell) ==> {
                            &&& x_lo <= cell.x < x_hi
                            &&& y_lo <= cell.y < y_hi
                            &&& !map.spec_contains(cell)
                        },
                    decreases MAX_RNG_TRYS + 1 - trys,
                {
                    trys = trys + 1;
                    let x: i64 = rand_in_range(x_lo as i64, x_hi as i64);
                    let y: i64 = rand_in_range(y_lo as i64, y_hi as i64);
                    let cell = GridPos { x: x as i32, y: y as i32 };
                    if map.is_empty(cell) {
                        found = Some(cell);
                    }
                }
                let Some(cell) = found else {
                    return None;
                };
                next.spawn_type = SpawnType::RandomRange(*a, *b);
                cell
            },
            SpawnType::RandomPoints(points) => {
                if points.len() == 0 {
                    return None;
                }
                let i: usize = rand_index(points.len());
                next.spawn_type = SpawnType::RandomPoints(copy_points(points));
                proof {
                    assert(points@[i as int] == points@[i as int]);
                    assert(points@.contains(points@[i as int]));
                }
                points[i]
            },
            SpawnType::Fixed(p) => {
                next.spawn_type = SpawnType::NoSpawn;
                *p
            },
            SpawnType::Order(list, index) => {
                if list.len() == 0 {
                    return None;
                }
                let new_index: usize = (*index + 1) % list.len();
                next.spawn_type = SpawnType::Order(copy_points(list), new_index);
                list[new_index]
            },
            SpawnType::OrderDec(list) => {
                if list.len() == 0 {
                    return None;
                }
                let cell = list[list.len() - 1];
                if list.len() == 1 {
                    next.spawn_type = SpawnType::NoSpawn;
                } else {
                    let mut shorter = copy_points(list);
                    shorter.pop();
                    proof {
                        assert(shorter@ =~= list@.drop_last());
                    }
                    next.spawn_type = SpawnType::OrderDec(shorter);
                }
                cell
            },
            SpawnType::RandomPointsDec(points) => {
                if points.len() == 0 {
                    return None;
                }
                let i: usize = rand_index(points.len());
                proof {
                    pick = i as int;
                }
                let cell = points[i];
                if points.len() == 1 {
                    next.spawn_type = SpawnType::NoSpawn;
                } else {
                    let mut shorter = copy_points(points);
                    shorter.remove(i);
                    next.spawn_type = SpawnType::RandomPointsDec(shorter);
                    proof {
                        assert(spec_is_random_points_dec(next.spawn_type, points@.remove(i as int)));
                    }
                }
                cell
            },
        };
        let anim = animations.get_animation(collectable_animation(self.collectable_type));
        if anim.is_none() {
            return None;
        }
        proof {
            match &self.spawn_type {
                SpawnType::RandomPointsDec(ptsg) => {
                    if ptsg@.len() > 0 {
                        assert(0 <= pick < ptsg@.len() && pos == ptsg@[pick] && (ptsg@.len() == 1
                            ==> next.spawn_type is NoSpawn) && (ptsg@.len() > 1
                            ==> spec_is_random_points_dec(next.spawn_type, ptsg@.remove(pick))));
                    }
                },
                _ => {},
            }
        }
        Some((pos, next))
    }
}

/// The list a list-based strategy carries, if it carries one.
pub open spec fn spec_points_of(s: SpawnType) -> Option<Seq<GridPos>> {
    match s {
        SpawnType::RandomPoints(l) => Some(l@),
        SpawnType::Order(l, _) => Some(l@),
        SpawnType::OrderDec(l) => Some(l@),
        SpawnType::RandomPointsDec(l) => Some(l@),
        _ => None,
    }
}

/// The smaller of two values.
pub open spec fn spec_min(a: int, b: int) -> int {
    if a <= b {
        a
    } else {
        b
    }
}

/// The larger of two values.
pub open spec fn spec_max(a: int, b: int) -> int {
    if a <= b {
        b
    } else {
        a
    }
}

} // verus!
