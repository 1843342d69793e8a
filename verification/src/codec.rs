//! The compact level encoding: one version byte, then the level packed with
//! variable-width integers — start position, object count, and per object a
//! kind tag followed by its fields. The whole byte string travels as base64
//! text for clipboard-style sharing. Decoders reject unknown version bytes;
//! encoders always write the current version.

use crate::collectable::{Collectable, CollectableType, CollectableV, SpawnType, SpawnTypeV};
use crate::levels::{Level, LevelV, MapObject, MapObjectType, MapObjectV};
use crate::tile_map::{GridPos, MapBox, TerrainMaterial};
use crate::varint::{
    encode_varint, encode_varint_i32, spec_parse_i32, spec_parse_varint, spec_varint,
    spec_varint_i32,
};
use vstd::assert_seqs_equal;
use vstd::prelude::*;

verus! {

/// The version byte every encoder writes and the only one decoders accept.
pub const CURRENT_VERSION: u8 = 0;

/// Why a compact payload failed to decode. Every failure is surfaced to the
/// caller; none poisons any state.
#[derive(Clone, Copy, Debug, PartialEq, Eq, Structural)]
pub enum DecodeError {
    /// The text was not valid base64.
    InvalidBase64,
    /// The byte string held not even a version byte.
    Empty,
    /// The version byte named a version this decoder does not know.
    UnsupportedVersion(u8),
    /// The payload after the version byte was not a level.
    Malformed,
}

/// The wire index of a terrain material.
pub open spec fn spec_material_index(m: TerrainMaterial) -> u64 {
    match m {
        TerrainMaterial::Gold => 0,
        TerrainMaterial::Brick => 1,
        TerrainMaterial::Copper => 2,
        TerrainMaterial::Iron => 3,
        TerrainMaterial::Clay => 4,
    }
}

/// The wire index of a collectable kind.
pub open spec fn spec_collectable_type_index(c: CollectableType) -> u64 {
    match c {
        CollectableType::Strawberry => 0,
        CollectableType::Bananan => 1,
    }
}

/// The wire index of an object kind tag.
pub open spec fn spec_object_type_index(t: MapObjectType) -> u64 {
    match t {
        MapObjectType::Box => 0,
        MapObjectType::Collectable => 1,
    }
}

/// The wire index of a placement strategy.
pub open spec fn spec_spawn_type_index(s: SpawnTypeV) -> u64 {
    match s {
        SpawnTypeV::NoSpawn => 0,
        SpawnTypeV::RandomRange(_, _) => 1,
        SpawnTypeV::RandomPoints(_) => 2,
        SpawnTypeV::Fixed(_) => 3,
        SpawnTypeV::Order(_, _) => 4,
        SpawnTypeV::OrderDec(_) => 5,
        SpawnTypeV::RandomPointsDec(_) => 6,
    }
}

/// The bytes of a grid position: x, then y.
pub open spec fn spec_encode_pos(p: GridPos) -> Seq<u8> {
    spec_varint_i32(p.x) + spec_varint_i32(p.y)
}

/// The bytes of a position list, in order, without a length prefix.
pub open spec fn spec_encode_pos_list(l: Seq<GridPos>) -> Seq<u8>
    decreases l.len(),
{
    if l.len() == 0 {
        Seq::empty()
    } else {
        spec_encode_pos(l[0]) + spec_encode_pos_list(l.drop_first())
    }
}

/// The bytes of a placement strategy: its index, then its configuration.
/// Lists carry their length first.
pub open spec fn spec_encode_spawn_type(s: SpawnTypeV) -> Seq<u8> {
    spec_varint(spec_spawn_type_index(s)) + match s {
        SpawnTypeV::NoSpawn => Seq::<u8>::empty(),
        SpawnTypeV::RandomRange(a, b) => spec_encode_pos(a) + spec_encode_pos(b),
        SpawnTypeV::RandomPoints(l) => spec_varint(l.len() as u64) + spec_encode_pos_list(l),
        SpawnTypeV::Fixed(p) => spec_encode_pos(p),
        SpawnTypeV::Order(l, idx) => spec_varint(l.len() as u64) + spec_encode_pos_list(l)
            + spec_varint(idx as u64),
        SpawnTypeV::OrderDec(l) => spec_varint(l.len() as u64) + spec_encode_pos_list(l),
        SpawnTypeV::RandomPointsDec(l) => spec_varint(l.len() as u64) + spec_encode_pos_list(l),
    }
}

/// The bytes of a collectable: its kind index, then its strategy.
pub open spec fn spec_encode_collectable(c: CollectableV) -> Seq<u8> {
    spec_varint(spec_collectable_type_index(c.collectable_type)) + spec_encode_spawn_type(
        c.spawn_type,
    )
}

/// The bytes of a terrain block: offset x, y, z, width, height, material.
pub open spec fn spec_encode_box(b: MapBox) -> Seq<u8> {
    spec_varint_i32(b.offset.x) + spec_varint_i32(b.offset.y) + spec_varint_i32(b.offset.z)
        + spec_varint_i32(b.width) + spec_varint_i32(b.height) + spec_varint(
        spec_material_index(b.material),
    )
}

/// The bytes of one placed object: its kind tag, then its fields.
pub open spec fn spec_encode_object(o: MapObjectV) -> Seq<u8> {
    match o {
        MapObjectV::Box(b) => spec_varint(spec_object_type_index(MapObjectType::Box))
            + spec_encode_box(b),
        MapObjectV::Collectable(c) => spec_varint(
            spec_object_type_index(MapObjectType::Collectable),
        ) + spec_encode_collectable(c),
    }
}

/// The bytes of an object list, in order, without a length prefix.
pub open spec fn spec_encode_objects(l: Seq<MapObjectV>) -> Seq<u8>
    decreases l.len(),
{
    if l.len() == 0 {
        Seq::empty()
    } else {
        spec_encode_object(l[0]) + spec_encode_objects(l.drop_first())
    }
}

/// The payload of a level: start position, object count, objects in order.
pub open spec fn spec_level_payload(l: LevelV) -> Seq<u8> {
    spec_encode_pos(l.player_start) + spec_varint(l.objects.len() as u64) + spec_encode_objects(
        l.objects,
    )
}

/// The whole compact byte string of a level: the version byte, then the
/// payload.
pub open spec fn spec_level_bytes(l: LevelV) -> Seq<u8> {
    seq![CURRENT_VERSION] + spec_level_payload(l)
}

/// A strategy whose configuration a machine can hold.
pub open spec fn spec_spawn_wf(s: SpawnTypeV) -> bool {
    match s {
        SpawnTypeV::RandomPoints(l) => l.len() <= usize::MAX,
        SpawnTypeV::Order(l, _) => l.len() <= usize::MAX,
        SpawnTypeV::OrderDec(l) => l.len() <= usize::MAX,
        SpawnTypeV::RandomPointsDec(l) => l.len() <= usize::MAX,
        _ => true,
    }
}

/// An object whose fields a machine can hold.
pub open spec fn spec_object_wf(o: MapObjectV) -> bool {
    match o {
        MapObjectV::Box(_) => true,
        MapObjectV::Collectable(c) => spec_spawn_wf(c.spawn_type),
    }
}

/// A level whose lists a machine can hold.
pub open spec fn spec_level_wf(l: LevelV) -> bool {
    &&& l.objects.len() <= usize::MAX
    &&& forall|i: int| 0 <= i < l.objects.len() ==> spec_object_wf(#[trigger] l.objects[i])
}

fn material_index(m: TerrainMaterial) -> (r: u64)
    ensures
        r == spec_material_index(m),
{
    match m {
        TerrainMaterial::Gold => 0,
        TerrainMaterial::Brick => 1,
        TerrainMaterial::Copper => 2,
        TerrainMaterial::Iron => 3,
        TerrainMaterial::Clay => 4,
    }
}

fn collectable_type_index(c: CollectableType) -> (r: u64)
    ensures
        r == spec_collectable_type_index(c),
{
    match c {
        CollectableType::Strawberry => 0,
        CollectableType::Bananan => 1,
    }
}

/// Appends the bytes of a grid position.
fn encode_pos(out: &mut Vec<u8>, p: GridPos)
    ensures
        final(out)@ == old(out)@ + spec_encode_pos(p),
{
    encode_varint_i32(out, p.x);
    encode_varint_i32(out, p.y);
    proof {
        assert(out@ =~= old(out)@ + spec_encode_pos(p));
    }
}

/// Appends the bytes of a position list.
fn encode_pos_list(out: &mut Vec<u8>, l: &Vec<GridPos>)
    ensures
        final(out)@ == old(out)@ + spec_encode_pos_list(l@),
{
    let mut i: usize = 0;
    proof {
        assert(l@.skip(0) =~= l@);
    }
    while i < l.len()
        invariant
            0 <= i <= l@.len(),
            out@ + spec_encode_pos_list(l@.skip(i as int)) == old(out)@ + spec_encode_pos_list(l@),
        decreases l@.len() - i,
    {
        let ghost before = out@;
        let ghost rest = l@.skip(i as int);
        encode_pos(out, l[i]);
        proof {
            assert(rest.len() > 0);
            assert(rest[0] == l@[i as int]);
            assert(rest.drop_first() =~= l@.skip(i + 1));
            assert(spec_encode_pos_list(rest) == spec_encode_pos(rest[0]) + spec_encode_pos_list(
                rest.drop_first(),
            ));
            assert(out@ + spec_encode_pos_list(l@.skip(i + 1)) =~= before + spec_encode_pos_list(
                rest,
            ));
        }
        i = i + 1;
    }
    proof {
        assert(l@.skip(l@.len() as int) =~= Seq::<GridPos>::empty());
        assert(out@ + Seq::<u8>::empty() =~= out@);
    }
}

/// Appends the bytes of a placement strategy.
fn encode_spawn_type(out: &mut Vec<u8>, s: &SpawnType)
    ensures
        final(out)@ == old(out)@ + spec_encode_spawn_type(s@),
{
    match s {
        SpawnType::NoSpawn => {
            encode_varint(out, 0);
            proof {
                assert(out@ =~= old(out)@ + spec_encode_spawn_type(s@));
            }
        },
        SpawnType::RandomRange(a, b) => {
            encode_varint(out, 1);
            encode_pos(out, *a);
            encode_pos(out, *b);
            proof {
                assert(out@ =~= old(out)@ + spec_encode_spawn_type(s@));
            }
        },
        SpawnType::RandomPoints(l) => {
            encode_varint(out, 2);
            encode_varint(out, l.len() as u64);
            encode_pos_list(out, l);
            proof {
                assert(out@ =~= old(out)@ + spec_encode_spawn_type(s@));
            }
        },
        SpawnType::Fixed(p) => {
            encode_varint(out, 3);
            encode_pos(out, *p);
            proof {
                assert(out@ =~= old(out)@ + spec_encode_spawn_type(s@));
            }
        },
        SpawnType::Order(l, idx) => {
            encode_varint(out, 4);
            encode_varint(out, l.len() as u64);
            encode_pos_list(out, l);
            encode_varint(out, *idx as u64);
            proof {
                assert(out@ =~= old(out)@ + spec_encode_spawn_type(s@));
            }
        },
        SpawnType::OrderDec(l) => {
            encode_varint(out, 5);
            encode_varint(out, l.len() as u64);
            encode_pos_list(out, l);
            proof {
                assert(out@ =~= old(out)@ + spec_encode_spawn_type(s@));
            }
        },
        SpawnType::RandomPointsDec(l) => {
            encode_varint(out, 6);
            encode_varint(out, l.len() as u64);
            encode_pos_list(out, l);
            proof {
                assert(out@ =~= old(out)@ + spec_encode_spawn_type(s@));
            }
        },
    }
}

/// Appends the bytes of one placed object.
fn encode_object(out: &mut Vec<u8>, o: &MapObject)
    ensures
        final(out)@ == old(out)@ + spec_encode_object(o@),
{
    match o {
        MapObject::Box(b) => {
            encode_varint(out, 0);
            encode_varint_i32(out, b.offset.x);
            encode_varint_i32(out, b.offset.y);
            encode_varint_i32(out, b.offset.z);
            encode_varint_i32(out, b.width);
            encode_varint_i32(out, b.height);
            encode_varint(out, material_index(b.material));
            proof {
                assert(out@ =~= old(out)@ + spec_encode_object(o@));
            }
        },
        MapObject::Collectable(c) => {
            encode_varint(out, 1);
            encode_varint(out, collectable_type_index(c.collectable_type));
            encode_spawn_type(out, &c.spawn_type);
            proof {
                assert(out@ =~= old(out)@ + spec_encode_object(o@));
            }
        },
    }
}

impl Level {
    /// The compact bytes of this level: the version byte, then the packed
    /// payload.
    pub fn encode_compact(&self) -> (r: Vec<u8>)
        ensures
            r@ == spec_level_bytes(self@),
    {
        let mut out: Vec<u8> = Vec::new();
        out.push(CURRENT_VERSION);
        encode_pos(&mut out, self.player_start);
        encode_varint(&mut out, self.objects.len() as u64);
        let ghost head = out@;
        let mut i: usize = 0;
        proof {
            assert(self@.objects.skip(0) =~= self@.objects);
        }
        while i < self.objects.len()
            invariant
                0 <= i <= self.objects@.len(),
                out@ + spec_encode_objects(self@.objects.skip(i as int)) == head
                    + spec_encode_objects(self@.objects),
            decreases self.objects@.len() - i,
        {
            let ghost before = out@;
            let ghost rest = self@.objects.skip(i as int);
            proof {
                assert(self@.objects.len() == self.objects@.len());
            }
            encode_object(&mut out, &self.objects[i]);
            proof {
                assert(rest.len() > 0);
                assert(rest[0] == self@.objects[i as int]);
                assert(self@.objects[i as int] == self.objects@[i as int]@);
                assert(rest.drop_first() =~= self@.objects.skip(i + 1));
                assert(spec_encode_objects(rest) == spec_encode_object(rest[0])
                    + spec_encode_objects(rest.drop_first()));
                assert(out@ + spec_encode_objects(self@.objects.skip(i + 1)) =~= before
                    + spec_encode_objects(rest));
            }
            i = i + 1;
        }
        proof {
            assert(self@.objects.skip(self@.objects.len() as int) =~= Seq::<MapObjectV>::empty());
            assert(out@ + Seq::<u8>::empty() =~= out@);
            assert(out@ =~= spec_level_bytes(self@));
        }
        out
    }
}

/// The material of a wire index, if the index names one.
pub open spec fn spec_material_from_index(v: u64) -> Option<TerrainMaterial> {
    if v == 0 {
        Some(TerrainMaterial::Gold)
    } else if v == 1 {
        Some(TerrainMaterial::Brick)
    } else if v == 2 {
        Some(TerrainMaterial::Copper)
    } else if v == 3 {
        Some(TerrainMaterial::Iron)
    } else if v == 4 {
        Some(TerrainMaterial::Clay)
    } else {
        None
    }
}

/// The collectable kind of a wire index, if the index names one.
pub open spec fn spec_collectable_type_from_index(v: u64) -> Option<CollectableType> {
    if v == 0 {
        Some(CollectableType::Strawberry)
    } else if v == 1 {
        Some(CollectableType::Bananan)
    } else {
        None
    }
}

/// What reading a grid position at `i` yields.
pub open spec fn spec_parse_pos(b: Seq<u8>, i: int) -> Option<(GridPos, int)> {
    match spec_parse_i32(b, i) {
        Some((x, j)) => match spec_parse_i32(b, j) {
            Some((y, k)) => Some((GridPos { x, y }, k)),
            None => None,
        },
        None => None,
    }
}

/// What reading `n` grid positions at `i` yields.
pub open spec fn spec_parse_pos_list(b: Seq<u8>, i: int, n: nat) -> Option<(Seq<GridPos>, int)>
    decreases n,
{
    if n == 0 {
        Some((Seq::empty(), i))
    } else {
        match spec_parse_pos(b, i) {
            Some((p, j)) => match spec_parse_pos_list(b, j, (n - 1) as nat) {
                Some((rest, k)) => Some((seq![p] + rest, k)),
                None => None,
            },
            None => None,
        }
    }
}

/// What reading a placement strategy at `i` yields: its index, then its
/// configuration; a foreign index or an unholdable length is refused.
pub open spec fn spec_parse_spawn_type(b: Seq<u8>, i: int) -> Option<(SpawnTypeV, int)> {
    match spec_parse_varint(b, i) {
        Some((tag, j)) => {
            if tag == 0 {
                Some((SpawnTypeV::NoSpawn, j))
            } else if tag == 1 {
                match spec_parse_pos(b, j) {
                    Some((a, k)) => match spec_parse_pos(b, k) {
                        Some((c, m)) => Some((SpawnTypeV::RandomRange(a, c), m)),
                        None => None,
                    },
                    None => None,
                }
            } else if tag == 2 {
                match spec_parse_counted_points(b, j) {
                    Some((l, k)) => Some((SpawnTypeV::RandomPoints(l), k)),
                    None => None,
                }
            } else if tag == 3 {
                match spec_parse_pos(b, j) {
                    Some((p, k)) => Some((SpawnTypeV::Fixed(p), k)),
                    None => None,
                }
            } else if tag == 4 {
                match spec_parse_counted_points(b, j) {
                    Some((l, k)) => match spec_parse_varint(b, k) {
                        Some((idx, m)) => if idx <= usize::MAX as u64 {
                            Some((SpawnTypeV::Order(l, idx as usize), m))
                        } else {
                            None
                        },
                        None => None,
                    },
                    None => None,
                }
            } else if tag == 5 {
                match spec_parse_counted_points(b, j) {
                    Some((l, k)) => Some((SpawnTypeV::OrderDec(l), k)),
                    None => None,
                }
            } else if tag == 6 {
                match spec_parse_counted_points(b, j) {
                    Some((l, k)) => Some((SpawnTypeV::RandomPointsDec(l), k)),
                    None => None,
                }
            } else {
                None
            }
        },
        None => None,
    }
}

/// What reading a length-prefixed position list at `i` yields.
pub open spec fn spec_parse_counted_points(b: Seq<u8>, i: int) -> Option<(Seq<GridPos>, int)> {
    match spec_parse_varint(b, i) {
        Some((n, j)) => {
            if n <= usize::MAX as u64 {
                spec_parse_pos_list(b, j, n as nat)
            } else {
                None
            }
        },
        None => None,
    }
}

/// What reading a terrain block's fields at `i` yields.
pub open spec fn spec_parse_box(b: Seq<u8>, i: int) -> Option<(MapBox, int)> {
    match spec_parse_i32(b, i) {
        Some((x, i1)) => match spec_parse_i32(b, i1) {
            Some((y, i2)) => match spec_parse_i32(b, i2) {
                Some((z, i3)) => match spec_parse_i32(b, i3) {
                    Some((w, i4)) => match spec_parse_i32(b, i4) {
                        Some((h, i5)) => match spec_parse_varint(b, i5) {
                            Some((mi, i6)) => match spec_material_from_index(mi) {
                                Some(m) => Some(
                                    (
                                        MapBox {
                                            offset: crate::tile_map::GridOffset { x, y, z },
                                            width: w,
                                            height: h,
                                            material: m,
                                        },
                                        i6,
                                    ),
                                ),
                                None => None,
                            },
                            None => None,
                        },
                        None => None,
                    },
                    None => None,
                },
                None => None,
            },
            None => None,
        },
        None => None,
    }
}

/// What reading a collectable's fields at `i` yields.
pub open spec fn spec_parse_collectable(b: Seq<u8>, i: int) -> Option<(CollectableV, int)> {
    match spec_parse_varint(b, i) {
        Some((ci, j)) => match spec_collectable_type_from_index(ci) {
            Some(ct) => match spec_parse_spawn_type(b, j) {
                Some((st, k)) => Some(
                    (CollectableV { collectable_type: ct, spawn_type: st }, k),
                ),
                None => None,
            },
            None => None,
        },
        None => None,
    }
}

/// What reading one placed object at `i` yields: its kind tag selects the
/// schema that follows.
pub open spec fn spec_parse_object(b: Seq<u8>, i: int) -> Option<(MapObjectV, int)> {
    match spec_parse_varint(b, i) {
        Some((tag, j)) => {
            if tag == 0 {
                match spec_parse_box(b, j) {
                    Some((x, k)) => Some((MapObjectV::Box(x), k)),
                    None => None,
                }
            } else if tag == 1 {
                match spec_parse_collectable(b, j) {
                    Some((c, k)) => Some((MapObjectV::Collectable(c), k)),
                    None => None,
                }
            } else {
                None
            }
        },
        None => None,
    }
}

/// What reading `n` placed objects at `i` yields.
pub open spec fn spec_parse_objects(b: Seq<u8>, i: int, n: nat) -> Option<(Seq<MapObjectV>, int)>
    decreases n,
{
    if n == 0 {
        Some((Seq::empty(), i))
    } else {
        match spec_parse_object(b, i) {
            Some((o, j)) => match spec_parse_objects(b, j, (n - 1) as nat) {
                Some((rest, k)) => Some((seq![o] + rest, k)),
                None => None,
            },
            None => None,
        }
    }
}

/// What decoding a whole compact byte string yields: the level, or exactly
/// which failure — an empty string, a foreign version byte, or a payload
/// that is not one whole level.
pub open spec fn spec_level_from_bytes(b: Seq<u8>) -> Result<LevelV, DecodeError> {
    if b.len() == 0 {
        Err(DecodeError::Empty)
    } else if b[0] != CURRENT_VERSION {
        Err(DecodeError::UnsupportedVersion(b[0]))
    } else {
        match spec_parse_pos(b, 1) {
            Some((start, i)) => match spec_parse_varint(b, i) {
                Some((n, j)) => {
                    if n <= usize::MAX as u64 {
                        match spec_parse_objects(b, j, n as nat) {
                            Some((objs, k)) => {
                                if k == b.len() {
                                    Ok(LevelV { player_start: start, objects: objs })
                                } else {
                                    Err(DecodeError::Malformed)
                                }
                            },
                            None => Err(DecodeError::Malformed),
                        }
                    } else {
                        Err(DecodeError::Malformed)
                    }
                },
                None => Err(DecodeError::Malformed),
            },
            None => Err(DecodeError::Malformed),
        }
    }
}

/// Reads a grid position at `pos`.
fn read_pos(b: &Vec<u8>, pos: usize) -> (r: Option<(GridPos, usize)>)
    ensures
        match r {
            Some((p, q)) => spec_parse_pos(b@, pos as int) == Some((p, q as int)),
            None => spec_parse_pos(b@, pos as int) is None,
        },
{
    let Some((x, j)) = crate::varint::read_varint_i32(b, pos) else {
        return None;
    };
    let Some((y, k)) = crate::varint::read_varint_i32(b, j) else {
        return None;
    };
    Some((GridPos { x, y }, k))
}

/// Reads `n` grid positions at `pos`.
fn read_pos_list(b: &Vec<u8>, pos: usize, n: u64) -> (r: Option<(Vec<GridPos>, usize)>)
    ensures
        match r {
            Some((l, q)) => spec_parse_pos_list(b@, pos as int, n as nat) == Some((l@, q as int)),
            None => spec_parse_pos_list(b@, pos as int, n as nat) is None,
        },
{
    let mut acc: Vec<GridPos> = Vec::new();
    let mut k: u64 = 0;
    let mut cur: usize = pos;
    while k < n
        invariant
            0 <= k <= n,
            spec_parse_pos_list(b@, cur as int, (n - k) as nat) matches Some((rest, end))
                ==> spec_parse_pos_list(b@, pos as int, n as nat) == Some((acc@ + rest, end)),
            spec_parse_pos_list(b@, cur as int, (n - k) as nat) is None ==> spec_parse_pos_list(
                b@,
                pos as int,
                n as nat,
            ) is None,
        decreases n - k,
    {
        let ghost rem = (n - k) as nat;
        let Some((p, j)) = read_pos(b, cur) else {
            proof {
                assert(spec_parse_pos_list(b@, cur as int, rem) is None);
            }
            return None;
        };
        proof {
            match spec_parse_pos_list(b@, j as int, (rem - 1) as nat) {
                Some((rest2, end2)) => {
                    assert(spec_parse_pos_list(b@, cur as int, rem) == Some(
                        (seq![p] + rest2, end2),
                    ));
                    assert(acc@ + (seq![p] + rest2) =~= (acc@ + seq![p]) + rest2);
                    assert(acc@.push(p) =~= acc@ + seq![p]);
                },
                None => {
                    assert(spec_parse_pos_list(b@, cur as int, rem) is None);
                },
            }
        }
        acc.push(p);
        cur = j;
        k = k + 1;
    }
    proof {
        assert(spec_parse_pos_list(b@, cur as int, 0) == Some(
            (Seq::<GridPos>::empty(), cur as int),
        ));
        assert(acc@ + Seq::<GridPos>::empty() =~= acc@);
    }
    Some((acc, cur))
}

/// Reads a length-prefixed position list at `pos`.
fn read_counted_points(b: &Vec<u8>, pos: usize) -> (r: Option<(Vec<GridPos>, usize)>)
    ensures
        match r {
            Some((l, q)) => spec_parse_counted_points(b@, pos as int) == Some((l@, q as int)),
            None => spec_parse_counted_points(b@, pos as int) is None,
        },
{
    let Some((n, j)) = crate::varint::read_varint(b, pos) else {
        return None;
    };
    if n > usize::MAX as u64 {
        return None;
    }
    read_pos_list(b, j, n)
}

/// Reads a placement strategy at `pos`.
fn read_spawn_type(b: &Vec<u8>, pos: usize) -> (r: Option<(SpawnType, usize)>)
    ensures
        match r {
            Some((s, q)) => spec_parse_spawn_type(b@, pos as int) == Some((s@, q as int)),
            None => spec_parse_spawn_type(b@, pos as int) is None,
        },
{
    let Some((tag, j)) = crate::varint::read_varint(b, pos) else {
        return None;
    };
    if tag == 0 {
        Some((SpawnType::NoSpawn, j))
    } else if tag == 1 {
        let Some((a, k)) = read_pos(b, j) else {
            return None;
        };
        let Some((c, m)) = read_pos(b, k) else {
            return None;
        };
        Some((SpawnType::RandomRange(a, c), m))
    } else if tag == 2 {
        let Some((l, k)) = read_counted_points(b, j) else {
            return None;
        };
        Some((SpawnType::RandomPoints(l), k))
    } else if tag == 3 {
        let Some((p, k)) = read_pos(b, j) else {
            return None;
        };
        Some((SpawnType::Fixed(p), k))
    } else if tag == 4 {
        let Some((l, k)) = read_counted_points(b, j) else {
            return None;
        };
        let Some((idx, m)) = crate::varint::read_varint(b, k) else {
            return None;
        };
        if idx > usize::MAX as u64 {
            return None;
        }
        Some((SpawnType::Order(l, idx as usize), m))
    } else if tag == 5 {
        let Some((l, k)) = read_counted_points(b, j) else {
            return None;
        };
        Some((SpawnType::OrderDec(l), k))
    } else if tag == 6 {
        let Some((l, k)) = read_counted_points(b, j) else {
            return None;
        };
        Some((SpawnType::RandomPointsDec(l), k))
    } else {
        None
    }
}

/// Reads a terrain block's fields at `pos`.
fn read_box(b: &Vec<u8>, pos: usize) -> (r: Option<(MapBox, usize)>)
    ensures
        match r {
            Some((x, q)) => spec_parse_box(b@, pos as int) == Some((x, q as int)),
            None => spec_parse_box(b@, pos as int) is None,
        },
{
    let Some((x, i1)) = crate::varint::read_varint_i32(b, pos) else {
        return None;
    };
    let Some((y, i2)) = crate::varint::read_varint_i32(b, i1) else {
        return None;
    };
    let Some((z, i3)) = crate::varint::read_varint_i32(b, i2) else {
        return None;
    };
    let Some((w, i4)) = crate::varint::read_varint_i32(b, i3) else {
        return None;
    };
    let Some((h, i5)) = crate::varint::read_varint_i32(b, i4) else {
        return None;
    };
    let Some((mi, i6)) = crate::varint::read_varint(b, i5) else {
        return None;
    };
    let material = if mi == 0 {
        TerrainMaterial::Gold
    } else if mi == 1 {
        TerrainMaterial::Brick
    } else if mi == 2 {
        TerrainMaterial::Copper
    } else if mi == 3 {
        TerrainMaterial::Iron
    } else if mi == 4 {
        TerrainMaterial::Clay
    } else {
        return None;
    };
    Some(
        (
            MapBox {
                offset: crate::tile_map::GridOffset { x, y, z },
                width: w,
                height: h,
                material,
            },
            i6,
        ),
    )
}

/// Reads a collectable's fields at `pos`.
fn read_collectable(b: &Vec<u8>, pos: usize) -> (r: Option<(Collectable, usize)>)
    ensures
        match r {
            Some((c, q)) => spec_parse_collectable(b@, pos as int) == Some((c@, q as int)),
            None => spec_parse_collectable(b@, pos as int) is None,
        },
{
    let Some((ci, j)) = crate::varint::read_varint(b, pos) else {
        return None;
    };
    let ct = if ci == 0 {
        CollectableType::Strawberry
    } else if ci == 1 {
        CollectableType::Bananan
    } else {
        return None;
    };
    let Some((st, k)) = read_spawn_type(b, j) else {
        return None;
    };
    Some((Collectable { collectable_type: ct, spawn_type: st }, k))
}

/// Reads one placed object at `pos`.
fn read_object(b: &Vec<u8>, pos: usize) -> (r: Option<(MapObject, usize)>)
    ensures
        match r {
            Some((o, q)) => spec_parse_object(b@, pos as int) == Some((o@, q as int)),
            None => spec_parse_object(b@, pos as int) is None,
        },
{
    let Some((tag, j)) = crate::varint::read_varint(b, pos) else {
        return None;
    };
    if tag == 0 {
        let Some((x, k)) = read_box(b, j) else {
            return None;
        };
        Some((MapObject::Box(x), k))
    } else if tag == 1 {
        let Some((c, k)) = read_collectable(b, j) else {
            return None;
        };
        Some((MapObject::Collectable(c), k))
    } else {
        None
    }
}

/// The shapes of a list of objects, in order.
pub open spec fn spec_deep_objects(s: Seq<MapObject>) -> Seq<MapObjectV> {
    Seq::new(s.len(), |i: int| s[i]@)
}

/// Reads `n` placed objects at `pos`.
fn read_objects(b: &Vec<u8>, pos: usize, n: u64) -> (r: Option<(Vec<MapObject>, usize)>)
    ensures
        match r {
            Some((l, q)) => spec_parse_objects(b@, pos as int, n as nat) == Some(
                (spec_deep_objects(l@), q as int),
            ),
            None => spec_parse_objects(b@, pos as int, n as nat) is None,
        },
{
    let mut acc: Vec<MapObject> = Vec::new();
    let mut k: u64 = 0;
    let mut cur: usize = pos;
    while k < n
        invariant
            0 <= k <= n,
            spec_parse_objects(b@, cur as int, (n - k) as nat) matches Some((rest, end))
                ==> spec_parse_objects(b@, pos as int, n as nat) == Some(
                (spec_deep_objects(acc@) + rest, end),
            ),
            spec_parse_objects(b@, cur as int, (n - k) as nat) is None ==> spec_parse_objects(
                b@,
                pos as int,
                n as nat,
            ) is None,
        decreases n - k,
    {
        let ghost rem = (n - k) as nat;
        let Some((o, j)) = read_object(b, cur) else {
            proof {
                assert(spec_parse_objects(b@, cur as int, rem) is None);
            }
            return None;
        };
        proof {
            match spec_parse_objects(b@, j as int, (rem - 1) as nat) {
                Some((rest2, end2)) => {
                    assert(spec_parse_objects(b@, cur as int, rem) == Some(
                        (seq![o@] + rest2, end2),
                    ));
                    assert(spec_deep_objects(acc@) + (seq![o@] + rest2) =~= (spec_deep_objects(
                        acc@,
                    ) + seq![o@]) + rest2);
                    assert(spec_deep_objects(acc@.push(o)) =~= spec_deep_objects(acc@)
                        + seq![o@]);
                },
                None => {
                    assert(spec_parse_objects(b@, cur as int, rem) is None);
                },
            }
        }
        acc.push(o);
        cur = j;
        k = k + 1;
    }
    proof {
        assert(spec_parse_objects(b@, cur as int, 0) == Some(
            (Seq::<MapObjectV>::empty(), cur as int),
        ));
        assert(spec_deep_objects(acc@) + Seq::<MapObjectV>::empty() =~= spec_deep_objects(acc@));
    }
    Some((acc, cur))
}

impl Level {
    /// Decodes a compact byte string back into a level, or says exactly why
    /// the bytes are not one: empty input, a version this decoder does not
    /// know, or a payload that is not one whole level.
    pub fn decode_compact(bytes: &Vec<u8>) -> (r: Result<Level, DecodeError>)
        ensures
            match spec_level_from_bytes(bytes@) {
                Ok(m) => r matches Ok(l) && l@ == m,
                Err(e) => r matches Err(e2) && e2 == e,
            },
    {
        if bytes.len() == 0 {
            return Err(DecodeError::Empty);
        }
        let version = bytes[0];
        if version != CURRENT_VERSION {
            return Err(DecodeError::UnsupportedVersion(version));
        }
        let Some((start, i)) = read_pos(bytes, 1) else {
            return Err(DecodeError::Malformed);
        };
        let Some((n, j)) = crate::varint::read_varint(bytes, i) else {
            return Err(DecodeError::Malformed);
        };
        if n > usize::MAX as u64 {
            return Err(DecodeError::Malformed);
        }
        let Some((objs, k)) = read_objects(bytes, j, n) else {
            return Err(DecodeError::Malformed);
        };
        if k != bytes.len() {
            return Err(DecodeError::Malformed);
        }
        let level = Level { player_start: start, objects: objs };
        proof {
            assert(level@.objects =~= spec_deep_objects(level.objects@));
        }
        Ok(level)
    }
}

/// Splitting an embedded concatenation: each half stands embedded at its own
/// offset.
proof fn lemma_embed_split(b: Seq<u8>, i: int, s1: Seq<u8>, s2: Seq<u8>)
    requires
        0 <= i,
        i + s1.len() + s2.len() <= b.len(),
        b.subrange(i, i + s1.len() + s2.len()) == s1 + s2,
    ensures
        b.subrange(i, i + s1.len()) == s1,
        b.subrange(i + s1.len(), i + s1.len() + s2.len()) == s2,
{
    let whole = b.subrange(i, i + s1.len() + s2.len());
    assert_seqs_equal!(b.subrange(i, i + s1.len()) == s1, k => {
        assert(b.subrange(i, i + s1.len())[k] == whole[k]);
        assert(whole[k] == (s1 + s2)[k]);
    });
    assert_seqs_equal!(b.subrange(i + s1.len(), i + s1.len() + s2.len()) == s2, k => {
        assert(b.subrange(i + s1.len(), i + s1.len() + s2.len())[k] == whole[k + s1.len()]);
        assert(whole[k + s1.len()] == (s1 + s2)[k + s1.len()]);
    });
}

/// Reading back an embedded grid position yields it unchanged.
proof fn lemma_pos_rt(b: Seq<u8>, i: int, p: GridPos)
    requires
        0 <= i,
        i + spec_encode_pos(p).len() <= b.len(),
        b.subrange(i, i + spec_encode_pos(p).len()) == spec_encode_pos(p),
    ensures
        spec_parse_pos(b, i) == Some((p, i + spec_encode_pos(p).len())),
{
    let vx = spec_varint_i32(p.x);
    let vy = spec_varint_i32(p.y);
    lemma_embed_split(b, i, vx, vy);
    crate::varint::lemma_varint_i32_roundtrip(b, i, p.x);
    crate::varint::lemma_varint_i32_roundtrip(b, i + vx.len(), p.y);
}

/// Reading back an embedded position list of known count yields it unchanged.
proof fn lemma_pos_list_rt(b: Seq<u8>, i: int, l: Seq<GridPos>)
    requires
        0 <= i,
        i + spec_encode_pos_list(l).len() <= b.len(),
        b.subrange(i, i + spec_encode_pos_list(l).len()) == spec_encode_pos_list(l),
    ensures
        spec_parse_pos_list(b, i, l.len()) == Some((l, i + spec_encode_pos_list(l).len())),
    decreases l.len(),
{
    if l.len() == 0 {
        assert(l =~= Seq::<GridPos>::empty());
    } else {
        let e0 = spec_encode_pos(l[0]);
        let erest = spec_encode_pos_list(l.drop_first());
        lemma_embed_split(b, i, e0, erest);
        lemma_pos_rt(b, i, l[0]);
        lemma_pos_list_rt(b, i + e0.len(), l.drop_first());
        assert(seq![l[0]] + l.drop_first() =~= l);
    }
}

/// Reading back an embedded length-prefixed position list yields it
/// unchanged.
proof fn lemma_counted_points_rt(b: Seq<u8>, i: int, l: Seq<GridPos>)
    requires
        l.len() <= usize::MAX,
        0 <= i,
        i + (spec_varint(l.len() as u64) + spec_encode_pos_list(l)).len() <= b.len(),
        b.subrange(i, i + (spec_varint(l.len() as u64) + spec_encode_pos_list(l)).len())
            == spec_varint(l.len() as u64) + spec_encode_pos_list(l),
    ensures
        spec_parse_counted_points(b, i) == Some(
            (l, i + (spec_varint(l.len() as u64) + spec_encode_pos_list(l)).len()),
        ),
{
    let vn = spec_varint(l.len() as u64);
    let el = spec_encode_pos_list(l);
    lemma_embed_split(b, i, vn, el);
    crate::varint::lemma_varint_roundtrip(b, i, l.len() as u64);
    lemma_pos_list_rt(b, i + vn.len(), l);
}

/// Reading back an embedded placement strategy yields it unchanged.
#[verifier::rlimit(100)]
proof fn lemma_spawn_rt(b: Seq<u8>, i: int, s: SpawnTypeV)
    requires
        spec_spawn_wf(s),
        0 <= i,
        i + spec_encode_spawn_type(s).len() <= b.len(),
        b.subrange(i, i + spec_encode_spawn_type(s).len()) == spec_encode_spawn_type(s),
    ensures
        spec_parse_spawn_type(b, i) == Some((s, i + spec_encode_spawn_type(s).len())),
{
    let vt = spec_varint(spec_spawn_type_index(s));
    match s {
        SpawnTypeV::NoSpawn => {
            lemma_embed_split(b, i, vt, Seq::<u8>::empty());
            assert(vt + Seq::<u8>::empty() =~= vt);
            crate::varint::lemma_varint_roundtrip(b, i, 0);
        },
        SpawnTypeV::RandomRange(p, q) => {
            let ep = spec_encode_pos(p);
            let eq = spec_encode_pos(q);
            lemma_embed_split(b, i, vt, ep + eq);
            crate::varint::lemma_varint_roundtrip(b, i, 1);
            lemma_embed_split(b, i + vt.len(), ep, eq);
            lemma_pos_rt(b, i + vt.len(), p);
            lemma_pos_rt(b, i + vt.len() + ep.len(), q);
        },
        SpawnTypeV::RandomPoints(l) => {
            let ec = spec_varint(l.len() as u64) + spec_encode_pos_list(l);
            lemma_embed_split(b, i, vt, ec);
            crate::varint::lemma_varint_roundtrip(b, i, 2);
            lemma_counted_points_rt(b, i + vt.len(), l);
        },
        SpawnTypeV::Fixed(p) => {
            let ep = spec_encode_pos(p);
            lemma_embed_split(b, i, vt, ep);
            crate::varint::lemma_varint_roundtrip(b, i, 3);
            lemma_pos_rt(b, i + vt.len(), p);
        },
        SpawnTypeV::Order(l, idx) => {
            let ec = spec_varint(l.len() as u64) + spec_encode_pos_list(l);
            let ei = spec_varint(idx as u64);
            lemma_embed_split(b, i, vt, ec + ei);
            crate::varint::lemma_varint_roundtrip(b, i, 4);
            lemma_embed_split(b, i + vt.len(), ec, ei);
            lemma_counted_points_rt(b, i + vt.len(), l);
            crate::varint::lemma_varint_roundtrip(b, i + vt.len() + ec.len(), idx as u64);
        },
        SpawnTypeV::OrderDec(l) => {
            let ec = spec_varint(l.len() as u64) + spec_encode_pos_list(l);
            lemma_embed_split(b, i, vt, ec);
            crate::varint::lemma_varint_roundtrip(b, i, 5);
            lemma_counted_points_rt(b, i + vt.len(), l);
        },
        SpawnTypeV::RandomPointsDec(l) => {
            let ec = spec_varint(l.len() as u64) + spec_encode_pos_list(l);
            lemma_embed_split(b, i, vt, ec);
            crate::varint::lemma_varint_roundtrip(b, i, 6);
            lemma_counted_points_rt(b, i + vt.len(), l);
        },
    }
}

/// Reading back an embedded terrain block yields it unchanged.
#[verifier::rlimit(100)]
proof fn lemma_box_rt(b: Seq<u8>, i: int, x: MapBox)
    requires
        0 <= i,
        i + spec_encode_box(x).len() <= b.len(),
        b.subrange(i, i + spec_encode_box(x).len()) == spec_encode_box(x),
    ensures
        spec_parse_box(b, i) == Some((x, i + spec_encode_box(x).len())),
{
    let v1 = spec_varint_i32(x.offset.x);
    let v2 = spec_varint_i32(x.offset.y);
    let v3 = spec_varint_i32(x.offset.z);
    let v4 = spec_varint_i32(x.width);
    let v5 = spec_varint_i32(x.height);
    let v6 = spec_varint(spec_material_index(x.material));
    lemma_embed_split(b, i, v1 + v2 + v3 + v4 + v5, v6);
    lemma_embed_split(b, i, v1 + v2 + v3 + v4, v5);
    lemma_embed_split(b, i, v1 + v2 + v3, v4);
    lemma_embed_split(b, i, v1 + v2, v3);
    lemma_embed_split(b, i, v1, v2);
    crate::varint::lemma_varint_i32_roundtrip(b, i, x.offset.x);
    crate::varint::lemma_varint_i32_roundtrip(b, i + v1.len(), x.offset.y);
    crate::varint::lemma_varint_i32_roundtrip(b, i + v1.len() + v2.len(), x.offset.z);
    crate::varint::lemma_varint_i32_roundtrip(b, i + v1.len() + v2.len() + v3.len(), x.width);
    crate::varint::lemma_varint_i32_roundtrip(
        b,
        i + v1.len() + v2.len() + v3.len() + v4.len(),
        x.height,
    );
    crate::varint::lemma_varint_roundtrip(
        b,
        i + v1.len() + v2.len() + v3.len() + v4.len() + v5.len(),
        spec_material_index(x.material),
    );
}

/// Reading back an embedded collectable yields it unchanged.
#[verifier::rlimit(100)]
proof fn lemma_collectable_rt(b: Seq<u8>, i: int, c: CollectableV)
    requires
        spec_spawn_wf(c.spawn_type),
        0 <= i,
        i + spec_encode_collectable(c).len() <= b.len(),
        b.subrange(i, i + spec_encode_collectable(c).len()) == spec_encode_collectable(c),
    ensures
        spec_parse_collectable(b, i) == Some((c, i + spec_encode_collectable(c).len())),
{
    let vc = spec_varint(spec_collectable_type_index(c.collectable_type));
    let es = spec_encode_spawn_type(c.spawn_type);
    lemma_embed_split(b, i, vc, es);
    crate::varint::lemma_varint_roundtrip(b, i, spec_collectable_type_index(c.collectable_type));
    lemma_spawn_rt(b, i + vc.len(), c.spawn_type);
}

/// Reading back one embedded placed object yields it unchanged.
#[verifier::rlimit(100)]
proof fn lemma_object_rt(b: Seq<u8>, i: int, o: MapObjectV)
    requires
        spec_object_wf(o),
        0 <= i,
        i + spec_encode_object(o).len() <= b.len(),
        b.subrange(i, i + spec_encode_object(o).len()) == spec_encode_object(o),
    ensures
        spec_parse_object(b, i) == Some((o, i + spec_encode_object(o).len())),
{
    match o {
        MapObjectV::Box(x) => {
            let vt = spec_varint(0);
            let eb = spec_encode_box(x);
            lemma_embed_split(b, i, vt, eb);
            crate::varint::lemma_varint_roundtrip(b, i, 0);
            lemma_box_rt(b, i + vt.len(), x);
        },
        MapObjectV::Collectable(c) => {
            let vt = spec_varint(1);
            let ec = spec_encode_collectable(c);
            lemma_embed_split(b, i, vt, ec);
            crate::varint::lemma_varint_roundtrip(b, i, 1);
            lemma_collectable_rt(b, i + vt.len(), c);
        },
    }
}

/// Reading back an embedded object list of known count yields it unchanged.
#[verifier::rlimit(100)]
proof fn lemma_objects_rt(b: Seq<u8>, i: int, l: Seq<MapObjectV>)
    requires
        forall|k: int| 0 <= k < l.len() ==> spec_object_wf(#[trigger] l[k]),
        0 <= i,
        i + spec_encode_objects(l).len() <= b.len(),
        b.subrange(i, i + spec_encode_objects(l).len()) == spec_encode_objects(l),
    ensures
        spec_parse_objects(b, i, l.len()) == Some((l, i + spec_encode_objects(l).len())),
    decreases l.len(),
{
    if l.len() == 0 {
        assert(l =~= Seq::<MapObjectV>::empty());
    } else {
        let e0 = spec_encode_object(l[0]);
        let erest = spec_encode_objects(l.drop_first());
        lemma_embed_split(b, i, e0, erest);
        lemma_object_rt(b, i, l[0]);
        assert(forall|k: int|
            0 <= k < l.drop_first().len() ==> spec_object_wf(#[trigger] l.drop_first()[k]));
        lemma_objects_rt(b, i + e0.len(), l.drop_first());
        assert(seq![l[0]] + l.drop_first() =~= l);
    }
}

/// The round trip of the compact encoding: for every level a machine can
/// hold, decoding its compact bytes yields that level back — in particular
/// an equal start, an equal object count, and equal per-index object kinds.
#[verifier::rlimit(100)]
pub proof fn lemma_compact_round_trip(l: LevelV)
    requires
        spec_level_wf(l),
    ensures
        spec_level_from_bytes(spec_level_bytes(l)) == Ok::<LevelV, DecodeError>(l),
        spec_level_from_bytes(spec_level_bytes(l)) matches Ok(m)
            && crate::levels::spec_level_equivalent(m, l),
{
    let b = spec_level_bytes(l);
    let ep = spec_encode_pos(l.player_start);
    let vn = spec_varint(l.objects.len() as u64);
    let eo = spec_encode_objects(l.objects);
    let payload = spec_level_payload(l);
    assert(b == seq![CURRENT_VERSION] + payload);
    assert(b.len() == 1 + payload.len());
    assert(b[0] == CURRENT_VERSION);
    assert_seqs_equal!(b.subrange(1, 1 + payload.len() as int) == payload, k => {
        assert(b[k + 1] == (seq![CURRENT_VERSION] + payload)[k + 1]);
    });
    lemma_embed_split(b, 1, ep + vn, eo);
    lemma_embed_split(b, 1, ep, vn);
    lemma_pos_rt(b, 1, l.player_start);
    crate::varint::lemma_varint_roundtrip(b, 1 + ep.len() as int, l.objects.len() as u64);
    lemma_objects_rt(b, 1 + ep.len() as int + vn.len() as int, l.objects);
    assert(1 + ep.len() + vn.len() + eo.len() == b.len());
}

/// The base64 text of a byte string: standard alphabet, padded. What it
/// looks like only the base64 encoder knows; that equal bytes give equal
/// text, and that decoding inverts it, is all the contracts use.
pub uninterp spec fn b64_of(bytes: Seq<u8>) -> Seq<char>;

/// Relies on `base64::encode` (standard alphabet, padded): the result is a
/// pure function of the input bytes.
#[verifier::external_body]
fn b64_encode(bytes: &Vec<u8>) -> (r: String)
    ensures
        r@ == b64_of(bytes@),
{
    base64::encode(bytes.as_slice())
}

/// Relies on `base64::decode` (standard alphabet, padded): it inverts
/// `base64::encode` — on any text that encoder produced, decode succeeds and
/// returns exactly the encoded bytes, and it fails only on text no byte
/// string encodes to.
#[verifier::external_body]
fn b64_decode(s: &str) -> (r: Option<Vec<u8>>)
    ensures
        match r {
            Some(d) => forall|bts: Seq<u8>| s@ == #[trigger] b64_of(bts) ==> d@ == bts,
            None => forall|bts: Seq<u8>| s@ != #[trigger] b64_of(bts),
        },
{
    match base64::decode(s) {
        Ok(v) => Some(v),
        Err(_) => None,
    }
}

impl Level {
    /// The compact sharing text of this level: its compact bytes as base64.
    pub fn to_base64(&self) -> (r: String)
        ensures
            r@ == b64_of(spec_level_bytes(self@)),
    {
        let bytes = self.encode_compact();
        b64_encode(&bytes)
    }

    /// Decodes compact sharing text back into a level. On any text that
    /// `to_base64` produced, the outcome is exactly what decoding the
    /// underlying bytes yields; text that is not valid base64 is refused.
    pub fn from_base64(s: &str) -> (r: Result<Level, DecodeError>)
        ensures
            forall|bts: Seq<u8>|
                s@ == #[trigger] b64_of(bts) ==> match spec_level_from_bytes(bts) {
                    Ok(m) => r matches Ok(l) && l@ == m,
                    Err(e) => r matches Err(e2) && e2 == e,
                },
    {
        let Some(bytes) = b64_decode(s) else {
            return Err(DecodeError::InvalidBase64);
        };
        Level::decode_compact(&bytes)
    }
}

} // verus!
