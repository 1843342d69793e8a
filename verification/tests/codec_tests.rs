use bincode::Options;
use phox::collectable::{Collectable, CollectableType, SpawnType};
use phox::levels::{Level, MapObject, MapObjectType};
use phox::codec::DecodeError;
use phox::tile_map::{GridOffset, GridPos, MapBox, TerrainMaterial};

fn fixture_level() -> Level {
    Level {
        player_start: GridPos { x: 0, y: 0 },
        objects: vec![
            MapObject::Box(MapBox {
                offset: GridOffset { x: 10, y: 4, z: 0 },
                width: 1,
                height: 1,
                material: TerrainMaterial::Gold,
            }),
            MapObject::Collectable(Collectable {
                collectable_type: CollectableType::Strawberry,
                spawn_type: SpawnType::Fixed(GridPos { x: 5, y: 5 }),
            }),
        ],
    }
}

#[test]
fn bincode_serde() {
    let level = fixture_level();
    let ser = level.to_base64();
    assert_eq!(ser, "AAAAAgAUCAACAgABAAMKCg==");
    println!("De = {};\nLen = {}\n", ser, ser.len());
    let de = Level::from_base64(&ser).expect("To Get level from str");
    assert!(level == de);
}

#[test]
fn test_serialize_level() {
    let level = fixture_level();
    let txt = level.to_text();
    assert_eq!(
        String::from_utf8(txt.clone()).unwrap(),
        "(start:(0,0),objects:{box:((10,4,0),1,1,gold),collectable:(strawberry,fixed((5,5))),})"
    );
    let de = Level::from_text(&txt).expect("text level parses");
    assert!(level == de);
}

#[test]
fn compact_round_trip_deep() {
    let level = Level {
        player_start: GridPos { x: -7, y: 300 },
        objects: vec![
            MapObject::Box(MapBox {
                offset: GridOffset { x: -2, y: 100000, z: -1 },
                width: 3,
                height: 1,
                material: TerrainMaterial::Clay,
            }),
            MapObject::Collectable(Collectable {
                collectable_type: CollectableType::Bananan,
                spawn_type: SpawnType::RandomRange(
                    GridPos { x: -4, y: -4 },
                    GridPos { x: 9, y: 9 },
                ),
            }),
            MapObject::Collectable(Collectable {
                collectable_type: CollectableType::Strawberry,
                spawn_type: SpawnType::Order(
                    vec![GridPos { x: 1, y: 2 }, GridPos { x: 3, y: 4 }],
                    1,
                ),
            }),
            MapObject::Collectable(Collectable {
                collectable_type: CollectableType::Strawberry,
                spawn_type: SpawnType::OrderDec(vec![GridPos { x: 8, y: 8 }]),
            }),
            MapObject::Collectable(Collectable {
                collectable_type: CollectableType::Bananan,
                spawn_type: SpawnType::RandomPointsDec(vec![
                    GridPos { x: 0, y: 0 },
                    GridPos { x: -1, y: 1 },
                ]),
            }),
            MapObject::Collectable(Collectable {
                collectable_type: CollectableType::Strawberry,
                spawn_type: SpawnType::NoSpawn,
            }),
            MapObject::Collectable(Collectable {
                collectable_type: CollectableType::Strawberry,
                spawn_type: SpawnType::RandomPoints(vec![GridPos { x: 6, y: -6 }]),
            }),
        ],
    };
    let bytes = level.encode_compact();
    let de = Level::decode_compact(&bytes).expect("compact bytes decode");
    assert!(level == de);
    // A byte-exact re-encoding shows every field survived, not only the tags.
    assert_eq!(de.encode_compact(), bytes);

    let txt = level.to_text();
    let de2 = Level::from_text(&txt).expect("text decodes");
    assert!(level == de2);
    assert_eq!(de2.to_text(), txt);
}

#[test]
fn text_accepts_case_and_whitespace() {
    let loose = b" ( Start : ( 5 , -3 ) , OBJECTS : { Box : ( (1,2,3), 2, 2, GOLD ) , } ) "
        .to_vec();
    let de = Level::from_text(&loose).expect("tolerant parse");
    assert_eq!(de.player_start, GridPos { x: 5, y: -3 });
    assert_eq!(de.objects.len(), 1);
    assert_eq!(de.objects[0].object_type(), MapObjectType::Box);
    match &de.objects[0] {
        MapObject::Box(b) => {
            assert_eq!(b.offset, GridOffset { x: 1, y: 2, z: 3 });
            assert_eq!(b.width, 2);
            assert_eq!(b.height, 2);
            assert!(matches!(b.material, TerrainMaterial::Gold));
        },
        _ => panic!("expected a box"),
    }
}

#[test]
fn text_rejects_malformed() {
    assert!(Level::from_text(&b"".to_vec()).is_none());
    assert!(Level::from_text(&b"(start:(0,0),objects:{)".to_vec()).is_none());
    assert!(Level::from_text(&b"(start:(0,0),objects:{})trailing".to_vec()).is_none());
    assert!(Level::from_text(&b"(begin:(0,0),objects:{})".to_vec()).is_none());
}

#[test]
fn version_rejection() {
    let empty: Vec<u8> = Vec::new();
    assert_eq!(Level::decode_compact(&empty), Err(DecodeError::Empty));
    let wrong = vec![1u8, 0, 0, 0];
    assert_eq!(
        Level::decode_compact(&wrong),
        Err(DecodeError::UnsupportedVersion(1))
    );
    // "AQ==" is the base64 of the single byte 1: an unsupported version.
    assert_eq!(
        Level::from_base64("AQ=="),
        Err(DecodeError::UnsupportedVersion(1))
    );
    // The base64 of no bytes at all decodes to the empty payload.
    assert_eq!(Level::from_base64(""), Err(DecodeError::Empty));
    assert_eq!(Level::from_base64("!!!"), Err(DecodeError::InvalidBase64));
    // A current-version payload whose body is garbage is malformed: 254 is a
    // foreign marker byte. "AP4=" is the base64 of [0, 254].
    assert_eq!(Level::from_base64("AP4="), Err(DecodeError::Malformed));
}

#[test]
fn compact_rejects_trailing_bytes() {
    let level = fixture_level();
    let mut bytes = level.encode_compact();
    bytes.push(0);
    assert_eq!(Level::decode_compact(&bytes), Err(DecodeError::Malformed));
}

#[test]
fn varint_matches_reference_encoder() {
    let values: [u64; 10] = [
        0,
        1,
        250,
        251,
        255,
        65535,
        65536,
        123456789,
        4294967296,
        u64::MAX,
    ];
    for v in values {
        let mut ours: Vec<u8> = Vec::new();
        phox::varint::encode_varint(&mut ours, v);
        let reference = bincode::options().with_varint_encoding().serialize(&v).unwrap();
        assert_eq!(ours, reference, "u64 value {}", v);
    }
    let signed: [i32; 7] = [0, 1, -1, -2, i32::MIN, i32::MAX, -123456];
    for v in signed {
        let mut ours: Vec<u8> = Vec::new();
        phox::varint::encode_varint_i32(&mut ours, v);
        let reference = bincode::options().with_varint_encoding().serialize(&v).unwrap();
        assert_eq!(ours, reference, "i32 value {}", v);
    }
}

#[test]
fn varint_read_back() {
    let values: [u64; 6] = [0, 250, 251, 65536, 4294967295, u64::MAX];
    for v in values {
        let mut bytes: Vec<u8> = Vec::new();
        phox::varint::encode_varint(&mut bytes, v);
        let (got, end) = phox::varint::read_varint(&bytes, 0).unwrap();
        assert_eq!(got, v);
        assert_eq!(end, bytes.len());
    }
    let signed: [i32; 5] = [0, -1, 1, i32::MIN, i32::MAX];
    for v in signed {
        let mut bytes: Vec<u8> = Vec::new();
        phox::varint::encode_varint_i32(&mut bytes, v);
        let (got, end) = phox::varint::read_varint_i32(&bytes, 0).unwrap();
        assert_eq!(got, v);
        assert_eq!(end, bytes.len());
    }
}

#[test]
fn level_equality_is_weak() {
    let a = fixture_level();
    let mut b = fixture_level();
    // Same kinds at every index: equal, although the fields differ.
    match &mut b.objects[0] {
        MapObject::Box(x) => x.material = TerrainMaterial::Clay,
        _ => unreachable!(),
    }
    assert!(a == b);
    // A different count breaks it.
    b.objects.pop();
    assert!(!(a == b));
    // A different kind at an index breaks it.
    let mut c = fixture_level();
    c.objects[0] = MapObject::Collectable(Collectable {
        collectable_type: CollectableType::Strawberry,
        spawn_type: SpawnType::NoSpawn,
    });
    assert!(!(a == c));
}
