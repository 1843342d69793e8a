use phox::animation::{Animation, Animations};
use phox::collectable::{Collectable, CollectableType, SpawnType};
use phox::levels::{load_map, spawn_map_objects, Level, MapEvent, MapObject, SpawnEffect};
use phox::player::{
    change_player, dubble_jump, ground_detection, move_player, Grounded, GroundedCheck, Jump,
    Player, Velocity,
};
use phox::tile_map::{
    square_sprite_layout, update_map_with_squares, GridOffset, GridPos, MapBox, MapData,
    SpriteCell, TerrainMaterial, TerrainType,
};

fn item_animations() -> Animations {
    let mut a = Animations::new();
    a.add_animation(Animation::Strawberry, 1);
    a.add_animation(Animation::Bananas, 2);
    a
}

#[test]
fn random_placement_respects_occupancy() {
    let animations = item_animations();
    // A fully occupied rectangle: placement gives up instead of looping.
    let mut full = MapData::new();
    for x in 0..2 {
        for y in 0..2 {
            full.set_full(GridPos { x, y });
        }
    }
    let blocked = Collectable {
        collectable_type: CollectableType::Strawberry,
        spawn_type: SpawnType::RandomRange(GridPos { x: 0, y: 0 }, GridPos { x: 2, y: 2 }),
    };
    assert!(blocked.spawn(&animations, &full).is_none());

    // With free cells, whatever comes back lies in the rectangle and on a
    // free cell.
    let mut half = MapData::new();
    half.set_full(GridPos { x: 0, y: 0 });
    let open = Collectable {
        collectable_type: CollectableType::Strawberry,
        spawn_type: SpawnType::RandomRange(GridPos { x: 0, y: 0 }, GridPos { x: 8, y: 8 }),
    };
    for _ in 0..20 {
        let (cell, next) = open.spawn(&animations, &half).expect("free cells exist");
        assert!(0 <= cell.x && cell.x < 8);
        assert!(0 <= cell.y && cell.y < 8);
        assert!(half.is_empty(cell));
        assert!(matches!(next.spawn_type, SpawnType::RandomRange(_, _)));
    }
    // A degenerate rectangle declines rather than panics.
    let flat = Collectable {
        collectable_type: CollectableType::Strawberry,
        spawn_type: SpawnType::RandomRange(GridPos { x: 3, y: 0 }, GridPos { x: 3, y: 9 }),
    };
    assert!(flat.spawn(&animations, &MapData::new()).is_none());
}

#[test]
fn fixed_spawn_consumes_itself() {
    let animations = item_animations();
    let map = MapData::new();
    let c = Collectable {
        collectable_type: CollectableType::Strawberry,
        spawn_type: SpawnType::Fixed(GridPos { x: 5, y: 5 }),
    };
    let (cell, next) = c.spawn(&animations, &map).expect("fixed spawns");
    assert_eq!(cell, GridPos { x: 5, y: 5 });
    assert!(matches!(next.spawn_type, SpawnType::NoSpawn));
    // The next generation never spawns again.
    assert!(next.spawn(&animations, &map).is_none());
}

#[test]
fn order_dec_runs_out() {
    let animations = item_animations();
    let map = MapData::new();
    let c = Collectable {
        collectable_type: CollectableType::Bananan,
        spawn_type: SpawnType::OrderDec(vec![GridPos { x: 1, y: 1 }, GridPos { x: 2, y: 2 }]),
    };
    // Entries leave back to front, one per generation.
    let (cell1, gen2) = c.spawn(&animations, &map).expect("two entries left");
    assert_eq!(cell1, GridPos { x: 2, y: 2 });
    let (cell2, gen3) = gen2.spawn(&animations, &map).expect("one entry left");
    assert_eq!(cell2, GridPos { x: 1, y: 1 });
    assert!(matches!(gen3.spawn_type, SpawnType::NoSpawn));
    // After the list is spent, the next pickup yields no respawn.
    assert!(gen3.spawn(&animations, &map).is_none());
}

#[test]
fn order_cycles_through_its_list() {
    let animations = item_animations();
    let map = MapData::new();
    let list = vec![GridPos { x: 0, y: 0 }, GridPos { x: 1, y: 0 }, GridPos { x: 2, y: 0 }];
    let c = Collectable {
        collectable_type: CollectableType::Strawberry,
        spawn_type: SpawnType::Order(list, 0),
    };
    let (c1, g1) = c.spawn(&animations, &map).unwrap();
    assert_eq!(c1, GridPos { x: 1, y: 0 });
    let (c2, g2) = g1.spawn(&animations, &map).unwrap();
    assert_eq!(c2, GridPos { x: 2, y: 0 });
    let (c3, _) = g2.spawn(&animations, &map).unwrap();
    assert_eq!(c3, GridPos { x: 0, y: 0 });
}

#[test]
fn random_points_picks_members() {
    let animations = item_animations();
    let map = MapData::new();
    let pts = vec![GridPos { x: 4, y: 4 }, GridPos { x: 6, y: 6 }];
    let c = Collectable {
        collectable_type: CollectableType::Bananan,
        spawn_type: SpawnType::RandomPoints(pts.clone()),
    };
    for _ in 0..10 {
        let (cell, next) = c.spawn(&animations, &map).expect("list is nonempty");
        assert!(pts.contains(&cell));
        assert!(matches!(next.spawn_type, SpawnType::RandomPoints(_)));
    }
    // Without replacement, a single-entry list is spent in one spawn.
    let last = Collectable {
        collectable_type: CollectableType::Bananan,
        spawn_type: SpawnType::RandomPointsDec(vec![GridPos { x: 9, y: 9 }]),
    };
    let (cell, next) = last.spawn(&animations, &map).unwrap();
    assert_eq!(cell, GridPos { x: 9, y: 9 });
    assert!(matches!(next.spawn_type, SpawnType::NoSpawn));
}

#[test]
fn missing_animation_skips_the_spawn() {
    let empty = Animations::new();
    let map = MapData::new();
    let c = Collectable {
        collectable_type: CollectableType::Strawberry,
        spawn_type: SpawnType::Fixed(GridPos { x: 0, y: 0 }),
    };
    assert!(c.spawn(&empty, &map).is_none());
}

#[test]
fn terrain_marks_its_cells() {
    let mut map = MapData::new();
    let b = MapBox {
        offset: GridOffset { x: 10, y: 4, z: 0 },
        width: 3,
        height: 2,
        material: TerrainMaterial::Iron,
    };
    b.set_full(&mut map);
    for dx in 0..3 {
        for dy in 0..2 {
            assert!(!map.is_empty(GridPos { x: 10 + dx, y: 4 + dy }));
        }
    }
    assert!(map.is_empty(GridPos { x: 9, y: 4 }));
    assert!(map.is_empty(GridPos { x: 13, y: 4 }));
    assert!(map.is_empty(GridPos { x: 10, y: 6 }));
    map.clear();
    assert!(map.is_empty(GridPos { x: 10, y: 4 }));
}

#[test]
fn sprite_layout_footprints() {
    let single = square_sprite_layout(1, 1).expect("supported");
    assert_eq!(
        single,
        vec![SpriteCell { terrain: TerrainType::Block, dx_half: 0, dy_half: 0 }]
    );
    let column = square_sprite_layout(1, 3).expect("supported");
    assert_eq!(
        column,
        vec![
            SpriteCell { terrain: TerrainType::OneUp, dx_half: 0, dy_half: -32 },
            SpriteCell { terrain: TerrainType::OneVertical, dx_half: 0, dy_half: 0 },
            SpriteCell { terrain: TerrainType::OneDown, dx_half: 0, dy_half: 32 },
        ]
    );
    let row = square_sprite_layout(2, 1).expect("supported");
    assert_eq!(
        row,
        vec![
            SpriteCell { terrain: TerrainType::OneLeft, dx_half: -16, dy_half: 0 },
            SpriteCell { terrain: TerrainType::OneRight, dx_half: 16, dy_half: 0 },
        ]
    );
    let block = square_sprite_layout(2, 2).expect("supported");
    assert_eq!(block.len(), 4);
    assert_eq!(block[0], SpriteCell { terrain: TerrainType::BottomLeft, dx_half: -16, dy_half: -16 });
    // Larger irregular footprints are unsupported, not fatal.
    assert!(square_sprite_layout(3, 2).is_none());
    assert!(square_sprite_layout(0, 5).is_none());
}

#[test]
fn box_positions_and_sprites() {
    let b = MapBox {
        offset: GridOffset { x: 10, y: 4, z: 0 },
        width: 1,
        height: 1,
        material: TerrainMaterial::Gold,
    };
    let centre = b.calc_pos_half();
    assert_eq!((centre.x, centre.y, centre.z), (320, 128, 0));
    let wide = MapBox {
        offset: GridOffset { x: 0, y: 0, z: 1 },
        width: 2,
        height: 1,
        material: TerrainMaterial::Brick,
    };
    let c2 = wide.calc_pos_half();
    assert_eq!((c2.x, c2.y, c2.z), (16, 0, 32));
    assert_eq!(TerrainMaterial::Gold.to_sprite(TerrainType::Block), 215);
    assert_eq!(TerrainMaterial::Clay.to_sprite(TerrainType::OneLeft), 12);
}

#[test]
fn object_spawn_dispatch() {
    let animations = item_animations();
    let mut map = MapData::new();
    let boxed = MapObject::Box(MapBox {
        offset: GridOffset { x: 0, y: 0, z: 0 },
        width: 2,
        height: 2,
        material: TerrainMaterial::Copper,
    });
    let (effect, next) = boxed.spawn(&animations, &mut map).expect("supported footprint");
    match effect {
        SpawnEffect::Terrain(pos, sprites) => {
            assert_eq!((pos.x, pos.y), (16, 16));
            assert_eq!(sprites.len(), 4);
        },
        SpawnEffect::Item(_) => panic!("terrain expected"),
    }
    assert!(matches!(next, MapObject::Box(_)));
    assert!(!map.is_empty(GridPos { x: 0, y: 0 }));
    assert!(!map.is_empty(GridPos { x: 1, y: 1 }));

    let unsupported = MapObject::Box(MapBox {
        offset: GridOffset { x: 5, y: 5, z: 0 },
        width: 4,
        height: 3,
        material: TerrainMaterial::Gold,
    });
    let mut map2 = MapData::new();
    assert!(unsupported.spawn(&animations, &mut map2).is_none());
    assert!(map2.is_empty(GridPos { x: 5, y: 5 }));
}

#[test]
fn reloading_a_level() {
    let level = Level {
        player_start: GridPos { x: 3, y: 4 },
        objects: vec![
            MapObject::Box(MapBox {
                offset: GridOffset { x: 0, y: 0, z: 0 },
                width: 1,
                height: 1,
                material: TerrainMaterial::Gold,
            }),
            MapObject::Collectable(Collectable {
                collectable_type: CollectableType::Strawberry,
                spawn_type: SpawnType::Fixed(GridPos { x: 1, y: 1 }),
            }),
        ],
    };
    let mut map = MapData::new();
    map.set_full(GridPos { x: 7, y: 7 });
    let (events, start, spawns) = load_map(&level, &mut map);
    assert_eq!(
        events,
        vec![
            phox::ghost::GhostEvents::ClearGhosts,
            phox::ghost::GhostEvents::ClearTrail,
        ]
    );
    assert_eq!(start, GridPos { x: 3, y: 4 });
    // The old occupancy is gone; terrain re-marks itself as it respawns.
    assert!(map.is_empty(GridPos { x: 7, y: 7 }));
    assert_eq!(spawns.len(), 2);
    assert!(matches!(spawns[0], MapEvent::Spawn(MapObject::Box(_))));
    assert!(matches!(spawns[1], MapEvent::Spawn(MapObject::Collectable(_))));
}

#[test]
fn movement_decisions() {
    // A grounded jump overrides everything.
    let mut v = Velocity { x: 10, y: 0 };
    move_player(&mut v, true, false, true, false, true, false, false);
    assert_eq!(v, Velocity { x: 10, y: 250 });
    // A fall request caps upward motion only.
    let mut v2 = Velocity { x: 0, y: 100 };
    move_player(&mut v2, false, true, false, false, false, false, false);
    assert_eq!(v2.y, 0);
    let mut v3 = Velocity { x: 0, y: -50 };
    move_player(&mut v3, false, true, false, false, false, false, false);
    assert_eq!(v3.y, -50);
    // Running accelerates up to the clamp, and a wall blocks it.
    let mut v4 = Velocity { x: 180, y: 0 };
    move_player(&mut v4, false, false, false, true, true, false, false);
    assert_eq!(v4.x, 200);
    let mut v5 = Velocity { x: 0, y: 0 };
    move_player(&mut v5, false, false, true, false, true, true, false);
    assert_eq!(v5.x, 0);
}

#[test]
fn double_jump_spends_its_charge() {
    let mut jump = Jump(false);
    let mut v = Velocity { x: 0, y: -30 };
    // Regaining ground recharges; a mid-air press then spends the charge.
    dubble_jump(&mut jump, &mut v, true, false);
    assert!(jump.0);
    dubble_jump(&mut jump, &mut v, false, true);
    assert!(!jump.0);
    assert_eq!(v.y, 250);
    // Without vertical motion the press changes nothing.
    let mut jump2 = Jump(true);
    let mut v2 = Velocity { x: 5, y: 0 };
    dubble_jump(&mut jump2, &mut v2, false, true);
    assert!(jump2.0);
    assert_eq!(v2.y, 0);
}

#[test]
fn grounded_hysteresis() {
    let mut check = GroundedCheck::default();
    let mut grounded = Grounded(false);
    // Five still samples in a row flip the flag on.
    for _ in 0..4 {
        ground_detection(&mut check, &mut grounded, 0);
        assert!(!grounded.0);
    }
    ground_detection(&mut check, &mut grounded, 0);
    assert!(grounded.0);
    // Falling heights wear the streak down until the flag drops.
    ground_detection(&mut check, &mut grounded, -100);
    ground_detection(&mut check, &mut grounded, -200);
    ground_detection(&mut check, &mut grounded, -300);
    ground_detection(&mut check, &mut grounded, -400);
    assert!(!grounded.0);
}

#[test]
fn character_cycle() {
    let mut p = Player::Mask;
    change_player(&mut p, true, false);
    assert_eq!(p, Player::Ninja);
    change_player(&mut p, false, true);
    assert_eq!(p, Player::Pink);
    change_player(&mut p, false, false);
    assert_eq!(p, Player::Pink);
    change_player(&mut p, true, false);
    assert_eq!(p, Player::Guy);
    change_player(&mut p, true, false);
    assert_eq!(p, Player::Mask);
}

#[test]
fn animation_registry_lookup() {
    let mut a = Animations::new();
    assert_eq!(a.get_animation(Animation::MaskIdle), None);
    a.add_animation(Animation::MaskIdle, 11);
    a.add_atlas(Animation::Terrain, 22);
    assert_eq!(a.get_animation(Animation::MaskIdle), Some(11));
    assert_eq!(a.get_animation(Animation::MaskRun), None);
    assert_eq!(a.get_atlas(Animation::Terrain), Some(22));
    assert_eq!(a.get_atlas(Animation::MaskIdle), None);
}

#[test]
fn correction_pass_remarks_all_blocks() {
    let blocks = vec![
        MapBox {
            offset: GridOffset { x: 0, y: 0, z: 0 },
            width: 2,
            height: 1,
            material: TerrainMaterial::Gold,
        },
        MapBox {
            offset: GridOffset { x: 5, y: 5, z: 0 },
            width: 1,
            height: 2,
            material: TerrainMaterial::Clay,
        },
    ];
    let mut map = MapData::new();
    update_map_with_squares(&blocks, &mut map);
    assert!(!map.is_empty(GridPos { x: 0, y: 0 }));
    assert!(!map.is_empty(GridPos { x: 1, y: 0 }));
    assert!(!map.is_empty(GridPos { x: 5, y: 5 }));
    assert!(!map.is_empty(GridPos { x: 5, y: 6 }));
    assert!(map.is_empty(GridPos { x: 2, y: 0 }));
    assert!(map.is_empty(GridPos { x: 6, y: 5 }));
}

#[test]
fn draining_spawn_requests() {
    let animations = item_animations();
    let mut map = MapData::new();
    let events = vec![
        MapEvent::Spawn(MapObject::Box(MapBox {
            offset: GridOffset { x: 2, y: 3, z: 0 },
            width: 1,
            height: 1,
            material: TerrainMaterial::Gold,
        })),
        MapEvent::Spawn(MapObject::Collectable(Collectable {
            collectable_type: CollectableType::Strawberry,
            spawn_type: SpawnType::NoSpawn,
        })),
        MapEvent::Spawn(MapObject::Collectable(Collectable {
            collectable_type: CollectableType::Bananan,
            spawn_type: SpawnType::Fixed(GridPos { x: 7, y: 8 }),
        })),
        MapEvent::Spawn(MapObject::Box(MapBox {
            offset: GridOffset { x: 9, y: 9, z: 0 },
            width: 5,
            height: 4,
            material: TerrainMaterial::Clay,
        })),
    ];
    let slots = spawn_map_objects(&events, &animations, &mut map);
    // One slot per request, in request order.
    assert_eq!(slots.len(), 4);
    match &slots[0] {
        Some((SpawnEffect::Terrain(pos, sprites), MapObject::Box(_))) => {
            assert_eq!((pos.x, pos.y, pos.z), (64, 96, 0));
            assert_eq!(sprites.len(), 1);
            assert_eq!(sprites[0].terrain, TerrainType::Block);
        },
        _ => panic!("the supported block materializes"),
    }
    assert!(slots[1].is_none());
    match &slots[2] {
        Some((SpawnEffect::Item(cell), MapObject::Collectable(next))) => {
            assert_eq!(*cell, GridPos { x: 7, y: 8 });
            assert!(matches!(next.spawn_type, SpawnType::NoSpawn));
        },
        _ => panic!("the fixed collectable materializes"),
    }
    // The unsupported footprint declines and marks nothing.
    assert!(slots[3].is_none());
    assert!(!map.is_empty(GridPos { x: 2, y: 3 }));
    assert!(map.is_empty(GridPos { x: 9, y: 9 }));
    assert!(map.is_empty(GridPos { x: 7, y: 8 }));
}

#[test]
fn random_points_spawns_when_nonempty() {
    let animations = item_animations();
    let map = MapData::new();
    // A nonempty pick-with-replacement list with a resolved animation always
    // materializes.
    let c = Collectable {
        collectable_type: CollectableType::Strawberry,
        spawn_type: SpawnType::RandomPoints(vec![GridPos { x: 3, y: 3 }]),
    };
    for _ in 0..5 {
        let (cell, next) = c.spawn(&animations, &map).expect("nonempty list spawns");
        assert_eq!(cell, GridPos { x: 3, y: 3 });
        assert!(matches!(next.spawn_type, SpawnType::RandomPoints(_)));
    }
}
