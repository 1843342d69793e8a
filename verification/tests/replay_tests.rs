use phox::animation::{Animation, Animations};
use phox::ghost::{
    auto_ghost, drift_correct, get_collectable, handle_ghost_events, kill_player, replay_sequence,
    save_player_offset, save_player_state, update_frame, update_ghost, GhostActor, GhostEvents,
    GhostTimer, InputEntry, PlayerFrame, PlayerInputs, Score, SyncOffset, WorldPos,
    GHOST_IDLE_TICKS, SYNCFRAME,
};
use phox::player::{Jump, Player, Velocity};

fn entry(vx: i64, vy: i64, jump: bool, player: Player) -> InputEntry {
    InputEntry { velocity: Velocity { x: vx, y: vy }, jump: Jump(jump), player }
}

fn ready_animations() -> Animations {
    let mut a = Animations::new();
    a.add_animation(Animation::MaskIdle, 7);
    a
}

#[test]
fn ghost_replay_determinism() {
    let mut inputs = PlayerInputs::new();
    let log = vec![
        entry(10, 0, false, Player::Mask),
        entry(20, 250, true, Player::Mask),
        entry(-30, 5, false, Player::Ninja),
        entry(0, 0, false, Player::Ninja),
        entry(200, -40, true, Player::Guy),
    ];
    for e in &log {
        inputs.add_input(*e);
    }
    // A ghost spawned when the log holds exactly these entries replays them
    // one per tick, in order.
    let replayed = replay_sequence(&inputs);
    assert_eq!(replayed.len(), log.len());
    for (i, e) in log.iter().enumerate() {
        assert_eq!(replayed[i], *e);
    }
}

#[test]
fn ghost_coasts_past_the_log() {
    let mut inputs = PlayerInputs::new();
    inputs.add_input(entry(42, 0, false, Player::Pink));
    let mut ghosts = vec![GhostActor::spawn()];
    let mut frame = PlayerFrame(5);
    // Tick 1: the single recorded entry is applied.
    update_frame(&mut frame, &mut ghosts);
    update_ghost(&mut ghosts, &inputs);
    assert_eq!(ghosts[0].control, entry(42, 0, false, Player::Pink));
    // Tick 2: no new recorded frame yet; the ghost coasts, it is not zeroed.
    update_frame(&mut frame, &mut ghosts);
    update_ghost(&mut ghosts, &inputs);
    assert_eq!(ghosts[0].control, entry(42, 0, false, Player::Pink));
    assert_eq!(ghosts[0].frame, 2);
    assert_eq!(frame.0, 7);
}

#[test]
fn drift_correction_snaps_at_boundaries() {
    let mut offsets = SyncOffset::new();
    offsets.add_offset(WorldPos { x: 160, y: 320, z: 0 });
    let mut ghosts = vec![GhostActor {
        frame: SYNCFRAME,
        control: entry(0, 0, false, Player::Mask),
        position: WorldPos { x: 150, y: 300, z: 0 },
    }];
    drift_correct(&mut ghosts, &offsets);
    assert_eq!(ghosts[0].position, WorldPos { x: 160, y: 320, z: 0 });
    // Away from a boundary nothing moves.
    ghosts[0].frame = SYNCFRAME + 1;
    ghosts[0].position = WorldPos { x: 1, y: 2, z: 3 };
    drift_correct(&mut ghosts, &offsets);
    assert_eq!(ghosts[0].position, WorldPos { x: 1, y: 2, z: 3 });
    // Ahead of the recording the miss is skipped, not fatal.
    ghosts[0].frame = 2 * SYNCFRAME;
    drift_correct(&mut ghosts, &offsets);
    assert_eq!(ghosts[0].position, WorldPos { x: 1, y: 2, z: 3 });
}

#[test]
fn drift_correction_idempotence() {
    let in_sync = WorldPos { x: 160, y: 320, z: 0 };
    let mut offsets = SyncOffset::new();
    offsets.add_offset(in_sync);
    let mut ghosts = vec![GhostActor {
        frame: SYNCFRAME,
        control: entry(0, 0, false, Player::Mask),
        position: in_sync,
    }];
    let before = ghosts[0];
    drift_correct(&mut ghosts, &offsets);
    assert_eq!(ghosts[0], before);
}

#[test]
fn offsets_recorded_every_sync_interval() {
    let mut offsets = SyncOffset::new();
    let p = WorldPos { x: 1, y: 2, z: 0 };
    save_player_offset(&mut offsets, &PlayerFrame(SYNCFRAME), p);
    assert_eq!(offsets.len(), 1);
    save_player_offset(&mut offsets, &PlayerFrame(SYNCFRAME + 1), p);
    assert_eq!(offsets.len(), 1);
    save_player_offset(&mut offsets, &PlayerFrame(2 * SYNCFRAME), p);
    assert_eq!(offsets.len(), 2);
    assert_eq!(offsets.get_offset(1), Some(p));
}

#[test]
fn lifecycle_exclusivity() {
    let mut frame = PlayerFrame(99);
    let mut inputs = PlayerInputs::new();
    let mut offsets = SyncOffset::new();
    save_player_state(&mut inputs, Velocity { x: 1, y: 2 }, Jump(true), Player::Guy);
    save_player_offset(&mut offsets, &PlayerFrame(SYNCFRAME), WorldPos { x: 9, y: 9, z: 9 });
    let mut ghosts = vec![GhostActor::spawn(), GhostActor::spawn()];
    let animations = ready_animations();
    let events = vec![GhostEvents::ClearGhosts, GhostEvents::ClearTrail];
    handle_ghost_events(&events, &mut frame, &mut inputs, &mut offsets, &mut ghosts, &animations);
    assert_eq!(ghosts.len(), 0);
    assert_eq!(inputs.len(), 0);
    assert_eq!(offsets.len(), 0);
    assert_eq!(frame.0, 1);
}

#[test]
fn clear_ghosts_leaves_the_trail() {
    let mut frame = PlayerFrame(40);
    let mut inputs = PlayerInputs::new();
    inputs.add_input(entry(5, 0, false, Player::Mask));
    let mut offsets = SyncOffset::new();
    let mut ghosts = vec![GhostActor::spawn()];
    let animations = ready_animations();
    let events = vec![GhostEvents::ClearGhosts];
    handle_ghost_events(&events, &mut frame, &mut inputs, &mut offsets, &mut ghosts, &animations);
    assert_eq!(ghosts.len(), 0);
    assert_eq!(inputs.len(), 1);
    assert_eq!(frame.0, 40);
}

#[test]
fn spawn_ghost_needs_the_idle_animation() {
    let mut frame = PlayerFrame(1);
    let mut inputs = PlayerInputs::new();
    let mut offsets = SyncOffset::new();
    let mut ghosts: Vec<GhostActor> = Vec::new();
    let events = vec![GhostEvents::SpawnGhost];
    let missing = Animations::new();
    handle_ghost_events(&events, &mut frame, &mut inputs, &mut offsets, &mut ghosts, &missing);
    assert_eq!(ghosts.len(), 0);
    let animations = ready_animations();
    handle_ghost_events(&events, &mut frame, &mut inputs, &mut offsets, &mut ghosts, &animations);
    assert_eq!(ghosts.len(), 1);
    assert_eq!(ghosts[0].frame, 0);
}

#[test]
fn auto_ghost_counts_down_and_spawns() {
    let mut timer = GhostTimer { remaining: 2 };
    // Idling away from the start just ticks the countdown.
    assert_eq!(auto_ghost(false, 0, false, &mut timer), None);
    assert_eq!(timer.remaining, 1);
    // On expiry the spawn fires.
    assert_eq!(auto_ghost(false, 0, false, &mut timer), Some(GhostEvents::SpawnGhost));
    assert_eq!(timer.remaining, 0);
    // With a ghost alive nothing happens.
    let mut armed = GhostTimer::default();
    assert_eq!(auto_ghost(false, 1, true, &mut armed), None);
    assert_eq!(armed.remaining, GHOST_IDLE_TICKS);
}

#[test]
fn auto_ghost_restarts_trail_near_start() {
    let mut timer = GhostTimer { remaining: 5 };
    // No ghosts, the player lingers at the spawn point, the timer has not
    // run out: the trail restarts and the timer rearms.
    assert_eq!(auto_ghost(false, 0, true, &mut timer), Some(GhostEvents::ClearTrail));
    assert_eq!(timer.remaining, GHOST_IDLE_TICKS);
    // A ghost clear received this tick rearms the timer before anything.
    let mut short = GhostTimer { remaining: 1 };
    assert_eq!(auto_ghost(true, 1, false, &mut short), None);
    assert_eq!(short.remaining, GHOST_IDLE_TICKS);
}

#[test]
fn kill_judge_resets_once() {
    let start = WorldPos { x: 100, y: 200, z: 0 };
    let mut score = Score(7);
    let mut velocity = Velocity { x: 50, y: -20 };
    let mut position = WorldPos { x: 900, y: 900, z: 0 };
    // Two ghosts touch at once: exactly one full reset.
    let contacts = vec![false, true, true];
    let (events, changed) = kill_player(&contacts, &mut score, &mut velocity, &mut position, start);
    assert!(changed);
    assert_eq!(score.0, 0);
    assert_eq!(velocity, Velocity { x: 0, y: 0 });
    assert_eq!(position, start);
    assert_eq!(events, vec![GhostEvents::ClearGhosts, GhostEvents::ClearTrail]);
    // No contact: nothing changes.
    let mut score2 = Score(3);
    let mut velocity2 = Velocity { x: 5, y: 5 };
    let mut position2 = WorldPos { x: 1, y: 1, z: 0 };
    let silent = vec![false, false];
    let (events2, changed2) =
        kill_player(&silent, &mut score2, &mut velocity2, &mut position2, start);
    assert!(!changed2);
    assert_eq!(score2.0, 3);
    assert_eq!(velocity2, Velocity { x: 5, y: 5 });
    assert_eq!(position2, WorldPos { x: 1, y: 1, z: 0 });
    assert!(events2.is_empty());
}

#[test]
fn pickup_raises_score_and_ghost() {
    let mut score = Score(2);
    let next = phox::collectable::Collectable {
        collectable_type: phox::collectable::CollectableType::Bananan,
        spawn_type: phox::collectable::SpawnType::NoSpawn,
    };
    let (ev, map_ev) = get_collectable(&mut score, next);
    assert_eq!(score.0, 3);
    assert_eq!(ev, GhostEvents::SpawnGhost);
    assert!(matches!(
        map_ev,
        phox::levels::MapEvent::Spawn(phox::levels::MapObject::Collectable(_))
    ));
}
