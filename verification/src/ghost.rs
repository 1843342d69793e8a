//! The ghost-replay engine: a frame clock, frame-indexed recordings of the
//! live player's control state and position, ghost actors that replay those
//! recordings, periodic drift correction, and the event-driven lifecycle
//! that spawns and clears ghosts and recordings.
//!
//! Frames count from 1: the clock ticks at the start of a tick, and the
//! recorder appends at the end of a tick, so the entry of frame `f` sits at
//! log index `f - 1`. A ghost's own frame counter runs the same way from the
//! moment it spawns.

use crate::animation::{Animation, Animations};
use crate::player::{Jump, Player, Velocity};
use vstd::prelude::*;

verus! {

/// How many frames lie between two position recordings.
pub const SYNCFRAME: usize = 10;

/// One recorded control state: what the live player's movement resolved to
/// in one frame.
#[derive(Clone, Copy, Debug, PartialEq, Eq, Structural)]
pub struct InputEntry {
    pub velocity: Velocity,
    pub jump: Jump,
    pub player: Player,
}

impl InputEntry {
    /// The control state a freshly spawned ghost starts with.
    pub fn initial() -> (r: InputEntry)
        ensures
            r == (InputEntry { velocity: Velocity { x: 0i64, y: 0i64 }, jump: Jump(false), player: Player::Mask }),
    {
        InputEntry { velocity: Velocity { x: 0, y: 0 }, jump: Jump(false), player: Player::Mask }
    }
}

/// A world position, in the engine's fixed-point units.
#[derive(Clone, Copy, Debug, PartialEq, Eq, Structural)]
pub struct WorldPos {
    pub x: i64,
    pub y: i64,
    pub z: i64,
}

impl WorldPos {
    pub fn origin() -> (r: WorldPos)
        ensures
            r == (WorldPos { x: 0i64, y: 0i64, z: 0i64 }),
    {
        WorldPos { x: 0, y: 0, z: 0 }
    }
}

/// The global frame clock, ticked once per simulation step; reset to 1 only
/// by a trail clear.
pub struct PlayerFrame(pub usize);

/// The frame-indexed log of the live player's control states, one entry per
/// frame, appended in frame order. It grows until a trail clear empties it.
pub struct PlayerInputs {
    entries: Vec<InputEntry>,
}

impl View for PlayerInputs {
    type V = Seq<InputEntry>;

    closed spec fn view(&self) -> Seq<InputEntry> {
        self.entries@
    }
}

impl PlayerInputs {
    pub fn new() -> (r: PlayerInputs)
        ensures
            r@ == Seq::<InputEntry>::empty(),
    {
        PlayerInputs { entries: Vec::new() }
    }

    /// Appends the entry of the next frame. To be called exactly once per
    /// tick, for the live player only.
    pub fn add_input(&mut self, state: InputEntry)
        ensures
            final(self)@ == old(self)@.push(state),
    {
        self.entries.push(state);
    }

    /// The entry at a log index (the entry of frame `index + 1`), if the log
    /// already reaches it.
    pub fn get_input(&self, index: usize) -> (r: Option<InputEntry>)
        ensures
            r == if index < self@.len() {
                Some(self@[index as int])
            } else {
                None::<InputEntry>
            },
    {
        if index < self.entries.len() {
            Some(self.entries[index])
        } else {
            None
        }
    }

    pub fn len(&self) -> (r: usize)
        ensures
            r == self@.len(),
    {
        self.entries.len()
    }

    pub fn clear(&mut self)
        ensures
            final(self)@ == Seq::<InputEntry>::empty(),
    {
        self.entries.clear();
    }
}

/// The frame-indexed log of the live player's positions, one entry per
/// `SYNCFRAME` frames: entry `k` holds the position at the end of frame
/// `(k + 1) * SYNCFRAME`.
pub struct SyncOffset {
    offsets: Vec<WorldPos>,
}

impl View for SyncOffset {
    type V = Seq<WorldPos>;

    closed spec fn view(&self) -> Seq<WorldPos> {
        self.offsets@
    }
}

impl SyncOffset {
    pub fn new() -> (r: SyncOffset)
        ensures
            r@ == Seq::<WorldPos>::empty(),
    {
        SyncOffset { offsets: Vec::new() }
    }

    pub fn add_offset(&mut self, state: WorldPos)
        ensures
            final(self)@ == old(self)@.push(state),
    {
        self.offsets.push(state);
    }

    pub fn get_offset(&self, index: usize) -> (r: Option<WorldPos>)
        ensures
            r == if index < self@.len() {
                Some(self@[index as int])
            } else {
                None::<WorldPos>
            },
    {
        if index < self.offsets.len() {
            Some(self.offsets[index])
        } else {
            None
        }
    }

    pub fn len(&self) -> (r: usize)
        ensures
            r == self@.len(),
    {
        self.offsets.len()
    }

    pub fn clear(&mut self)
        ensures
            final(self)@ == Seq::<WorldPos>::empty(),
    {
        self.offsets.clear();
    }
}

/// A ghost actor: its own frame counter (frames since it spawned, always
/// lagging the global clock), the control state it is currently replaying,
/// and its position.
#[derive(Clone, Copy, Debug, PartialEq, Eq, Structural)]
pub struct GhostActor {
    pub frame: usize,
    pub control: InputEntry,
    pub position: WorldPos,
}

/// The control state a ghost holds after its replay step: the recorded entry
/// of its own frame where the log reaches that far, else the state it
/// already coasts on — absence means "no new recorded frame yet", not
/// "idle".
pub open spec fn spec_replay_control(g: GhostActor, log: Seq<InputEntry>) -> InputEntry {
    if 1 <= g.frame && g.frame - 1 < log.len() {
        log[g.frame - 1]
    } else {
        g.control
    }
}

/// The position recorded for a ghost's own frame, when that frame sits on a
/// sync boundary and the recording already reaches it.
pub open spec fn spec_drift_target(frame: usize, offsets: Seq<WorldPos>) -> Option<WorldPos> {
    if frame % SYNCFRAME == 0 && frame != 0 && (frame - 1) / (SYNCFRAME as int) < offsets.len() {
        Some(offsets[(frame - 1) / (SYNCFRAME as int)])
    } else {
        None
    }
}

/// A ghost after drift correction: snapped to the recorded position at a
/// sync boundary, untouched anywhere else. The snap is a hard set, not a
/// blend.
pub open spec fn spec_apply_drift(g: GhostActor, offsets: Seq<WorldPos>) -> GhostActor {
    match spec_drift_target(g.frame, offsets) {
        Some(p) => GhostActor { position: p, ..g },
        None => g,
    }
}

/// Snapping a ghost whose free-running position already matches the recorded
/// one changes nothing: drift correction is idempotent on an undrifted
/// ghost.
pub proof fn lemma_drift_correction_idempotent(g: GhostActor, offsets: Seq<WorldPos>)
    requires
        spec_drift_target(g.frame, offsets) matches Some(p) && p == g.position,
    ensures
        spec_apply_drift(g, offsets) == g,
{
}

impl GhostActor {
    /// A freshly spawned ghost: its own clock at zero, default control
    /// state, standing at the origin (the level start in ghost-local
    /// coordinates).
    pub fn spawn() -> (r: GhostActor)
        ensures
            r.frame == 0,
            r.control == (InputEntry {
                velocity: Velocity { x: 0i64, y: 0i64 },
                jump: Jump(false),
                player: Player::Mask,
            }),
            r.position == (WorldPos { x: 0i64, y: 0i64, z: 0i64 }),
    {
        GhostActor { frame: 0, control: InputEntry::initial(), position: WorldPos::origin() }
    }

    /// Ticks the ghost's own clock.
    pub fn advance_frame(&mut self)
        requires
            old(self).frame < usize::MAX,
        ensures
            final(self).frame == old(self).frame + 1,
            final(self).control == old(self).control,
            final(self).position == old(self).position,
    {
        self.frame = self.frame + 1;
    }

    /// Replays the recorded control state of the ghost's own frame, if the
    /// log holds one; otherwise the ghost coasts on its last state.
    pub fn apply_recorded(&mut self, inputs: &PlayerInputs)
        ensures
            final(self).frame == old(self).frame,
            final(self).position == old(self).position,
            final(self).control == spec_replay_control(*old(self), inputs@),
    {
        if self.frame >= 1 {
            if let Some(entry) = inputs.get_input(self.frame - 1) {
                self.control = entry;
            }
        }
    }

    /// Hard-sets the ghost's position to the recorded one at a sync
    /// boundary; away from boundaries, or ahead of the recording, does
    /// nothing (the miss is a reportable desync, not a failure).
    pub fn drift_correct(&mut self, offsets: &SyncOffset)
        ensures
            *final(self) == spec_apply_drift(*old(self), offsets@),
    {
        if self.frame % SYNCFRAME != 0 || self.frame == 0 {
            return ;
        }
        if let Some(target) = offsets.get_offset((self.frame - 1) / SYNCFRAME) {
            self.position = target;
        }
    }
}

/// Ticks the global clock and every ghost's own clock, once per simulation
/// step, before anything else in the tick runs.
pub fn update_frame(frame: &mut PlayerFrame, ghosts: &mut Vec<GhostActor>)
    requires
        old(frame).0 < usize::MAX,
        forall|i: int| 0 <= i < old(ghosts)@.len() ==> (#[trigger] old(ghosts)@[i]).frame
            < usize::MAX,
    ensures
        final(frame).0 == old(frame).0 + 1,
        final(ghosts)@.len() == old(ghosts)@.len(),
        forall|i: int|
            0 <= i < old(ghosts)@.len() ==> #[trigger] final(ghosts)@[i] == (GhostActor {
                frame: (old(ghosts)@[i].frame + 1) as usize,
                ..old(ghosts)@[i]
            }),
{
    let mut i: usize = 0;
    while i < ghosts.len()
        invariant
            0 <= i <= ghosts@.len(),
            ghosts@.len() == old(ghosts)@.len(),
            forall|k: int| i <= k < ghosts@.len() ==> #[trigger] ghosts@[k] == old(ghosts)@[k],
            forall|k: int|
                0 <= k < i ==> #[trigger] ghosts@[k] == (GhostActor {
                    frame: (old(ghosts)@[k].frame + 1) as usize,
                    ..old(ghosts)@[k]
                }),
            forall|k: int| 0 <= k < old(ghosts)@.len() ==> (#[trigger] old(ghosts)@[k]).frame
                < usize::MAX,
        decreases ghosts@.len() - i,
    {
        let mut g = ghosts[i];
        g.advance_frame();
        ghosts.set(i, g);
        i = i + 1;
    }
    frame.0 = frame.0 + 1;
}

/// Replays the recorded control state onto every ghost, before the shared
/// movement step applies physics for the tick.
pub fn update_ghost(ghosts: &mut Vec<GhostActor>, inputs: &PlayerInputs)
    ensures
        final(ghosts)@.len() == old(ghosts)@.len(),
        forall|i: int|
            0 <= i < old(ghosts)@.len() ==> #[trigger] final(ghosts)@[i] == (GhostActor {
                control: spec_replay_control(old(ghosts)@[i], inputs@),
                ..old(ghosts)@[i]
            }),
{
    let mut i: usize = 0;
    while i < ghosts.len()
        invariant
            0 <= i <= ghosts@.len(),
            ghosts@.len() == old(ghosts)@.len(),
            forall|k: int| i <= k < ghosts@.len() ==> #[trigger] ghosts@[k] == old(ghosts)@[k],
            forall|k: int|
                0 <= k < i ==> #[trigger] ghosts@[k] == (GhostActor {
                    control: spec_replay_control(old(ghosts)@[k], inputs@),
                    ..old(ghosts)@[k]
                }),
        decreases ghosts@.len() - i,
    {
        let mut g = ghosts[i];
        g.apply_recorded(inputs);
        ghosts.set(i, g);
        i = i + 1;
    }
}

/// Drift-corrects every ghost, after physics has applied movement for the
/// tick: at a sync boundary the correction wins over physics that frame.
pub fn drift_correct(ghosts: &mut Vec<GhostActor>, offsets: &SyncOffset)
    ensures
        final(ghosts)@.len() == old(ghosts)@.len(),
        forall|i: int|
            0 <= i < old(ghosts)@.len() ==> #[trigger] final(ghosts)@[i] == spec_apply_drift(
                old(ghosts)@[i],
                offsets@,
            ),
{
    let mut i: usize = 0;
    while i < ghosts.len()
        invariant
            0 <= i <= ghosts@.len(),
            ghosts@.len() == old(ghosts)@.len(),
            forall|k: int| i <= k < ghosts@.len() ==> #[trigger] ghosts@[k] == old(ghosts)@[k],
            forall|k: int|
                0 <= k < i ==> #[trigger] ghosts@[k] == spec_apply_drift(
                    old(ghosts)@[k],
                    offsets@,
                ),
        decreases ghosts@.len() - i,
    {
        let mut g = ghosts[i];
        g.drift_correct(offsets);
        ghosts.set(i, g);
        i = i + 1;
    }
}

/// Records the live player's resolved control state for this frame, at the
/// end of the tick, so the log reflects post-physics state.
pub fn save_player_state(inputs: &mut PlayerInputs, velocity: Velocity, jump: Jump, player: Player)
    ensures
        final(inputs)@ == old(inputs)@.push(
            InputEntry { velocity, jump, player },
        ),
{
    inputs.add_input(InputEntry { velocity, jump, player });
}

/// Records the live player's position at the end of the tick, but only on a
/// sync boundary: every `SYNCFRAME`th frame.
pub fn save_player_offset(offsets: &mut SyncOffset, frame: &PlayerFrame, position: WorldPos)
    ensures
        frame.0 % SYNCFRAME == 0 ==> final(offsets)@ == old(offsets)@.push(position),
        frame.0 % SYNCFRAME != 0 ==> final(offsets)@ == old(offsets)@,
{
    if frame.0 % SYNCFRAME == 0 {
        offsets.add_offset(position);
    }
}

/// Replaying a fresh ghost against a recorded log for as many ticks as the
/// log holds entries reproduces exactly the recorded control states, in
/// order: the sequence the ghost applies is the log itself, and no state is
/// applied before its recorded frame arrives.
pub fn replay_sequence(inputs: &PlayerInputs) -> (r: Vec<InputEntry>)
    ensures
        r@ == inputs@,
{
    let total: usize = inputs.len();
    let mut g = GhostActor::spawn();
    let mut r: Vec<InputEntry> = Vec::new();
    let mut t: usize = 0;
    while t < total
        invariant
            0 <= t <= total,
            total == inputs@.len(),
            g.frame == t,
            r@.len() == t,
            forall|k: int| 0 <= k < t ==> #[trigger] r@[k] == inputs@[k],
        decreases total - t,
    {
        g.advance_frame();
        g.apply_recorded(inputs);
        r.push(g.control);
        t = t + 1;
    }
    proof {
        assert(r@ =~= inputs@);
    }
    r
}

/// The lifecycle commands, drained once per tick in the order they were
/// raised.
#[derive(Clone, Copy, Debug, PartialEq, Eq, Structural)]
pub enum GhostEvents {
    /// Reset the frame clock to 1 and empty both recordings; ghosts stand.
    ClearTrail,
    /// Despawn every ghost; the recordings stand.
    ClearGhosts,
    /// Spawn one new ghost, if its idle animation resolves.
    SpawnGhost,
}

/// The whole state the lifecycle events act on: the frame clock, both
/// recordings, and the ghost population.
#[verifier::ext_equal]
pub struct LifecycleState {
    pub frame: usize,
    pub inputs: Seq<InputEntry>,
    pub offsets: Seq<WorldPos>,
    pub ghosts: Seq<GhostActor>,
}

/// One lifecycle event applied to the state. `spawn_ready` says whether the
/// ghost idle animation resolves; when it does not, a spawn is dropped as a
/// logged lookup miss.
pub open spec fn spec_step_event(s: LifecycleState, e: GhostEvents, spawn_ready: bool)
    -> LifecycleState {
    match e {
        GhostEvents::ClearTrail => LifecycleState {
            frame: 1,
            inputs: Seq::empty(),
            offsets: Seq::empty(),
            ghosts: s.ghosts,
        },
        GhostEvents::ClearGhosts => LifecycleState { ghosts: Seq::empty(), ..s },
        GhostEvents::SpawnGhost => {
            if spawn_ready {
                LifecycleState {
                    ghosts: s.ghosts.push(
                        GhostActor {
                            frame: 0,
                            control: InputEntry {
                                velocity: Velocity { x: 0, y: 0 },
                                jump: Jump(false),
                                player: Player::Mask,
                            },
                            position: WorldPos { x: 0, y: 0, z: 0 },
                        },
                    ),
                    ..s
                }
            } else {
                s
            }
        },
    }
}

/// A queue of lifecycle events applied first to last.
pub open spec fn spec_run_events(s: LifecycleState, events: Seq<GhostEvents>, spawn_ready: bool)
    -> LifecycleState
    decreases events.len(),
{
    if events.len() == 0 {
        s
    } else {
        spec_run_events(spec_step_event(s, events[0], spawn_ready), events.drop_first(), spawn_ready)
    }
}

/// Lifecycle exclusivity: a ghost clear followed by a trail clear in the
/// same tick leaves no ghost, empty recordings, and the clock back at 1 —
/// whatever the state held before.
pub proof fn lemma_lifecycle_exclusivity(s: LifecycleState, spawn_ready: bool)
    ensures
        spec_run_events(
            s,
            seq![GhostEvents::ClearGhosts, GhostEvents::ClearTrail],
            spawn_ready,
        ) == (LifecycleState {
            frame: 1,
            inputs: Seq::<InputEntry>::empty(),
            offsets: Seq::<WorldPos>::empty(),
            ghosts: Seq::<GhostActor>::empty(),
        }),
{
    let events = seq![GhostEvents::ClearGhosts, GhostEvents::ClearTrail];
    let s1 = spec_step_event(s, GhostEvents::ClearGhosts, spawn_ready);
    let s2 = spec_step_event(s1, GhostEvents::ClearTrail, spawn_ready);
    let rest = events.drop_first();
    assert(events[0] == GhostEvents::ClearGhosts);
    assert(rest.len() == 1 && rest[0] == GhostEvents::ClearTrail);
    assert(rest.drop_first().len() == 0);
    assert(spec_run_events(s, events, spawn_ready) == spec_run_events(s1, rest, spawn_ready));
    assert(spec_run_events(s1, rest, spawn_ready) == spec_run_events(
        s2,
        rest.drop_first(),
        spawn_ready,
    ));
    assert(spec_run_events(s2, rest.drop_first(), spawn_ready) == s2);
    assert(s2 =~= (LifecycleState {
        frame: 1,
        inputs: Seq::<InputEntry>::empty(),
        offsets: Seq::<WorldPos>::empty(),
        ghosts: Seq::<GhostActor>::empty(),
    }));
}

/// Handles one drained lifecycle event against the live state.
pub fn handle_ghost_event(
    event: GhostEvents,
    frame: &mut PlayerFrame,
    inputs: &mut PlayerInputs,
    offsets: &mut SyncOffset,
    ghosts: &mut Vec<GhostActor>,
    animations: &Animations,
)
    ensures
        (LifecycleState {
            frame: final(frame).0,
            inputs: final(inputs)@,
            offsets: final(offsets)@,
            ghosts: final(ghosts)@,
        }) == spec_step_event(
            LifecycleState {
                frame: old(frame).0,
                inputs: old(inputs)@,
                offsets: old(offsets)@,
                ghosts: old(ghosts)@,
            },
            event,
            animations.spec_get_animation(Animation::MaskIdle) is Some,
        ),
{
    match event {
        GhostEvents::ClearTrail => {
            frame.0 = 1;
            inputs.clear();
            offsets.clear();
        },
        GhostEvents::ClearGhosts => {
            ghosts.clear();
            proof {
                assert(ghosts@ =~= Seq::<GhostActor>::empty());
            }
        },
        GhostEvents::SpawnGhost => {
            if animations.get_animation(Animation::MaskIdle).is_some() {
                ghosts.push(GhostActor::spawn());
            }
        },
    }
}

/// Drains one tick's lifecycle event queue in order.
pub fn handle_ghost_events(
    events: &Vec<GhostEvents>,
    frame: &mut PlayerFrame,
    inputs: &mut PlayerInputs,
    offsets: &mut SyncOffset,
    ghosts: &mut Vec<GhostActor>,
    animations: &Animations,
)
    ensures
        (LifecycleState {
            frame: final(frame).0,
            inputs: final(inputs)@,
            offsets: final(offsets)@,
            ghosts: final(ghosts)@,
        }) == spec_run_events(
            LifecycleState {
                frame: old(frame).0,
                inputs: old(inputs)@,
                offsets: old(offsets)@,
                ghosts: old(ghosts)@,
            },
            events@,
            animations.spec_get_animation(Animation::MaskIdle) is Some,
        ),
{
    let ghost ready = animations.spec_get_animation(Animation::MaskIdle) is Some;
    let ghost s0 = LifecycleState {
        frame: frame.0,
        inputs: inputs@,
        offsets: offsets@,
        ghosts: ghosts@,
    };
    let mut i: usize = 0;
    proof {
        assert(events@.skip(0) =~= events@);
    }
    while i < events.len()
        invariant
            0 <= i <= events@.len(),
            spec_run_events(s0, events@, ready) == spec_run_events(
                LifecycleState {
                    frame: frame.0,
                    inputs: inputs@,
                    offsets: offsets@,
                    ghosts: ghosts@,
                },
                events@.skip(i as int),
                ready,
            ),
            ready == (animations.spec_get_animation(Animation::MaskIdle) is Some),
            s0 == (LifecycleState {
                frame: old(frame).0,
                inputs: old(inputs)@,
                offsets: old(offsets)@,
                ghosts: old(ghosts)@,
            }),
        decreases events@.len() - i,
    {
        let ghost rest = events@.skip(i as int);
        let ghost before = LifecycleState {
            frame: frame.0,
            inputs: inputs@,
            offsets: offsets@,
            ghosts: ghosts@,
        };
        handle_ghost_event(events[i], frame, inputs, offsets, ghosts, animations);
        proof {
            assert(rest.len() > 0);
            assert(rest[0] == events@[i as int]);
            assert(rest.drop_first() =~= events@.skip(i + 1));
            assert(spec_run_events(before, rest, ready) == spec_run_events(
                spec_step_event(before, rest[0], ready),
                rest.drop_first(),
                ready,
            ));
        }
        i = i + 1;
    }
    proof {
        assert(events@.skip(events@.len() as int) =~= Seq::<GhostEvents>::empty());
    }
}

/// The pickup and death score.
pub struct Score(pub usize);

/// The idle-spawn countdown, in ticks of the fixed timestep.
#[derive(Clone, Copy, Debug, PartialEq, Eq, Structural)]
pub struct GhostTimer {
    pub remaining: u32,
}

/// The idle-spawn delay: 2.5 seconds of 60 Hz ticks.
pub const GHOST_IDLE_TICKS: u32 = 150;

impl Default for GhostTimer {
    fn default() -> (r: Self)
        ensures
            r.remaining == GHOST_IDLE_TICKS,
    {
        GhostTimer { remaining: GHOST_IDLE_TICKS }
    }
}

/// What the auto-spawn rule decides in one tick: a ghost clear rearms the
/// timer first; with no ghost alive, a player idling at the level start
/// before the timer has run out restarts both the trail and the timer, and
/// otherwise the timer counts down and emits a spawn on expiry; with ghosts
/// alive nothing happens.
pub open spec fn spec_auto_ghost(
    received_clear_ghosts: bool,
    ghost_count: usize,
    near_start: bool,
    remaining: u32,
) -> (u32, Option<GhostEvents>) {
    let armed: u32 = if received_clear_ghosts {
        GHOST_IDLE_TICKS
    } else {
        remaining
    };
    if ghost_count == 0 {
        if near_start && armed > 0 {
            (GHOST_IDLE_TICKS, Some(GhostEvents::ClearTrail))
        } else {
            let ticked: u32 = if armed > 0 {
                (armed - 1) as u32
            } else {
                0
            };
            if ticked == 0 {
                (ticked, Some(GhostEvents::SpawnGhost))
            } else {
                (ticked, None)
            }
        }
    } else {
        (armed, None)
    }
}

/// Runs the auto-spawn rule for one tick and says which lifecycle event, if
/// any, it emits.
pub fn auto_ghost(
    received_clear_ghosts: bool,
    ghost_count: usize,
    near_start: bool,
    timer: &mut GhostTimer,
) -> (emit: Option<GhostEvents>)
    ensures
        (final(timer).remaining, emit) == spec_auto_ghost(
            received_clear_ghosts,
            ghost_count,
            near_start,
            old(timer).remaining,
        ),
{
    if received_clear_ghosts {
        timer.remaining = GHOST_IDLE_TICKS;
    }
    if ghost_count == 0 {
        if near_start && timer.remaining > 0 {
            timer.remaining = GHOST_IDLE_TICKS;
            return Some(GhostEvents::ClearTrail);
        }
        if timer.remaining > 0 {
            timer.remaining = timer.remaining - 1;
        }
        if timer.remaining == 0 {
            return Some(GhostEvents::SpawnGhost);
        }
    }
    None
}

/// Judges contact between the live player and the ghosts for one tick. One
/// active contact — however many ghosts touch at once — triggers the full
/// reset exactly once: the score drops to zero, the velocity is zeroed, the
/// player returns to the level start, a ghost clear and a trail clear are
/// raised in that order, and the loaded level is marked changed.
pub fn kill_player(
    contacts: &Vec<bool>,
    score: &mut Score,
    velocity: &mut Velocity,
    position: &mut WorldPos,
    player_start: WorldPos,
) -> (r: (Vec<GhostEvents>, bool))
    ensures
        r.1 == (exists|i: int| 0 <= i < contacts@.len() && contacts@[i]),
        r.1 ==> {
            &&& final(score).0 == 0
            &&& *final(velocity) == (Velocity { x: 0i64, y: 0i64 })
            &&& *final(position) == player_start
            &&& r.0@ =~= seq![GhostEvents::ClearGhosts, GhostEvents::ClearTrail]
        },
        !r.1 ==> {
            &&& *final(score) == *old(score)
            &&& *final(velocity) == *old(velocity)
            &&& *final(position) == *old(position)
            &&& r.0@ =~= Seq::<GhostEvents>::empty()
        },
{
    let mut i: usize = 0;
    let mut hit: bool = false;
    while i < contacts.len()
        invariant
            0 <= i <= contacts@.len(),
            hit == (exists|k: int| 0 <= k < i && contacts@[k]),
        decreases contacts@.len() - i,
    {
        if contacts[i] {
            hit = true;
        }
        i = i + 1;
    }
    let mut events: Vec<GhostEvents> = Vec::new();
    if hit {
        score.0 = 0;
        events.push(GhostEvents::ClearGhosts);
        events.push(GhostEvents::ClearTrail);
        *velocity = Velocity::zero();
        *position = player_start;
        (events, true)
    } else {
        (events, false)
    }
}

/// Handles one collectable pickup: the score rises by one, a ghost spawn is
/// raised, and the collectable's next generation is sent back to the map to
/// respawn.
pub fn get_collectable(
    score: &mut Score,
    next_generation: crate::collectable::Collectable,
) -> (r: (GhostEvents, crate::levels::MapEvent))
    requires
        old(score).0 < usize::MAX,
    ensures
        final(score).0 == old(score).0 + 1,
        r.0 == GhostEvents::SpawnGhost,
        r.1 matches crate::levels::MapEvent::Spawn(o) && o@
            == crate::levels::MapObjectV::Collectable(next_generation@),
{
    score.0 = score.0 + 1;
    (GhostEvents::SpawnGhost, crate::levels::MapEvent::Spawn(
        crate::levels::MapObject::Collectable(next_generation),
    ))
}

} // verus!
