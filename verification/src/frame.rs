//! The frame orchestrator: one synchronous per-frame step over the whole
//! simulation state.
//!
//! Each frame, in this order: the quit edge is latched, the player moves
//! by the held directions, a click spawns a collectible at the cursor,
//! the collision batch is drained (scoring and removals), the spawn timer
//! ticks and may spawn one collectible at a random spot, and the held
//! reset key clears the current score. The session has a single running
//! state; scores reset but play continues indefinitely.

use vstd::prelude::*;
use crate::collisions::CollisionEvent;
use crate::collisions::EventModel;
use crate::collisions::event_models;
use crate::collisions::label_views;
use crate::collisions::resolve_all;
use crate::collisions::resolve_collisions;
use crate::collisions::resolver_state;
use crate::label::Label;
use crate::label::click_label;
use crate::label::player_label;
use crate::label::timer_label;
use crate::motion::DirectionsHeld;
use crate::motion::MAX_FRAME_DELTA;
use crate::motion::movement_delta;
use crate::motion::net_axis;
use crate::registry::Entity;
use crate::registry::EntityModel;
use crate::registry::Registry;
use crate::registry::contains_label;
use crate::registry::spec_translate;
use crate::rng::random_in_range;
use crate::score::ScoreState;
use crate::timer::Timer;
use crate::timer::spec_tick_elapsed;
use crate::timer::spec_tick_fires;

verus! {

/// Movement speed of the player, in world units per second.
pub const MOVEMENT_SPEED: u32 = 100;

/// Rotation given to the player entity, in degrees.
pub const PLAYER_ROTATION: i64 = 225;

/// Rotation given to spawned collectibles, in degrees.
pub const COLLECTIBLE_ROTATION: i64 = 315;

/// Visual preset carried by the player entity; opaque to this crate.
pub const PLAYER_PRESET: u64 = 0;

/// Visual preset carried by spawned collectibles; opaque to this crate.
pub const COLLECTIBLE_PRESET: u64 = 1;

/// The rectangle collectibles may be spawned in.
#[derive(Clone, Copy)]
pub struct PlayArea {
    pub min_x: i64,
    pub max_x: i64,
    pub min_y: i64,
    pub max_y: i64,
}

impl PlayArea {
    /// A non-empty area on both axes.
    pub open spec fn wf(self) -> bool {
        self.min_x < self.max_x && self.min_y < self.max_y
    }
}

/// Everything the host hands the simulation for one frame.
pub struct FrameInput {
    pub delta_micros: u64,
    pub held: DirectionsHeld,
    pub reset_held: bool,
    pub quit_pressed: bool,
    pub mouse_clicked: bool,
    pub cursor: Option<(i64, i64)>,
    pub events: Vec<CollisionEvent>,
}

/// Mathematical image of one frame's input.
pub ghost struct InputModel {
    pub delta: int,
    pub up: bool,
    pub down: bool,
    pub left: bool,
    pub right: bool,
    pub reset_held: bool,
    pub quit_pressed: bool,
    pub mouse_clicked: bool,
    pub cursor: Option<(int, int)>,
    pub events: Seq<EventModel>,
}

impl View for FrameInput {
    type V = InputModel;

    open spec fn view(&self) -> InputModel {
        InputModel {
            delta: self.delta_micros as int,
            up: self.held.up,
            down: self.held.down,
            left: self.held.left,
            right: self.held.right,
            reset_held: self.reset_held,
            quit_pressed: self.quit_pressed,
            mouse_clicked: self.mouse_clicked,
            cursor: match self.cursor {
                Some(c) => Some((c.0 as int, c.1 as int)),
                None => None,
            },
            events: event_models(self.events@),
        }
    }
}

/// The fatal faults a frame step can report.
///
/// Both indicate a corrupted session: the player entity must exist once
/// the session starts, and minted labels never repeat while the spawn
/// counter is intact.
#[derive(Clone, Copy, PartialEq, Eq, Structural, Debug)]
pub enum FrameError {
    /// The player entity is missing from the registry.
    PlayerMissing,
    /// A freshly minted spawn label was already present.
    DuplicateLabel,
}

/// What one frame hands back to the host.
pub struct FrameOutput {
    pub should_exit: bool,
    pub destroyed: Vec<Label>,
}

/// The whole owned session state, threaded through the per-frame step.
pub struct Simulation {
    pub registry: Registry,
    pub score: ScoreState,
    pub timer: Timer,
    pub spawn_counter: u64,
    pub player: Label,
}

/// Mathematical image of the session state.
pub ghost struct SimModel {
    pub entities: Seq<EntityModel>,
    pub current: int,
    pub high: int,
    pub timer_duration: int,
    pub timer_elapsed: int,
    pub counter: int,
    pub player: Seq<u8>,
}

impl View for Simulation {
    type V = SimModel;

    open spec fn view(&self) -> SimModel {
        SimModel {
            entities: self.registry@,
            current: self.score.current as int,
            high: self.score.high as int,
            timer_duration: self.timer.duration as int,
            timer_elapsed: self.timer.elapsed as int,
            counter: self.spawn_counter as int,
            player: self.player@,
        }
    }
}

/// The model of a collectible spawned at `(x, y)` under `label`.
pub open spec fn collectible_model(label: Seq<u8>, x: int, y: int) -> EntityModel {
    EntityModel {
        label: label,
        x: x,
        y: y,
        rotation: COLLECTIBLE_ROTATION as int,
        collision: true,
        preset: COLLECTIBLE_PRESET,
    }
}

/// Everything one frame step leaves behind: the poststate, the destroyed
/// labels, the latched quit flag, and the fault the step stopped on, if
/// any. On a fault the pipeline stops where the fault arose and the
/// poststate is what the stages before it produced.
pub ghost struct FrameOutcome {
    pub state: SimModel,
    pub destroyed: Seq<Seq<u8>>,
    pub should_exit: bool,
    pub error: Option<FrameError>,
}

/// One frame of the simulation, as a mathematical function of the prior
/// state, the frame input, and the spot a timer-driven spawn would take.
///
/// Stages in order: quit edge, player movement, click spawn, collision
/// drain, timer tick with its spawn, score reset.
pub open spec fn spec_frame(sm: SimModel, inp: InputModel, sx: int, sy: int) -> FrameOutcome {
    let should_exit = inp.quit_pressed;
    if !contains_label(sm.entities, sm.player) {
        FrameOutcome {
            state: sm,
            destroyed: Seq::empty(),
            should_exit: should_exit,
            error: Some(FrameError::PlayerMissing),
        }
    } else {
        let dx = net_axis(inp.right, inp.left, MOVEMENT_SPEED as int, inp.delta);
        let dy = net_axis(inp.up, inp.down, MOVEMENT_SPEED as int, inp.delta);
        let ents1 = spec_translate(sm.entities, sm.player, dx, dy);
        let click = inp.mouse_clicked && inp.cursor is Some;
        let click_lbl = click_label(sm.counter as nat);
        if click && contains_label(ents1, click_lbl) {
            FrameOutcome {
                state: SimModel { entities: ents1, ..sm },
                destroyed: Seq::empty(),
                should_exit: should_exit,
                error: Some(FrameError::DuplicateLabel),
            }
        } else {
            let ents2 = if click {
                ents1.push(
                    collectible_model(click_lbl, inp.cursor->Some_0.0, inp.cursor->Some_0.1),
                )
            } else {
                ents1
            };
            let counter2 = if click {
                sm.counter + 1
            } else {
                sm.counter
            };
            let r = resolve_all(
                resolver_state(ents2, sm.current, sm.high, Seq::empty()),
                inp.events,
                sm.player,
            );
            let fires = spec_tick_fires(sm.timer_duration, sm.timer_elapsed, inp.delta);
            let elapsed2 = spec_tick_elapsed(sm.timer_duration, sm.timer_elapsed, inp.delta);
            let timer_lbl = timer_label(counter2 as nat);
            if fires > 0 && contains_label(r.entities, timer_lbl) {
                FrameOutcome {
                    state: SimModel {
                        entities: r.entities,
                        current: r.current,
                        high: r.high,
                        timer_elapsed: elapsed2,
                        counter: counter2,
                        ..sm
                    },
                    destroyed: r.destroyed,
                    should_exit: should_exit,
                    error: Some(FrameError::DuplicateLabel),
                }
            } else {
                let ents3 = if fires > 0 {
                    r.entities.push(collectible_model(timer_lbl, sx, sy))
                } else {
                    r.entities
                };
                let counter3 = if fires > 0 {
                    counter2 + 1
                } else {
                    counter2
                };
                let current3 = if inp.reset_held {
                    0
                } else {
                    r.current
                };
                FrameOutcome {
                    state: SimModel {
                        entities: ents3,
                        current: current3,
                        high: r.high,
                        timer_elapsed: elapsed2,
                        counter: counter3,
                        ..sm
                    },
                    destroyed: r.destroyed,
                    should_exit: should_exit,
                    error: None,
                }
            }
        }
    }
}

impl Simulation {
    /// The session invariant: well-formed parts, a repeating spawn timer
    /// whose duration stays within the accepted frame delta, and the
    /// reserved player label.
    pub open spec fn wf(self) -> bool {
        &&& self.registry.wf()
        &&& self.score.wf()
        &&& self.timer.wf()
        &&& self.timer.repeating
        &&& self.timer.duration <= MAX_FRAME_DELTA
        &&& self.player@ == player_label()
    }

    /// A fresh session: the player alone at the origin, both scores at
    /// zero, the spawn counter at zero, and a repeating spawn timer that
    /// has seen no time.
    pub fn new(spawn_interval_micros: u64) -> (sim: Simulation)
        requires
            0 < spawn_interval_micros <= MAX_FRAME_DELTA,
        ensures
            sim.wf(),
            sim@.entities.len() == 1,
            sim@.entities[0].label == player_label(),
            sim@.entities[0].x == 0 && sim@.entities[0].y == 0,
            sim@.current == 0 && sim@.high == 0,
            sim@.counter == 0,
            sim@.timer_duration == spawn_interval_micros,
            sim@.timer_elapsed == 0,
            sim@.player == player_label(),
    {
        let player = Label::player();
        let mut registry = Registry::new();
        let e = Entity {
            label: player.duplicate(),
            x: 0,
            y: 0,
            rotation: PLAYER_ROTATION,
            collision: true,
            preset: PLAYER_PRESET,
        };
        let r = registry.spawn(e);
        proof {
            assert(r is Ok);
        }
        Simulation {
            registry,
            score: ScoreState::new(),
            timer: Timer::new(spawn_interval_micros, true),
            spawn_counter: 0,
            player,
        }
    }

    /// One frame with the timer-driven spawn spot supplied by the caller,
    /// so the step is a pure function of its arguments.
    ///
    /// The outcome is exactly `spec_frame` of the prior state, the input
    /// and the spot: poststate, destroyed labels, quit flag and fault
    /// alike.
    pub fn frame_step_at(
        &mut self,
        input: &FrameInput,
        spawn_x: i64,
        spawn_y: i64,
    ) -> (r: Result<FrameOutput, FrameError>)
        requires
            old(self).wf(),
            input.delta_micros <= MAX_FRAME_DELTA,
            old(self).spawn_counter <= u64::MAX - 2,
        ensures
            final(self).wf(),
            final(self).spawn_counter <= old(self).spawn_counter + 2,
            ({
                let oc = spec_frame(old(self)@, input@, spawn_x as int, spawn_y as int);
                &&& final(self)@ == oc.state
                &&& match r {
                    Ok(out) => oc.error is None && out.should_exit == oc.should_exit
                        && label_views(out.destroyed@) == oc.destroyed,
                    Err(e) => oc.error == Some(e),
                }
            }),
    {
        let should_exit = input.quit_pressed;
        if !self.registry.contains(&self.player) {
            return Err(FrameError::PlayerMissing);
        }
        let player_lbl = self.player.duplicate();
        let (dx, dy) = movement_delta(input.held, MOVEMENT_SPEED, input.delta_micros);
        let _ = self.registry.translate(&player_lbl, dx, dy);
        if input.mouse_clicked {
            if let Some(c) = input.cursor {
                let lbl = Label::minted_click(self.spawn_counter);
                let e = Entity {
                    label: lbl,
                    x: c.0,
                    y: c.1,
                    rotation: COLLECTIBLE_ROTATION,
                    collision: true,
                    preset: COLLECTIBLE_PRESET,
                };
                match self.registry.spawn(e) {
                    Ok(()) => {
                        self.spawn_counter = self.spawn_counter + 1;
                    },
                    Err(_) => {
                        return Err(FrameError::DuplicateLabel);
                    },
                }
            }
        }
        let destroyed = resolve_collisions(
            &mut self.registry,
            &mut self.score,
            &input.events,
            &player_lbl,
        );
        let fires = self.timer.tick(input.delta_micros);
        if fires > 0 {
            let lbl = Label::minted_timer(self.spawn_counter);
            let e = Entity {
                label: lbl,
                x: spawn_x,
                y: spawn_y,
                rotation: COLLECTIBLE_ROTATION,
                collision: true,
                preset: COLLECTIBLE_PRESET,
            };
            match self.registry.spawn(e) {
                Ok(()) => {
                    self.spawn_counter = self.spawn_counter + 1;
                },
                Err(_) => {
                    return Err(FrameError::DuplicateLabel);
                },
            }
        }
        if input.reset_held {
            self.score.reset_current();
        }
        Ok(FrameOutput { should_exit, destroyed })
    }

    /// One frame against the host's raw input, drawing the spot of a
    /// timer-driven spawn uniformly from the play area.
    ///
    /// Behaves as `frame_step_at` for some spot inside the area; nothing
    /// more is assumed of the randomness.
    pub fn frame_step(
        &mut self,
        input: &FrameInput,
        area: &PlayArea,
    ) -> (r: Result<FrameOutput, FrameError>)
        requires
            old(self).wf(),
            area.wf(),
            input.delta_micros <= MAX_FRAME_DELTA,
            old(self).spawn_counter <= u64::MAX - 2,
        ensures
            final(self).wf(),
            exists|sx: int, sy: int|
                {
                    &&& area.min_x <= sx < area.max_x
                    &&& area.min_y <= sy < area.max_y
                    &&& ({
                        let oc = #[trigger] spec_frame(old(self)@, input@, sx, sy);
                        &&& final(self)@ == oc.state
                        &&& match r {
                            Ok(out) => oc.error is None && out.should_exit == oc.should_exit
                                && label_views(out.destroyed@) == oc.destroyed,
                            Err(e) => oc.error == Some(e),
                        }
                    })
                },
    {
        let sx = random_in_range(area.min_x, area.max_x);
        let sy = random_in_range(area.min_y, area.max_y);
        let r = self.frame_step_at(input, sx, sy);
        proof {
            let oc = spec_frame(old(self)@, input@, sx as int, sy as int);
            assert(area.min_x <= (sx as int) < area.max_x && area.min_y <= (sy as int)
                < area.max_y);
        }
        r
    }
}

} // verus!
