use arcade_core::collisions::{CollisionEvent, CollisionState};
use arcade_core::frame::{FrameError, FrameInput, PlayArea, Simulation, MOVEMENT_SPEED};
use arcade_core::label::Label;
use arcade_core::motion::{movement_delta, DirectionsHeld};
use arcade_core::registry::{Entity, Registry, RegistryError};
use arcade_core::score::ScoreState;
use arcade_core::timer::Timer;

const SECOND: u64 = 1_000_000;

fn no_keys() -> DirectionsHeld {
    DirectionsHeld { up: false, down: false, left: false, right: false }
}

fn quiet_frame(delta_micros: u64) -> FrameInput {
    FrameInput {
        delta_micros,
        held: no_keys(),
        reset_held: false,
        quit_pressed: false,
        mouse_clicked: false,
        cursor: None,
        events: Vec::new(),
    }
}

fn label(bytes: &[u8]) -> Label {
    Label::from_bytes(bytes.to_vec())
}

fn begin_event(a: &[u8], b: &[u8]) -> CollisionEvent {
    CollisionEvent { a: label(a), b: label(b), state: CollisionState::Begin }
}

fn collectible(bytes: &[u8], x: i64, y: i64) -> Entity {
    Entity { label: label(bytes), x, y, rotation: 0, collision: true, preset: 1 }
}

fn player_position(sim: &Simulation) -> (i64, i64) {
    sim.registry.position_of(&Label::player()).expect("player must be live")
}

#[test]
fn timer_fires_floor_of_total_over_duration() {
    // Many small ticks against one large tick of the same sum: both fire
    // floor(total / duration) times in all.
    let mut small = Timer::new(2 * SECOND, true);
    let mut small_fires: u64 = 0;
    for _ in 0..7 {
        small_fires += small.tick(600_000);
    }
    assert_eq!(small_fires, 2); // floor(4_200_000 / 2_000_000)

    let mut large = Timer::new(2 * SECOND, true);
    let large_fires = large.tick(4_200_000);
    assert_eq!(large_fires, 2);
    assert!(large.just_finished());

    // The remainder carries over identically: both need 1_800_000 more.
    assert_eq!(small.tick(1_800_000), 1);
    assert_eq!(large.tick(1_800_000), 1);
}

#[test]
fn timer_carries_overshoot_without_drift() {
    let mut t = Timer::new(2 * SECOND, true);
    assert_eq!(t.tick(1_999_999), 0);
    assert!(!t.just_finished());
    assert_eq!(t.tick(2), 1);
    assert!(t.just_finished());
    // 1 microsecond of overshoot was kept, not discarded.
    assert_eq!(t.tick(1_999_999), 1);
}

#[test]
fn non_repeating_timer_finishes_once() {
    let mut t = Timer::new(SECOND, false);
    assert_eq!(t.tick(1_500_000), 1);
    assert!(t.just_finished());
    assert_eq!(t.tick(SECOND), 0);
    assert!(!t.just_finished());
    assert_eq!(t.tick(10 * SECOND), 0);
}

#[test]
fn score_register_raises_high_water_mark() {
    let mut s = ScoreState::new();
    s.register_point();
    assert_eq!(s.current, 1);
    assert_eq!(s.high, 1);
    s.register_point();
    assert_eq!((s.current, s.high), (2, 2));
    s.reset_current();
    assert_eq!((s.current, s.high), (0, 2));
    s.register_point();
    assert_eq!((s.current, s.high), (1, 2));
    assert!(s.high >= s.current);
}

#[test]
fn score_saturates_at_machine_limit() {
    let mut s = ScoreState { current: u32::MAX, high: u32::MAX };
    s.register_point();
    assert_eq!((s.current, s.high), (u32::MAX, u32::MAX));
}

#[test]
fn registry_rejects_duplicate_label() {
    let mut r = Registry::new();
    assert!(r.spawn(collectible(b"c1", 1, 2)).is_ok());
    assert_eq!(r.spawn(collectible(b"c1", 3, 4)), Err(RegistryError::DuplicateLabel));
    assert_eq!(r.len(), 1);
    assert_eq!(r.position_of(&label(b"c1")), Some((1, 2)));
}

#[test]
fn registry_remove_is_a_noop_when_absent() {
    let mut r = Registry::new();
    assert!(r.spawn(collectible(b"c1", 0, 0)).is_ok());
    assert!(r.remove(&label(b"c1")));
    assert!(!r.remove(&label(b"c1")));
    assert_eq!(r.len(), 0);
}

#[test]
fn registry_translate_reports_not_found() {
    let mut r = Registry::new();
    assert_eq!(r.translate(&label(b"ghost"), 5, 5), Err(RegistryError::NotFound));
    assert!(r.spawn(collectible(b"c1", 10, -10)).is_ok());
    assert_eq!(r.translate(&label(b"c1"), 5, 5), Ok(()));
    assert_eq!(r.position_of(&label(b"c1")), Some((15, -5)));
}

#[test]
fn minted_labels_spell_out_prefix_and_counter() {
    assert_eq!(Label::player().bytes, b"player".to_vec());
    assert_eq!(Label::minted_click(0).bytes, b"ferris0".to_vec());
    assert_eq!(Label::minted_click(105).bytes, b"ferris105".to_vec());
    assert_eq!(Label::minted_timer(7).bytes, b"Ferris7".to_vec());
    assert_eq!(Label::minted_timer(9000).bytes, b"Ferris9000".to_vec());
    assert!(Label::minted_click(3).same_as(&label(b"ferris3")));
    assert!(!Label::minted_click(3).same_as(&Label::minted_timer(3)));
}

#[test]
fn movement_delta_scales_speed_by_time() {
    let held = DirectionsHeld { up: false, down: false, left: false, right: true };
    let (dx, dy) = movement_delta(held, 100, SECOND / 2);
    assert_eq!((dx, dy), (50, 0));
    let held = DirectionsHeld { up: true, down: false, left: true, right: false };
    let (dx, dy) = movement_delta(held, 100, SECOND);
    assert_eq!((dx, dy), (-100, 100));
}

#[test]
fn collision_begin_with_player_scores_and_removes() {
    // Player at the origin, collectible "c1" spawned on top of it; the
    // Begin event removes "c1" and takes both scores to 1.
    let mut sim = Simulation::new(2 * SECOND);
    assert!(sim.registry.spawn(collectible(b"c1", 0, 0)).is_ok());
    let mut input = quiet_frame(0);
    input.events.push(begin_event(b"player", b"c1"));
    let out = sim.frame_step_at(&input, 0, 0).expect("frame must pass");
    assert!(!sim.registry.contains(&label(b"c1")));
    assert_eq!(sim.score.current, 1);
    assert_eq!(sim.score.high, 1);
    assert_eq!(out.destroyed.len(), 1);
    assert!(out.destroyed[0].same_as(&label(b"c1")));
    assert!(!out.should_exit);
}

#[test]
fn duplicate_begin_event_scores_once() {
    // The same Begin event twice in one batch: the second finds the
    // entity gone and neither removes nor scores again.
    let mut sim = Simulation::new(2 * SECOND);
    assert!(sim.registry.spawn(collectible(b"c1", 0, 0)).is_ok());
    let mut input = quiet_frame(0);
    input.events.push(begin_event(b"player", b"c1"));
    input.events.push(begin_event(b"player", b"c1"));
    let out = sim.frame_step_at(&input, 0, 0).expect("frame must pass");
    assert_eq!(sim.score.current, 1);
    assert_eq!(out.destroyed.len(), 1);
}

#[test]
fn end_events_and_non_player_pairs_are_ignored() {
    let mut sim = Simulation::new(2 * SECOND);
    assert!(sim.registry.spawn(collectible(b"c1", 0, 0)).is_ok());
    assert!(sim.registry.spawn(collectible(b"c2", 5, 5)).is_ok());
    let mut input = quiet_frame(0);
    input.events.push(CollisionEvent {
        a: label(b"player"),
        b: label(b"c1"),
        state: CollisionState::End,
    });
    input.events.push(begin_event(b"c1", b"c2"));
    input.events.push(begin_event(b"player", b"player"));
    sim.frame_step_at(&input, 0, 0).expect("frame must pass");
    assert_eq!(sim.score.current, 0);
    assert!(sim.registry.contains(&label(b"c1")));
    assert!(sim.registry.contains(&label(b"c2")));
}

#[test]
fn opposing_directions_cancel_exactly() {
    // Up and down held together at speed 100 for one second: the net
    // vertical movement is +100 - 100 = 0.
    let mut sim = Simulation::new(2 * SECOND);
    let before = player_position(&sim);
    let mut input = quiet_frame(SECOND);
    input.held = DirectionsHeld { up: true, down: true, left: false, right: false };
    sim.frame_step_at(&input, 0, 0).expect("frame must pass");
    let after = player_position(&sim);
    assert_eq!(before, after);
    assert_eq!(after.1, 0);
}

#[test]
fn held_direction_moves_player_by_speed_times_delta() {
    let mut sim = Simulation::new(2 * SECOND);
    let mut input = quiet_frame(SECOND);
    input.held = DirectionsHeld { up: true, down: false, left: false, right: true };
    sim.frame_step_at(&input, 0, 0).expect("frame must pass");
    assert_eq!(player_position(&sim), (MOVEMENT_SPEED as i64, MOVEMENT_SPEED as i64));
}

#[test]
fn click_spawns_one_collectible_at_cursor() {
    // A fresh left-press with the cursor at (200, 150) spawns exactly one
    // entity there, under a label never used before, and the spawn
    // counter rises by exactly one.
    let mut sim = Simulation::new(2 * SECOND);
    let fresh = Label::minted_click(0);
    assert!(!sim.registry.contains(&fresh));
    let entities_before = sim.registry.len();
    let counter_before = sim.spawn_counter;

    let mut input = quiet_frame(0);
    input.mouse_clicked = true;
    input.cursor = Some((200, 150));
    sim.frame_step_at(&input, 0, 0).expect("frame must pass");

    assert_eq!(sim.registry.len(), entities_before + 1);
    assert_eq!(sim.spawn_counter, counter_before + 1);
    assert_eq!(sim.registry.position_of(&fresh), Some((200, 150)));
}

#[test]
fn click_without_cursor_spawns_nothing() {
    let mut sim = Simulation::new(2 * SECOND);
    let mut input = quiet_frame(0);
    input.mouse_clicked = true;
    input.cursor = None;
    sim.frame_step_at(&input, 0, 0).expect("frame must pass");
    assert_eq!(sim.registry.len(), 1);
    assert_eq!(sim.spawn_counter, 0);
}

#[test]
fn reset_key_held_clears_current_score_each_frame() {
    // Reset held for three consecutive frames: the current score is zero
    // after each frame, and the high score never changes from it.
    let mut sim = Simulation::new(2 * SECOND);
    assert!(sim.registry.spawn(collectible(b"c1", 0, 0)).is_ok());
    let mut scoring = quiet_frame(0);
    scoring.events.push(begin_event(b"player", b"c1"));
    sim.frame_step_at(&scoring, 0, 0).expect("frame must pass");
    assert_eq!((sim.score.current, sim.score.high), (1, 1));

    for _ in 0..3 {
        let mut input = quiet_frame(0);
        input.reset_held = true;
        sim.frame_step_at(&input, 0, 0).expect("frame must pass");
        assert_eq!(sim.score.current, 0);
        assert_eq!(sim.score.high, 1);
    }
}

#[test]
fn timer_spawn_lands_at_given_spot_with_timer_label() {
    let mut sim = Simulation::new(2 * SECOND);
    // Not enough time yet: no spawn.
    sim.frame_step_at(&quiet_frame(SECOND), 77, -33).expect("frame must pass");
    assert_eq!(sim.registry.len(), 1);
    // The second second completes the cycle: one spawn at the given spot.
    sim.frame_step_at(&quiet_frame(SECOND), 77, -33).expect("frame must pass");
    assert_eq!(sim.registry.len(), 2);
    assert_eq!(sim.spawn_counter, 1);
    assert_eq!(sim.registry.position_of(&Label::minted_timer(0)), Some((77, -33)));
}

#[test]
fn random_timer_spawn_stays_inside_play_area() {
    let mut sim = Simulation::new(2 * SECOND);
    let area = PlayArea { min_x: -550, max_x: 550, min_y: -325, max_y: 325 };
    sim.frame_step(&quiet_frame(2 * SECOND), &area).expect("frame must pass");
    assert_eq!(sim.registry.len(), 2);
    let (x, y) = sim
        .registry
        .position_of(&Label::minted_timer(0))
        .expect("the timer spawn must be live");
    assert!(area.min_x <= x && x < area.max_x);
    assert!(area.min_y <= y && y < area.max_y);
}

#[test]
fn quit_edge_is_latched_into_the_output() {
    let mut sim = Simulation::new(2 * SECOND);
    let mut input = quiet_frame(0);
    input.quit_pressed = true;
    let out = sim.frame_step_at(&input, 0, 0).expect("frame must pass");
    assert!(out.should_exit);
    // Play would continue: the state is still intact.
    assert!(sim.registry.contains(&Label::player()));
}

#[test]
fn missing_player_is_a_fatal_fault() {
    let mut sim = Simulation::new(2 * SECOND);
    assert!(sim.registry.remove(&Label::player()));
    let r = sim.frame_step_at(&quiet_frame(0), 0, 0);
    assert_eq!(r.err(), Some(FrameError::PlayerMissing));
}

#[test]
fn clashing_minted_label_is_a_fatal_fault() {
    let mut sim = Simulation::new(2 * SECOND);
    // An entity squatting on the next click label corrupts the session.
    assert!(sim.registry.spawn(collectible(b"ferris0", 9, 9)).is_ok());
    let mut input = quiet_frame(0);
    input.mouse_clicked = true;
    input.cursor = Some((1, 2));
    let r = sim.frame_step_at(&input, 0, 0);
    assert_eq!(r.err(), Some(FrameError::DuplicateLabel));
}

#[test]
fn negative_delta_is_not_representable_and_zero_is_harmless() {
    // Frame deltas are unsigned, so a negative delta cannot arrive; a
    // zero delta leaves the timer and positions untouched.
    let mut sim = Simulation::new(2 * SECOND);
    let mut input = quiet_frame(0);
    input.held = DirectionsHeld { up: true, down: false, left: false, right: false };
    sim.frame_step_at(&input, 0, 0).expect("frame must pass");
    assert_eq!(player_position(&sim), (0, 0));
    assert_eq!(sim.timer.elapsed, 0);
}
