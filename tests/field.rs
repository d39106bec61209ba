use particles::particle::Particle;
use particles::state::{ConfigError, State};

fn positions(state: &State) -> Vec<[u64; 2]> {
    state.particles().iter().map(|p| *p.pos()).collect()
}

#[test]
fn particle_keeps_its_position() {
    let mut p = Particle::new([3, 4]);
    assert_eq!(*p.pos(), [3, 4]);
    p.pos_mut()[1] = 9;
    assert_eq!(*p.pos(), [3, 9]);
}

#[test]
fn new_places_every_particle_at_the_center() {
    let state = State::new(100, 60, 4, 3).unwrap();
    assert_eq!(state.particles().len(), 4);
    assert_eq!(state.speed(), 3);
    for p in positions(&state) {
        assert_eq!(p, [50, 30]);
    }
}

#[test]
fn new_with_odd_bounds_rounds_the_center_down() {
    let state = State::new(7, 9, 1, 1).unwrap();
    assert_eq!(positions(&state), vec![[3, 4]]);
}

#[test]
fn new_with_no_particles_is_empty() {
    let state = State::new(100, 100, 0, 2).unwrap();
    assert!(state.particles().is_empty());
}

#[test]
fn new_refuses_a_zero_speed() {
    assert_eq!(State::new(100, 100, 1, 0).err(), Some(ConfigError::NonPositiveSpeed));
}

#[test]
fn new_refuses_a_negative_speed() {
    assert_eq!(State::new(100, 100, 1, -4).err(), Some(ConfigError::NonPositiveSpeed));
}

#[test]
fn tick_takes_steps_that_stay_inside() {
    let mut state = State::new(100, 100, 2, 3).unwrap();
    state.tick(&vec![[5, -7], [-50 + 1, 49]]);
    assert_eq!(positions(&state), vec![[55, 43], [1, 99]]);
}

#[test]
fn tick_refuses_a_step_past_the_right_edge_on_that_axis_only() {
    let mut state = State::new(100, 100, 1, 3).unwrap();
    state.tick(&vec![[49, 0]]);
    assert_eq!(positions(&state), vec![[99, 50]]);
    state.tick(&vec![[2, 5]]);
    assert_eq!(positions(&state), vec![[99, 55]]);
}

#[test]
fn tick_refuses_landing_exactly_on_an_edge() {
    let mut state = State::new(100, 100, 1, 3).unwrap();
    state.tick(&vec![[50, -50]]);
    assert_eq!(positions(&state), vec![[50, 50]]);
    state.tick(&vec![[-50, 50]]);
    assert_eq!(positions(&state), vec![[50, 50]]);
}

#[test]
fn tick_refuses_huge_steps() {
    let mut state = State::new(100, 100, 1, 3).unwrap();
    state.tick(&vec![[i64::MAX, i64::MIN]]);
    assert_eq!(positions(&state), vec![[50, 50]]);
}

#[test]
fn tick_on_an_empty_field_does_nothing() {
    let mut state = State::new(100, 100, 0, 3).unwrap();
    state.tick(&vec![]);
    assert!(state.particles().is_empty());
}

#[test]
fn many_ticks_keep_every_particle_in_bounds() {
    let (w, h) = (40u64, 25u64);
    let mut state = State::new(w, h, 30, 3).unwrap();
    let mut seed: u64 = 12345;
    for _ in 0..500 {
        let steps: Vec<[i64; 2]> = (0..30)
            .map(|_| {
                seed = seed.wrapping_mul(6364136223846793005).wrapping_add(1442695040888963407);
                let a = ((seed >> 33) % 21) as i64 - 10;
                let b = ((seed >> 13) % 21) as i64 - 10;
                [a, b]
            })
            .collect();
        state.tick(&steps);
        for p in positions(&state) {
            assert!(p[0] <= w && p[1] <= h);
        }
    }
}

#[test]
fn resize_grows_with_new_particles_at_the_center() {
    let mut state = State::new(100, 80, 2, 3).unwrap();
    state.tick(&vec![[1, 2], [3, 4]]);
    state.update_num_particles(5);
    assert_eq!(
        positions(&state),
        vec![[51, 42], [53, 44], [50, 40], [50, 40], [50, 40]]
    );
}

#[test]
fn resize_shrinks_keeping_the_first_particles() {
    let mut state = State::new(100, 100, 4, 3).unwrap();
    state.tick(&vec![[1, 0], [2, 0], [3, 0], [4, 0]]);
    state.update_num_particles(2);
    assert_eq!(positions(&state), vec![[51, 50], [52, 50]]);
}

#[test]
fn resize_to_zero_empties_the_field() {
    let mut state = State::new(100, 100, 3, 3).unwrap();
    state.update_num_particles(0);
    assert!(state.particles().is_empty());
}

#[test]
fn resize_to_the_same_count_changes_nothing() {
    let mut state = State::new(100, 100, 2, 3).unwrap();
    state.tick(&vec![[1, 1], [-1, -1]]);
    state.update_num_particles(2);
    assert_eq!(positions(&state), vec![[51, 51], [49, 49]]);
}

#[test]
fn update_speed_takes_a_positive_speed() {
    let mut state = State::new(100, 100, 1, 3).unwrap();
    assert_eq!(state.update_speed(7), Ok(()));
    assert_eq!(state.speed(), 7);
}

#[test]
fn update_speed_refuses_a_non_positive_speed() {
    let mut state = State::new(100, 100, 1, 3).unwrap();
    assert_eq!(state.update_speed(0), Err(ConfigError::NonPositiveSpeed));
    assert_eq!(state.update_speed(-2), Err(ConfigError::NonPositiveSpeed));
    assert_eq!(state.speed(), 3);
}

#[test]
fn update_speed_twice_is_the_same_as_once() {
    let mut once = State::new(100, 100, 2, 3).unwrap();
    let mut twice = State::new(100, 100, 2, 3).unwrap();
    once.update_speed(5).unwrap();
    twice.update_speed(5).unwrap();
    twice.update_speed(5).unwrap();
    assert_eq!(once.speed(), twice.speed());
    let steps = vec![[4, -4], [60, 1]];
    once.tick(&steps);
    twice.tick(&steps);
    assert_eq!(positions(&once), positions(&twice));
}

#[test]
fn scenario_resize_then_speed_changes() {
    // Lengths in tenths of a unit: a 100 by 100 field and a speed of 3.0.
    let mut state = State::new(1000, 1000, 1, 30).unwrap();
    state.update_num_particles(5);
    assert_eq!(state.particles().len(), 5);
    for p in positions(&state) {
        assert_eq!(p, [500, 500]);
    }
    assert_eq!(state.update_speed(0), Err(ConfigError::NonPositiveSpeed));
    assert_eq!(state.speed(), 30);
    assert_eq!(state.update_speed(15), Ok(()));
    assert_eq!(state.speed(), 15);
}
