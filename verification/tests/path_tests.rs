use simple_ray_tracer::path::{BounceOutcome, PathState, SampleEnd};

#[test]
fn miss_ends_sample_with_sky() {
    let mut state = PathState::start(50);
    assert_eq!(state.step(BounceOutcome::Miss), Some(SampleEnd::Sky));
}

#[test]
fn absorption_ends_sample_dark() {
    let mut state = PathState::start(50);
    assert_eq!(state.step(BounceOutcome::Scattered), None);
    assert_eq!(state.step(BounceOutcome::Absorbed), Some(SampleEnd::Dark));
}

#[test]
fn scatter_continues_until_budget() {
    let mut state = PathState::start(3);
    assert_eq!(state.step(BounceOutcome::Scattered), None);
    assert_eq!(state.step(BounceOutcome::Scattered), None);
    // the third scattering bounce would reach the budget: the sample
    // ends without gathering any more light
    assert_eq!(state.step(BounceOutcome::Scattered), Some(SampleEnd::Dark));
}

#[test]
fn depth_one_ends_immediately() {
    let mut state = PathState::start(1);
    assert_eq!(state.step(BounceOutcome::Scattered), Some(SampleEnd::Dark));
    // the counter reset: the next sample behaves the same
    assert_eq!(state.step(BounceOutcome::Scattered), Some(SampleEnd::Dark));
}

#[test]
fn sample_end_resets_the_chain() {
    let mut state = PathState::start(2);
    assert_eq!(state.step(BounceOutcome::Scattered), None);
    assert_eq!(state.step(BounceOutcome::Miss), Some(SampleEnd::Sky));
    // after a finished sample the chain starts over
    assert_eq!(state.step(BounceOutcome::Scattered), None);
    assert_eq!(state.step(BounceOutcome::Scattered), Some(SampleEnd::Dark));
}

#[test]
fn every_event_sequence_terminates_within_budget() {
    // an adversarial all-scatter stream still ends within max_depth steps
    let max_depth = 10usize;
    let mut state = PathState::start(max_depth);
    let mut steps = 0usize;
    loop {
        steps += 1;
        if state.step(BounceOutcome::Scattered).is_some() {
            break;
        }
        assert!(steps < max_depth);
    }
    assert_eq!(steps, max_depth);
}

#[test]
fn zero_budget_gathers_no_scattered_light() {
    let mut state = PathState::start(0);
    assert_eq!(state.step(BounceOutcome::Scattered), Some(SampleEnd::Dark));
    assert_eq!(state.step(BounceOutcome::Absorbed), Some(SampleEnd::Dark));
    // a ray that leaves the scene unhit still shows the sky
    assert_eq!(state.step(BounceOutcome::Miss), Some(SampleEnd::Sky));
}
