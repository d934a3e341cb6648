use raytracer::path::{PathEvent, PathShade, PathState};

const BLACK: PathState = PathState::Done { shade: PathShade::Black };
const SKY: PathState = PathState::Done { shade: PathShade::Sky };

#[test]
fn depth_zero_is_black_whatever_happens() {
    let s = PathState::start(0);
    assert_eq!(s, BLACK);
    assert!(s.is_done());
    assert_eq!(s.advance(PathEvent::Missed), BLACK);
    assert_eq!(s.advance(PathEvent::Scattered), BLACK);
    assert_eq!(s.advance(PathEvent::Absorbed), BLACK);
}

#[test]
fn exhausted_tracing_state_is_black() {
    let s = PathState::Tracing { depth: 0 };
    assert_eq!(s.advance(PathEvent::Missed), BLACK);
}

#[test]
fn miss_shows_the_sky() {
    let s = PathState::start(50);
    assert_eq!(s, PathState::Tracing { depth: 50 });
    assert!(!s.is_done());
    assert_eq!(s.advance(PathEvent::Missed), SKY);
}

#[test]
fn absorption_is_black() {
    assert_eq!(PathState::start(3).advance(PathEvent::Absorbed), BLACK);
}

#[test]
fn scatter_uses_one_ray() {
    let s = PathState::start(3).advance(PathEvent::Scattered);
    assert_eq!(s, PathState::Tracing { depth: 2 });
    assert_eq!(s.advance(PathEvent::Missed), SKY);
}

#[test]
fn scatter_at_depth_one_is_black() {
    let s = PathState::start(1).advance(PathEvent::Scattered);
    assert_eq!(s, BLACK);
}

#[test]
fn finished_path_stays_finished() {
    assert_eq!(SKY.advance(PathEvent::Absorbed), SKY);
    assert_eq!(BLACK.advance(PathEvent::Missed), BLACK);
}

#[test]
fn path_ends_within_its_depth() {
    let mut s = PathState::start(50);
    let mut steps: u32 = 0;
    while !s.is_done() {
        s = s.advance(PathEvent::Scattered);
        steps += 1;
    }
    assert_eq!(steps, 50);
    assert_eq!(s, BLACK);
}

fn run(max_depth: u8, events: &[PathEvent]) -> PathState {
    let mut s = PathState::start(max_depth);
    for e in events {
        s = s.advance(*e);
    }
    s
}

#[test]
fn miss_after_scatters_within_depth_is_sky() {
    let events = [PathEvent::Scattered, PathEvent::Scattered, PathEvent::Missed];
    assert_eq!(run(3, &events), SKY);
    assert_eq!(run(2, &events), BLACK);
}

#[test]
fn absorption_after_scatters_is_black() {
    let events = [PathEvent::Scattered, PathEvent::Absorbed, PathEvent::Missed];
    assert_eq!(run(5, &events), BLACK);
}
