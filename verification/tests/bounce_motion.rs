use pico_oled::bounce::{Bounce, Direction, Step, BOTTOM, PAUSE_MS, TOP};

#[test]
fn bounds_and_pause() {
    assert_eq!(TOP, 0);
    assert_eq!(BOTTOM, -70);
    assert_eq!(PAUSE_MS, 5000);
}

#[test]
fn starts_at_the_top_descending() {
    let bounce = Bounce::new();
    assert_eq!(bounce.offset(), 0);
    assert_eq!(bounce.direction(), Direction::Descending);
    assert!(!bounce.at_turn());
}

#[test]
fn seventy_frames_down_then_pause_and_turn() {
    let mut bounce = Bounce::new();
    for frame in 1..=70 {
        assert_eq!(bounce.step(), Step::Moved);
        assert_eq!(bounce.offset(), -frame);
        assert_eq!(bounce.direction(), Direction::Descending);
    }
    assert_eq!(bounce.offset(), -70);
    assert!(bounce.at_turn());
    assert_eq!(bounce.step(), Step::Turned { pause_ms: 5000 });
    assert_eq!(bounce.offset(), -70);
    assert_eq!(bounce.direction(), Direction::Ascending);
}

#[test]
fn seventy_frames_up_then_pause_and_turn() {
    let mut bounce = Bounce::at(-70, Direction::Ascending).unwrap();
    for frame in 1..=70 {
        assert_eq!(bounce.step(), Step::Moved);
        assert_eq!(bounce.offset(), -70 + frame);
        assert_eq!(bounce.direction(), Direction::Ascending);
    }
    assert_eq!(bounce.offset(), 0);
    assert_eq!(bounce.step(), Step::Turned { pause_ms: 5000 });
    assert_eq!(bounce.offset(), 0);
    assert_eq!(bounce.direction(), Direction::Descending);
}

#[test]
fn offset_never_leaves_the_bounds() {
    let mut bounce = Bounce::new();
    for _ in 0..1000 {
        let _ = bounce.step();
        assert!(bounce.offset() >= -70);
        assert!(bounce.offset() <= 0);
    }
}

#[test]
fn direction_flips_only_on_the_bound_ahead() {
    let mut bounce = Bounce::new();
    let mut turns: u32 = 0;
    for _ in 0..1000 {
        let offset_before: i32 = bounce.offset();
        let direction_before = bounce.direction();
        let ahead: i32 = match direction_before {
            Direction::Descending => -70,
            Direction::Ascending => 0,
        };
        let step = bounce.step();
        if offset_before == ahead {
            assert_eq!(step, Step::Turned { pause_ms: 5000 });
            assert_ne!(bounce.direction(), direction_before);
            assert_eq!(bounce.offset(), offset_before);
            turns += 1;
        } else {
            assert_eq!(step, Step::Moved);
            assert_eq!(bounce.direction(), direction_before);
            let moved: i32 = match direction_before {
                Direction::Descending => offset_before - 1,
                Direction::Ascending => offset_before + 1,
            };
            assert_eq!(bounce.offset(), moved);
        }
    }
    assert_eq!(turns, 14);
}

#[test]
fn a_turn_is_followed_by_a_move() {
    let mut low = Bounce::at(-70, Direction::Descending).unwrap();
    assert_eq!(low.step(), Step::Turned { pause_ms: 5000 });
    assert_eq!(low.step(), Step::Moved);
    assert_eq!(low.offset(), -69);
    assert_eq!(low.direction(), Direction::Ascending);
    let mut high = Bounce::at(0, Direction::Ascending).unwrap();
    assert_eq!(high.step(), Step::Turned { pause_ms: 5000 });
    assert_eq!(high.step(), Step::Moved);
    assert_eq!(high.offset(), -1);
    assert_eq!(high.direction(), Direction::Descending);
}

#[test]
fn a_round_trip_takes_one_hundred_and_forty_two_frames() {
    let mut bounce = Bounce::new();
    let mut pauses: u32 = 0;
    for _ in 0..142 {
        if bounce.step() != Step::Moved {
            pauses += 1;
        }
    }
    assert_eq!(pauses, 2);
    assert_eq!(bounce.offset(), 0);
    assert_eq!(bounce.direction(), Direction::Descending);
}

#[test]
fn at_accepts_only_offsets_within_the_bounds() {
    assert!(Bounce::at(0, Direction::Descending).is_some());
    assert!(Bounce::at(-70, Direction::Ascending).is_some());
    assert!(Bounce::at(-35, Direction::Ascending).is_some());
    assert!(Bounce::at(1, Direction::Descending).is_none());
    assert!(Bounce::at(-71, Direction::Ascending).is_none());
    assert!(Bounce::at(i32::MAX, Direction::Ascending).is_none());
    assert!(Bounce::at(i32::MIN, Direction::Descending).is_none());
    let bounce = Bounce::at(-35, Direction::Ascending).unwrap();
    assert_eq!(bounce.offset(), -35);
    assert_eq!(bounce.direction(), Direction::Ascending);
}

#[test]
fn at_turn_names_the_bound_ahead_only() {
    assert!(Bounce::at(-70, Direction::Descending).unwrap().at_turn());
    assert!(Bounce::at(0, Direction::Ascending).unwrap().at_turn());
    assert!(!Bounce::at(0, Direction::Descending).unwrap().at_turn());
    assert!(!Bounce::at(-70, Direction::Ascending).unwrap().at_turn());
    assert!(!Bounce::at(-1, Direction::Ascending).unwrap().at_turn());
    assert!(!Bounce::at(-69, Direction::Descending).unwrap().at_turn());
}
