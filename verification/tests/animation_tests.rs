use tileworld::animation::{
    get_default_anim, Animation, AnimationSelectError, Frame, FrameSet, DEFAULT_ANIM_KEY,
};
use tileworld::clock::Clock;
use tileworld::space::Direction;

#[test]
fn default_anim_shape() {
    let a = get_default_anim(Frame { x: 2, y: 4 });
    assert_eq!(a.frame_sets.len(), 1);
    assert_eq!(a.frame_sets[0].key, DEFAULT_ANIM_KEY);
    assert_eq!(a.frame_sets[0].base, Frame { x: 2, y: 4 });
    assert_eq!(a.frame_sets[0].len, 1);
    assert_eq!(a.current_frame(), Frame { x: 2, y: 4 });
}

#[test]
fn new_rejects_empty_registry() {
    assert!(Animation::new(Vec::new(), 1).is_none());
}

#[test]
fn new_rejects_zero_duration() {
    let sets = vec![FrameSet { key: 0, base: Frame { x: 0, y: 0 }, len: 1 }];
    assert!(Animation::new(sets, 0).is_none());
}

#[test]
fn new_rejects_empty_frame_set() {
    let sets = vec![FrameSet { key: 0, base: Frame { x: 0, y: 0 }, len: 0 }];
    assert!(Animation::new(sets, 1).is_none());
}

#[test]
fn select_switches_to_keyed_set() {
    let sets = vec![
        FrameSet { key: 7, base: Frame { x: 1, y: 1 }, len: 3 },
        FrameSet { key: 9, base: Frame { x: 5, y: 2 }, len: 2 },
    ];
    let mut a = Animation::new(sets, 2).unwrap();
    assert_eq!(a.select(9), Ok(()));
    assert_eq!(a.current, 1);
    assert_eq!(a.frame_index, 0);
    assert_eq!(a.current_frame(), Frame { x: 5, y: 2 });
}

#[test]
fn select_unregistered_key_keeps_frame() {
    let sets = vec![
        FrameSet { key: 7, base: Frame { x: 1, y: 1 }, len: 3 },
        FrameSet { key: 9, base: Frame { x: 5, y: 2 }, len: 2 },
    ];
    let mut a = Animation::new(sets, 2).unwrap();
    assert_eq!(a.select(9), Ok(()));
    let before = a.current_frame();
    assert_eq!(a.select(42), Err(AnimationSelectError));
    assert_eq!(a.current_frame(), before);
    assert_eq!(a.current_frame(), Frame { x: 5, y: 2 });
}

#[test]
fn advance_steps_and_wraps() {
    let sets = vec![FrameSet { key: 0, base: Frame { x: 0, y: 0 }, len: 2 }];
    let mut a = Animation::new(sets, 2).unwrap();
    let mut clock = Clock::new();
    clock.tick();
    a.advance(&clock);
    assert_eq!(a.frame_index, 0);
    clock.tick();
    a.advance(&clock);
    assert_eq!(a.frame_index, 1);
    clock.tick();
    a.advance(&clock);
    assert_eq!(a.frame_index, 1);
    clock.tick();
    a.advance(&clock);
    assert_eq!(a.frame_index, 0);
}

#[test]
fn frame_index_stays_in_bounds() {
    let sets = vec![FrameSet { key: 0, base: Frame { x: 3, y: 1 }, len: 3 }];
    let mut a = Animation::new(sets, 1).unwrap();
    let mut clock = Clock::new();
    let mut n = 0;
    while n < 100 {
        clock.tick();
        a.advance(&clock);
        assert!(a.frame_index < a.frame_sets[a.current].len);
        let f = a.current_frame();
        assert!(f.x >= 3 && f.x <= 5 && f.y == 1);
        n += 1;
    }
}

#[test]
fn clock_ticks_and_saturates() {
    let mut c = Clock::new();
    c.tick();
    c.tick();
    assert_eq!(c.time(), 2);
    let mut m = Clock { time: u64::MAX - 1 };
    m.tick();
    assert_eq!(m.time(), u64::MAX);
    m.tick();
    assert_eq!(m.time(), u64::MAX);
}

#[test]
fn direction_keys_select_frame_sets() {
    let sets = vec![
        FrameSet { key: Direction::Up.anim_key(), base: Frame { x: 0, y: 0 }, len: 2 },
        FrameSet { key: Direction::Down.anim_key(), base: Frame { x: 0, y: 1 }, len: 2 },
        FrameSet { key: Direction::Left.anim_key(), base: Frame { x: 0, y: 2 }, len: 2 },
        FrameSet { key: Direction::Right.anim_key(), base: Frame { x: 0, y: 3 }, len: 2 },
    ];
    let mut a = Animation::new(sets, 1).unwrap();
    assert_eq!(a.select(Direction::Left.anim_key()), Ok(()));
    assert_eq!(a.current_frame(), Frame { x: 0, y: 2 });
    assert_eq!(a.select(Direction::Right.anim_key()), Ok(()));
    assert_eq!(a.current_frame(), Frame { x: 0, y: 3 });
}
