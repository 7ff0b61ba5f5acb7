use daikoku::clock::{FrameClock, FrameTick, FRAME_INTERVAL_MS};

#[test]
fn tick_at_exactly_one_interval_asks_no_reload() {
    let mut c = FrameClock::new(0);
    for i in 0..119u64 {
        let t = c.tick(i * 10);
        assert!(!t.force_reload);
        assert_eq!(t.frames, 0);
    }
    let t = c.tick(FRAME_INTERVAL_MS);
    assert_eq!(t, FrameTick { frames: 0, force_reload: false });
    let t = c.tick(FRAME_INTERVAL_MS + 1);
    assert_eq!(t, FrameTick { frames: 121, force_reload: true });
    let next = c.tick(FRAME_INTERVAL_MS + 2);
    assert_eq!(next, FrameTick { frames: 121, force_reload: false });
}

#[test]
fn one_hundred_twenty_ticks_in_an_interval() {
    let mut c = FrameClock::new(0);
    for i in 0..119u64 {
        assert!(!c.tick(i * 16).force_reload);
    }
    let t = c.tick(FRAME_INTERVAL_MS + 1);
    assert_eq!(t, FrameTick { frames: 120, force_reload: true });
    let fps = t.frames as f64 * 1000.0 / FRAME_INTERVAL_MS as f64;
    assert_eq!(fps, 60.0);
    assert!(!c.tick(FRAME_INTERVAL_MS + 1).force_reload);
    assert!(!c.tick(2 * FRAME_INTERVAL_MS + 1).force_reload);
    assert!(c.tick(2 * FRAME_INTERVAL_MS + 2).force_reload);
}

#[test]
fn reload_once_per_interval() {
    let mut c = FrameClock::new(1_000);
    let mut reloads = 0;
    for now in (1_000..11_000u64).step_by(16) {
        if c.tick(now).force_reload {
            reloads += 1;
        }
    }
    assert_eq!(reloads, 4);
}

#[test]
fn time_going_back_counts_as_no_time() {
    let mut c = FrameClock::new(5_000);
    let t = c.tick(1_000);
    assert!(!t.force_reload);
    assert_eq!(c.frames, 1);
}

#[test]
fn frame_count_saturates() {
    let mut c = FrameClock { frames: u64::MAX, since: 0, last_frames: 7 };
    assert_eq!(c.tick(1), FrameTick { frames: 7, force_reload: false });
    assert_eq!(c.frames, u64::MAX);
    assert_eq!(c.tick(FRAME_INTERVAL_MS + 1), FrameTick { frames: u64::MAX, force_reload: true });
}
