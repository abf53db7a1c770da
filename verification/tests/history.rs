use voxel::input::history::{InputSnapshot, InputSnapshotBuffer, MAX_RING_BUF_ENTRIES};
use voxel::input::keyboard::{ElementState, Keyboard};
use voxel::input::keys;
use voxel::input::settings::Keybindings;

fn snap(keys: u8) -> InputSnapshot {
    InputSnapshot { keys, yaw_delta: 0, pitch_delta: 0 }
}

#[test]
fn test_push() {
    const TEST_VALS: [u8; 5] = [3, 1, 5, 2, 8];

    let mut buf = InputSnapshotBuffer::default();

    assert_eq!(buf.len(), 0);

    for x in TEST_VALS {
        buf.push_new_snapshot(InputSnapshot { keys: x, yaw_delta: 0, pitch_delta: 0 });
    }

    assert_eq!(buf.len(), TEST_VALS.len());

    for (a, &b) in buf.iter().zip(TEST_VALS.iter()) {
        assert_eq!(a.keys, b);
    }
}

#[test]
fn test_overflow() {
    let mut buf = InputSnapshotBuffer::default();

    for i in 0..MAX_RING_BUF_ENTRIES {
        buf.push_new_snapshot(InputSnapshot { keys: i as _, yaw_delta: 0, pitch_delta: 0 });
    }
    assert_eq!(buf.iter().next().map(|s| s.keys), Some(0));
    assert_eq!(buf.iter().nth(1).map(|s| s.keys), Some(1));

    buf.push_new_snapshot(InputSnapshot { keys: 32, yaw_delta: 0, pitch_delta: 0 });
    assert_eq!(buf.iter().next().map(|s| s.keys), Some(1));
    assert_eq!(buf.iter().last().map(|s| s.keys), Some(32));

    buf.push_new_snapshot(InputSnapshot { keys: 33, yaw_delta: 0, pitch_delta: 0 });
    assert_eq!(buf.iter().next().map(|s| s.keys), Some(2));
    assert_eq!(buf.iter().nth(1).map(|s| s.keys), Some(3));
    assert_eq!(buf.iter().last().map(|s| s.keys), Some(33));
}

#[test]
fn test_gameticks() {}

#[test]
fn ring_never_holds_more_than_capacity() {
    let mut buf = InputSnapshotBuffer::default();
    for i in 0..100u32 {
        buf.push_new_snapshot(snap(i as u8));
        assert!(buf.len() <= MAX_RING_BUF_ENTRIES);
    }
    assert_eq!(buf.len(), MAX_RING_BUF_ENTRIES);
    let keys: Vec<u8> = buf.snapshots().iter().map(|s| s.keys).collect();
    let expected: Vec<u8> = (68u8..100).collect();
    assert_eq!(keys, expected);
}

#[test]
fn gametick_lookup_and_dropping() {
    let mut buf = InputSnapshotBuffer::default();
    for k in [10u8, 11, 12, 13] {
        buf.push_new_snapshot(snap(k));
    }
    assert_eq!(buf.get_by_gametick(0).map(|s| s.keys), Some(10));
    assert_eq!(buf.get_by_gametick(2).map(|s| s.keys), Some(12));
    buf.drop_all_before_gametick(2);
    assert_eq!(buf.len(), 2);
    assert_eq!(buf.get_by_gametick(1), None);
    assert_eq!(buf.get_by_gametick(2).map(|s| s.keys), Some(12));
    assert_eq!(buf.get_by_gametick(3).map(|s| s.keys), Some(13));
    // Ticks before the oldest one are ignored.
    buf.drop_all_before_gametick(0);
    assert_eq!(buf.len(), 2);
}

#[test]
fn snapshot_takes_held_movement_keys() {
    let mut kb = Keyboard::new();
    Keyboard::tick(&mut kb);
    Keyboard::handle_key_event(&mut kb, keys::W, ElementState::Pressed);
    Keyboard::handle_key_event(&mut kb, keys::D, ElementState::Pressed);
    Keyboard::handle_key_event(&mut kb, keys::SPACE, ElementState::Pressed);
    Keyboard::tick(&mut kb);
    let s = InputSnapshot::take(&kb, &Keybindings::default_bindings(), 7, 9);
    assert_eq!(s.keys, 4 | 2 | 16);
    assert_eq!((s.yaw_delta, s.pitch_delta), (7, 9));
    assert_eq!(s.movement_axes(), (1, 1, 1));
    assert_eq!(snap(1 | 8 | 32).movement_axes(), (-1, -1, -1));
    assert_eq!(snap(1 | 2).movement_axes(), (0, 0, 0));
}

#[test]
fn a_release_shows_only_in_its_frame() {
    let mut kb = Keyboard::new();
    Keyboard::tick(&mut kb);
    Keyboard::handle_key_event(&mut kb, keys::W, ElementState::Pressed);
    Keyboard::tick(&mut kb);
    Keyboard::tick(&mut kb);
    assert_eq!(kb.pressed_frames(keys::W), 2);
    Keyboard::handle_key_event(&mut kb, keys::W, ElementState::Released);
    assert_eq!(kb.just_released_frames(keys::W), 2);
    Keyboard::tick(&mut kb);
    assert_eq!(kb.just_released_frames(keys::W), 0);
    assert_eq!(kb.pressed_frames(keys::W), 0);
}
