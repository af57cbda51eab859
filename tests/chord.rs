use open_dwarf::action::Entity;
use open_dwarf::chord::{keyboard_movement, KeyCode, MovementChord};
use open_dwarf::grid::IVec3;

const MS: u64 = 1_000_000;

fn player() -> Option<Entity> {
    Some(Entity { index: 0 })
}

#[test]
fn chord_starts_idle_with_forty_ms_window() {
    let c = MovementChord::default();
    assert_eq!(c.first_key, None);
    assert_eq!(c.timer.duration, 40 * MS);
    assert_eq!(c.timer.elapsed, 0);
}

#[test]
fn forward_and_left_together_make_one_diagonal() {
    let mut c = MovementChord::default();
    let r = keyboard_movement(&mut c, &vec![KeyCode::KeyE, KeyCode::KeyS], player(), 3, 16 * MS);
    let a = r.unwrap();
    assert_eq!(a.direction, IVec3::new(-1, 1, 0));
    assert_eq!(a.time_started, 3);
    assert_eq!(a.timer.duration, 600 * MS);
    assert_eq!(c.first_key, None);
}

#[test]
fn forward_and_back_together_cancel() {
    let mut c = MovementChord::default();
    let r = keyboard_movement(&mut c, &vec![KeyCode::KeyE, KeyCode::KeyD], player(), 0, 16 * MS);
    assert!(r.is_none());
    assert_eq!(c.first_key, None);
}

#[test]
fn left_and_right_together_cancel() {
    let mut c = MovementChord::default();
    let r = keyboard_movement(&mut c, &vec![KeyCode::KeyF, KeyCode::KeyS], player(), 0, 16 * MS);
    assert!(r.is_none());
}

#[test]
fn other_keys_do_not_count() {
    let mut c = MovementChord::default();
    let keys = vec![KeyCode::F1, KeyCode::KeyF, KeyCode::Other, KeyCode::KeyD];
    let r = keyboard_movement(&mut c, &keys, player(), 0, 16 * MS);
    assert_eq!(r.unwrap().direction, IVec3::new(1, -1, 0));
}

#[test]
fn lone_key_waits_then_resolves_alone() {
    let mut c = MovementChord::default();
    assert!(keyboard_movement(&mut c, &vec![KeyCode::KeyF], player(), 0, 16 * MS).is_none());
    assert_eq!(c.first_key, Some(KeyCode::KeyF));
    assert!(keyboard_movement(&mut c, &vec![], player(), 16, 16 * MS).is_none());
    assert_eq!(c.timer.elapsed, 16 * MS);
    assert!(keyboard_movement(&mut c, &vec![], player(), 32, 16 * MS).is_none());
    let r = keyboard_movement(&mut c, &vec![], player(), 48, 16 * MS);
    assert_eq!(r.unwrap().direction, IVec3::new(1, 0, 0));
    assert_eq!(c.first_key, None);
    assert_eq!(c.timer.elapsed, 0);
}

#[test]
fn lone_key_then_partner_makes_diagonal() {
    let mut c = MovementChord::default();
    assert!(keyboard_movement(&mut c, &vec![KeyCode::KeyE], player(), 0, 16 * MS).is_none());
    let r = keyboard_movement(&mut c, &vec![KeyCode::KeyF], player(), 16, 16 * MS);
    assert_eq!(r.unwrap().direction, IVec3::new(1, 1, 0));
    assert_eq!(c.first_key, None);
}

#[test]
fn lone_key_then_same_axis_key_resolves_first() {
    let mut c = MovementChord::default();
    assert!(keyboard_movement(&mut c, &vec![KeyCode::KeyE], player(), 0, 16 * MS).is_none());
    let r = keyboard_movement(&mut c, &vec![KeyCode::KeyD], player(), 16, 16 * MS);
    assert_eq!(r.unwrap().direction, IVec3::new(0, 1, 0));
    assert_eq!(c.first_key, Some(KeyCode::KeyD));
}

#[test]
fn pending_invalid_key_expires_without_action() {
    let mut c = MovementChord::default();
    c.first_key = Some(KeyCode::F1);
    let r = keyboard_movement(&mut c, &vec![], player(), 0, 50 * MS);
    assert!(r.is_none());
    assert_eq!(c.first_key, None);
}

#[test]
fn no_player_no_action() {
    let mut c = MovementChord::default();
    let r = keyboard_movement(&mut c, &vec![KeyCode::KeyE, KeyCode::KeyS], None, 0, 16 * MS);
    assert!(r.is_none());
    assert_eq!(c, MovementChord::default());
}

#[test]
fn advance_reports_zero_when_idle() {
    let mut c = MovementChord::default();
    assert_eq!(c.advance(&vec![], 16 * MS), IVec3::new(0, 0, 0));
    assert_eq!(c, MovementChord::default());
}

#[test]
fn two_keys_leave_pending_chord_untouched() {
    let mut c = MovementChord::default();
    assert!(keyboard_movement(&mut c, &vec![KeyCode::KeyE], player(), 0, 16 * MS).is_none());
    assert!(keyboard_movement(&mut c, &vec![], player(), 16, 16 * MS).is_none());
    let before = c;
    assert_eq!(before.first_key, Some(KeyCode::KeyE));
    assert_eq!(before.timer.elapsed, 16 * MS);
    let r = keyboard_movement(&mut c, &vec![KeyCode::KeyS, KeyCode::KeyF], player(), 32, 16 * MS);
    assert!(r.is_none());
    assert_eq!(c, before);
    let r = keyboard_movement(&mut c, &vec![KeyCode::KeyD, KeyCode::KeyF], player(), 48, 16 * MS);
    assert_eq!(r.unwrap().direction, IVec3::new(1, -1, 0));
    assert_eq!(c, before);
}

#[test]
fn partner_in_expiry_tick_resolves_pending_alone() {
    let mut c = MovementChord::default();
    assert!(keyboard_movement(&mut c, &vec![KeyCode::KeyE], player(), 0, 16 * MS).is_none());
    assert!(keyboard_movement(&mut c, &vec![], player(), 16, 16 * MS).is_none());
    let r = keyboard_movement(&mut c, &vec![KeyCode::KeyF], player(), 32, 30 * MS);
    assert_eq!(r.unwrap().direction, IVec3::new(0, 1, 0));
    assert_eq!(c.first_key, Some(KeyCode::KeyF));
    assert_eq!(c.timer.elapsed, 0);
}

#[test]
fn expiry_with_no_fresh_key_goes_idle() {
    let mut c = MovementChord::default();
    assert!(keyboard_movement(&mut c, &vec![KeyCode::KeyS], player(), 0, 16 * MS).is_none());
    let r = keyboard_movement(&mut c, &vec![], player(), 16, 40 * MS);
    assert_eq!(r.unwrap().direction, IVec3::new(-1, 0, 0));
    assert_eq!(c.first_key, None);
    assert_eq!(c.timer.elapsed, 0);
}
