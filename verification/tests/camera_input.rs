use particle_system::camera_input::{CameraKey, InputKey, KeyStates, MouseButton};

const ALL: [CameraKey; 7] = [
    CameraKey::Forward,
    CameraKey::Backward,
    CameraKey::Left,
    CameraKey::Right,
    CameraKey::Enable,
    CameraKey::RollLeft,
    CameraKey::RollRight,
];

fn held(s: &KeyStates) -> Vec<CameraKey> {
    ALL.iter().copied().filter(|k| s.is_held(*k)).collect()
}

#[test]
fn nothing_held_at_start() {
    let s = KeyStates::new();
    assert!(held(&s).is_empty());
    assert!(!s.mouse_look_active());
}

#[test]
fn masks_are_the_flag_bits() {
    assert_eq!(CameraKey::Forward.mask(), 0b0000001);
    assert_eq!(CameraKey::Backward.mask(), 0b0000010);
    assert_eq!(CameraKey::Left.mask(), 0b0000100);
    assert_eq!(CameraKey::Right.mask(), 0b0001000);
    assert_eq!(CameraKey::Enable.mask(), 0b0010000);
    assert_eq!(CameraKey::RollLeft.mask(), 0b0100000);
    assert_eq!(CameraKey::RollRight.mask(), 0b1000000);
}

#[test]
fn keys_drive_their_controls() {
    assert_eq!(InputKey::KeyW.camera_key(), Some(CameraKey::Forward));
    assert_eq!(InputKey::KeyS.camera_key(), Some(CameraKey::Backward));
    assert_eq!(InputKey::KeyA.camera_key(), Some(CameraKey::Left));
    assert_eq!(InputKey::KeyD.camera_key(), Some(CameraKey::Right));
    assert_eq!(InputKey::KeyE.camera_key(), Some(CameraKey::RollRight));
    assert_eq!(InputKey::KeyQ.camera_key(), Some(CameraKey::RollLeft));
    assert_eq!(InputKey::Escape.camera_key(), None);
    assert_eq!(InputKey::Digit1.camera_key(), None);
    assert_eq!(InputKey::Other.camera_key(), None);
}

#[test]
fn press_and_release_only_touch_one_control() {
    let mut s = KeyStates::new();
    s.handle_input(InputKey::KeyW, true);
    s.handle_input(InputKey::KeyQ, true);
    assert_eq!(held(&s), vec![CameraKey::Forward, CameraKey::RollLeft]);
    s.handle_input(InputKey::KeyW, false);
    assert_eq!(held(&s), vec![CameraKey::RollLeft]);
    s.handle_input(InputKey::KeyW, false);
    assert_eq!(held(&s), vec![CameraKey::RollLeft]);
}

#[test]
fn other_keys_change_nothing() {
    let mut s = KeyStates::new();
    s.handle_input(InputKey::KeyD, true);
    s.handle_input(InputKey::Escape, true);
    s.handle_input(InputKey::Digit2, false);
    s.handle_input(InputKey::Other, true);
    assert_eq!(held(&s), vec![CameraKey::Right]);
}

#[test]
fn right_button_toggles_free_look() {
    let mut s = KeyStates::new();
    s.handle_mouse_button(MouseButton::Right, true);
    assert!(s.mouse_look_active());
    assert_eq!(held(&s), vec![CameraKey::Enable]);
    s.handle_mouse_button(MouseButton::Left, false);
    s.handle_mouse_button(MouseButton::Other, false);
    assert!(s.mouse_look_active());
    s.handle_mouse_button(MouseButton::Right, false);
    assert!(!s.mouse_look_active());
    assert!(held(&s).is_empty());
}

#[test]
fn no_motion_without_free_look() {
    let mut s = KeyStates::new();
    for k in [InputKey::KeyW, InputKey::KeyS, InputKey::KeyA, InputKey::KeyD, InputKey::KeyE, InputKey::KeyQ] {
        s.handle_input(k, true);
    }
    let m = s.motion();
    assert!(!m.forward && !m.backward && !m.left && !m.right && !m.roll_left && !m.roll_right);
}

#[test]
fn motion_follows_held_controls() {
    let mut s = KeyStates::new();
    s.handle_mouse_button(MouseButton::Right, true);
    s.handle_input(InputKey::KeyW, true);
    s.handle_input(InputKey::KeyE, true);
    let m = s.motion();
    assert!(m.forward && m.roll_right);
    assert!(!m.backward && !m.left && !m.right && !m.roll_left);
}

#[test]
fn press_then_release_restores_other_controls() {
    let mut s = KeyStates::new();
    s.set(CameraKey::Left, true);
    s.set(CameraKey::Backward, true);
    s.set(CameraKey::Backward, false);
    assert_eq!(held(&s), vec![CameraKey::Left]);
}
