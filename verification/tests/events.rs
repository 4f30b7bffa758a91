use particle_system::camera_input::{InputKey, MouseButton};
use particle_system::events::{key_action, mouse_button_action, KeyAction, MouseAction};

#[test]
fn key_presses_pick_actions() {
    assert_eq!(key_action(InputKey::Escape, true), KeyAction::Exit);
    assert_eq!(key_action(InputKey::Digit1, true), KeyAction::InitCube);
    assert_eq!(key_action(InputKey::Digit2, true), KeyAction::InitSphere);
    assert_eq!(key_action(InputKey::KeyW, true), KeyAction::Camera);
    assert_eq!(key_action(InputKey::Other, true), KeyAction::Camera);
}

#[test]
fn key_releases_go_to_the_camera() {
    assert_eq!(key_action(InputKey::Escape, false), KeyAction::Camera);
    assert_eq!(key_action(InputKey::Digit1, false), KeyAction::Camera);
    assert_eq!(key_action(InputKey::Digit2, false), KeyAction::Camera);
    assert_eq!(key_action(InputKey::KeyS, false), KeyAction::Camera);
}

#[test]
fn mouse_buttons_pick_actions() {
    assert_eq!(mouse_button_action(MouseButton::Right, true), MouseAction::Camera);
    assert_eq!(mouse_button_action(MouseButton::Right, false), MouseAction::Camera);
    assert_eq!(mouse_button_action(MouseButton::Left, true), MouseAction::PlaceGravity);
    assert_eq!(mouse_button_action(MouseButton::Left, false), MouseAction::Ignore);
    assert_eq!(mouse_button_action(MouseButton::Other, true), MouseAction::Ignore);
}
