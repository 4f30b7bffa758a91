//! Which camera controls are held down, kept as one flag bit per control,
//! and what the camera does with them on each update.

use vstd::prelude::*;

verus! {

/// A camera control that the user can hold down.
#[derive(PartialEq, Eq, Structural, Clone, Copy, Debug)]
pub enum CameraKey {
    Forward,
    Backward,
    Left,
    Right,
    /// Free look: movement and mouse look act only while it is held.
    Enable,
    RollLeft,
    RollRight,
}

/// A physical keyboard key, as far as the simulation tells keys apart.
#[derive(PartialEq, Eq, Structural, Clone, Copy, Debug)]
pub enum InputKey {
    KeyW,
    KeyS,
    KeyA,
    KeyD,
    KeyE,
    KeyQ,
    Escape,
    Digit1,
    Digit2,
    Other,
}

/// A mouse button, as far as the simulation tells buttons apart.
#[derive(PartialEq, Eq, Structural, Clone, Copy, Debug)]
pub enum MouseButton {
    Left,
    Right,
    Other,
}

impl CameraKey {
    /// Position of the control's flag in the key state byte.
    pub open spec fn bit_index(self) -> u8 {
        match self {
            CameraKey::Forward => 0,
            CameraKey::Backward => 1,
            CameraKey::Left => 2,
            CameraKey::Right => 3,
            CameraKey::Enable => 4,
            CameraKey::RollLeft => 5,
            CameraKey::RollRight => 6,
        }
    }

    /// The control's flag in the key state byte.
    pub open spec fn spec_mask(self) -> u8 {
        (1u8 << self.bit_index())
    }

    /// The control's flag in the key state byte.
    pub fn mask(&self) -> (r: u8)
        ensures
            r == self.spec_mask(),
    {
        let index: u8 = match self {
            CameraKey::Forward => 0,
            CameraKey::Backward => 1,
            CameraKey::Left => 2,
            CameraKey::Right => 3,
            CameraKey::Enable => 4,
            CameraKey::RollLeft => 5,
            CameraKey::RollRight => 6,
        };
        1u8 << index
    }
}

impl InputKey {
    /// The camera control that a key drives: W, S, A and D move, Q and E
    /// roll; other keys drive none.
    pub open spec fn spec_camera_key(self) -> Option<CameraKey> {
        match self {
            InputKey::KeyW => Some(CameraKey::Forward),
            InputKey::KeyS => Some(CameraKey::Backward),
            InputKey::KeyA => Some(CameraKey::Left),
            InputKey::KeyD => Some(CameraKey::Right),
            InputKey::KeyE => Some(CameraKey::RollRight),
            InputKey::KeyQ => Some(CameraKey::RollLeft),
            _ => None,
        }
    }

    /// The camera control that a key drives, if any.
    pub fn camera_key(&self) -> (r: Option<CameraKey>)
        ensures
            r == self.spec_camera_key(),
    {
        match self {
            InputKey::KeyW => Some(CameraKey::Forward),
            InputKey::KeyS => Some(CameraKey::Backward),
            InputKey::KeyA => Some(CameraKey::Left),
            InputKey::KeyD => Some(CameraKey::Right),
            InputKey::KeyE => Some(CameraKey::RollRight),
            InputKey::KeyQ => Some(CameraKey::RollLeft),
            _ => None,
        }
    }
}

/// Setting a flag keeps every other flag and sets that one.
proof fn lemma_or_flag(b: u8, m: u8, n: u8)
    by (bit_vector)
    ensures
        ((b | m) & n != 0) == ((b & n != 0) || (m & n != 0)),
{
}

/// Clearing a flag keeps every flag that does not share a bit with it.
proof fn lemma_clear_other_flag(b: u8, m: u8, n: u8)
    by (bit_vector)
    requires
        m & n == 0,
    ensures
        ((b & !m) & n != 0) == (b & n != 0),
{
}

/// Clearing a flag clears it.
proof fn lemma_clear_same_flag(b: u8, m: u8)
    by (bit_vector)
    ensures
        (b & !m) & m == 0,
{
}

/// No flag is set in the empty state.
proof fn lemma_no_flag(m: u8)
    by (bit_vector)
    ensures
        0u8 & m == 0,
{
}

/// Distinct bit positions give flags that share no bit; a flag is not zero.
proof fn lemma_single_bits(i: u8, j: u8)
    by (bit_vector)
    requires
        i < 7,
        j < 7,
    ensures
        i != j ==> (1u8 << i) & (1u8 << j) == 0,
        (1u8 << i) & (1u8 << i) != 0,
{
}

/// The flags of two distinct controls share no bit, and each flag is set
/// in itself.
pub proof fn lemma_masks_disjoint(k: CameraKey, l: CameraKey)
    ensures
        k != l ==> k.spec_mask() & l.spec_mask() == 0,
        k.spec_mask() & k.spec_mask() != 0,
{
    lemma_single_bits(k.bit_index(), l.bit_index());
}

/// The set of camera controls held down, one flag bit per control.
pub struct KeyStates {
    key_states: u8,
}

impl View for KeyStates {
    type V = Set<CameraKey>;

    /// The controls whose flag is set.
    closed spec fn view(&self) -> Set<CameraKey> {
        Set::new(|k: CameraKey| self.key_states & k.spec_mask() != 0)
    }
}

/// Which camera movements an update applies.
#[derive(PartialEq, Eq, Structural, Clone, Copy, Debug)]
pub struct CameraMotion {
    pub forward: bool,
    pub backward: bool,
    pub left: bool,
    pub right: bool,
    pub roll_left: bool,
    pub roll_right: bool,
}

impl KeyStates {
    /// No control held.
    pub fn new() -> (r: Self)
        ensures
            r@ == Set::<CameraKey>::empty(),
    {
        let r = KeyStates { key_states: 0 };
        assert forall|k: CameraKey| !r@.contains(k) by {
            lemma_no_flag(k.spec_mask());
        }
        assert(r@ =~= Set::<CameraKey>::empty());
        r
    }

    /// Whether control `k` is held.
    pub fn is_held(&self, k: CameraKey) -> (r: bool)
        ensures
            r == self@.contains(k),
    {
        self.key_states & k.mask() != 0
    }

    /// Marks control `k` as held when `is_pressed`, else as released; every
    /// other control keeps its state.
    pub fn set(&mut self, k: CameraKey, is_pressed: bool)
        ensures
            final(self)@ == (if is_pressed {
                old(self)@.insert(k)
            } else {
                old(self)@.remove(k)
            }),
    {
        let m = k.mask();
        let b = self.key_states;
        self.key_states = if is_pressed {
            b | m
        } else {
            b & !m
        };
        let ghost expected = if is_pressed {
            old(self)@.insert(k)
        } else {
            old(self)@.remove(k)
        };
        assert forall|l: CameraKey| self@.contains(l) == expected.contains(l) by {
            lemma_masks_disjoint(k, l);
            lemma_masks_disjoint(l, k);
            if is_pressed {
                lemma_or_flag(b, m, l.spec_mask());
            } else if k == l {
                lemma_clear_same_flag(b, m);
            } else {
                lemma_clear_other_flag(b, m, l.spec_mask());
            }
        }
        assert(self@ =~= expected);
    }

    /// A key press or release: W, S, A, D, Q and E hold or release the
    /// control they drive; other keys leave every control as it is.
    pub fn handle_input(&mut self, code: InputKey, is_pressed: bool)
        ensures
            final(self)@ == (match code.spec_camera_key() {
                Some(k) => if is_pressed {
                    old(self)@.insert(k)
                } else {
                    old(self)@.remove(k)
                },
                None => old(self)@,
            }),
            !(code == InputKey::KeyW || code == InputKey::KeyS || code == InputKey::KeyA
                || code == InputKey::KeyD || code == InputKey::KeyE || code == InputKey::KeyQ)
                ==> final(self)@ == old(self)@,
            !final(self)@.contains(CameraKey::Enable) <==> !old(self)@.contains(CameraKey::Enable),
    {
        proof {
            lemma_keys_drive_distinct_movement_controls();
        }
        match code.camera_key() {
            Some(k) => self.set(k, is_pressed),
            None => {},
        }
    }

    /// A mouse button press or release: the right button holds or releases
    /// free look; other buttons leave every control as it is.
    pub fn handle_mouse_button(&mut self, button: MouseButton, is_pressed: bool)
        ensures
            final(self)@ == (if button == MouseButton::Right {
                if is_pressed {
                    old(self)@.insert(CameraKey::Enable)
                } else {
                    old(self)@.remove(CameraKey::Enable)
                }
            } else {
                old(self)@
            }),
    {
        if button == MouseButton::Right {
            self.set(CameraKey::Enable, is_pressed);
        }
    }

    /// Whether mouse movement turns the camera: only while free look is
    /// held.
    pub fn mouse_look_active(&self) -> (r: bool)
        ensures
            r == self@.contains(CameraKey::Enable),
    {
        self.is_held(CameraKey::Enable)
    }

    /// The movements an update applies: none unless free look is held, then
    /// one for each held movement control.
    pub fn motion(&self) -> (r: CameraMotion)
        ensures
            r.forward == (self@.contains(CameraKey::Enable) && self@.contains(CameraKey::Forward)),
            r.backward == (self@.contains(CameraKey::Enable) && self@.contains(CameraKey::Backward)),
            r.left == (self@.contains(CameraKey::Enable) && self@.contains(CameraKey::Left)),
            r.right == (self@.contains(CameraKey::Enable) && self@.contains(CameraKey::Right)),
            r.roll_left == (self@.contains(CameraKey::Enable) && self@.contains(CameraKey::RollLeft)),
            r.roll_right == (self@.contains(CameraKey::Enable) && self@.contains(CameraKey::RollRight)),
    {
        if !self.is_held(CameraKey::Enable) {
            return CameraMotion {
                forward: false,
                backward: false,
                left: false,
                right: false,
                roll_left: false,
                roll_right: false,
            };
        }
        CameraMotion {
            forward: self.is_held(CameraKey::Forward),
            backward: self.is_held(CameraKey::Backward),
            left: self.is_held(CameraKey::Left),
            right: self.is_held(CameraKey::Right),
            roll_left: self.is_held(CameraKey::RollLeft),
            roll_right: self.is_held(CameraKey::RollRight),
        }
    }
}

/// Only the six letter keys W, S, A, D, Q and E drive camera controls; no
/// two keys drive the same control; free look is never driven by a key, so
/// the six keys drive the six movement controls one to one: W forward, S
/// backward, A left, D right, Q roll left, E roll right.
pub proof fn lemma_keys_drive_distinct_movement_controls()
    ensures
        forall|k: InputKey| (#[trigger] k.spec_camera_key()) is Some <==> (k == InputKey::KeyW
            || k == InputKey::KeyS || k == InputKey::KeyA || k == InputKey::KeyD
            || k == InputKey::KeyE || k == InputKey::KeyQ),
        forall|k1: InputKey, k2: InputKey|
            (#[trigger] k1.spec_camera_key()) is Some && k1.spec_camera_key() == (#[trigger] k2.spec_camera_key())
                ==> k1 == k2,
        forall|k: InputKey| (#[trigger] k.spec_camera_key()) != Some(CameraKey::Enable),
        InputKey::KeyW.spec_camera_key() == Some(CameraKey::Forward),
        InputKey::KeyS.spec_camera_key() == Some(CameraKey::Backward),
        InputKey::KeyA.spec_camera_key() == Some(CameraKey::Left),
        InputKey::KeyD.spec_camera_key() == Some(CameraKey::Right),
        InputKey::KeyQ.spec_camera_key() == Some(CameraKey::RollLeft),
        InputKey::KeyE.spec_camera_key() == Some(CameraKey::RollRight),
{
}

/// Pressing a control and then releasing it leaves it released and every
/// other control as it was before the press.
pub proof fn lemma_press_then_release(s: KeyStates, k: CameraKey)
    ensures
        s@.insert(k).remove(k) == s@.remove(k),
        !s@.insert(k).remove(k).contains(k),
        forall|l: CameraKey| l != k ==> (#[trigger] s@.insert(k).remove(k).contains(l) == s@.contains(l)),
{
    assert(s@.insert(k).remove(k) =~= s@.remove(k));
}

} // verus!
