use crate::input::{Key, State, pressed};
use vstd::prelude::*;

verus! {

/// Actions of the game that keys are bound to.
#[derive(Debug, Clone, Copy, PartialEq, Eq, Structural)]
pub enum GameKey {
    // System
    Menu,

    // Camera / look
    LookLeft,
    LookRight,
    LookUp,
    LookDown,
    LookBack,
    CameraToggle,

    // On-foot movement
    MoveForward,
    MoveBackward,
    StrafeLeft,
    StrafeRight,
    Jump,
    Crouch,

    // Interaction
    Interact,
    UseItem,
    Inventory,
    WorldMap,

    // Vehicle controls
    Accelerate,
    Brake,
    SteerLeft,
    SteerRight,
    Handbrake,
    Horn,
    Lights,
}

/// Number of game actions.
pub const GAME_KEY_COUNT: usize = 24;

/// The slot of an action in a key mapping: its position in `GameKey`.
pub open spec fn game_key_index(k: GameKey) -> nat {
    match k {
        GameKey::Menu => 0,
        GameKey::LookLeft => 1,
        GameKey::LookRight => 2,
        GameKey::LookUp => 3,
        GameKey::LookDown => 4,
        GameKey::LookBack => 5,
        GameKey::CameraToggle => 6,
        GameKey::MoveForward => 7,
        GameKey::MoveBackward => 8,
        GameKey::StrafeLeft => 9,
        GameKey::StrafeRight => 10,
        GameKey::Jump => 11,
        GameKey::Crouch => 12,
        GameKey::Interact => 13,
        GameKey::UseItem => 14,
        GameKey::Inventory => 15,
        GameKey::WorldMap => 16,
        GameKey::Accelerate => 17,
        GameKey::Brake => 18,
        GameKey::SteerLeft => 19,
        GameKey::SteerRight => 20,
        GameKey::Handbrake => 21,
        GameKey::Horn => 22,
        GameKey::Lights => 23,
    }
}

impl GameKey {
    pub fn index(self) -> (r: usize)
        ensures
            r == game_key_index(self),
            r < GAME_KEY_COUNT,
    {
        match self {
            GameKey::Menu => 0,
            GameKey::LookLeft => 1,
            GameKey::LookRight => 2,
            GameKey::LookUp => 3,
            GameKey::LookDown => 4,
            GameKey::LookBack => 5,
            GameKey::CameraToggle => 6,
            GameKey::MoveForward => 7,
            GameKey::MoveBackward => 8,
            GameKey::StrafeLeft => 9,
            GameKey::StrafeRight => 10,
            GameKey::Jump => 11,
            GameKey::Crouch => 12,
            GameKey::Interact => 13,
            GameKey::UseItem => 14,
            GameKey::Inventory => 15,
            GameKey::WorldMap => 16,
            GameKey::Accelerate => 17,
            GameKey::Brake => 18,
            GameKey::SteerLeft => 19,
            GameKey::SteerRight => 20,
            GameKey::Handbrake => 21,
            GameKey::Horn => 22,
            GameKey::Lights => 23,
        }
    }
}

/// The key that each action is bound to by default, in the order of `GameKey`.
pub open spec fn default_mapping() -> Seq<Key> {
    seq![Key::k_Escape, Key::k_Left, Key::k_Right, Key::k_Up, Key::k_Down, Key::k_Backspace, Key::k_C, Key::k_W, Key::k_S, Key::k_A, Key::k_D, Key::k_Space, Key::k_LeftCtrl, Key::k_E, Key::k_F, Key::k_I, Key::k_M, Key::k_W, Key::k_S, Key::k_A, Key::k_D, Key::k_Space, Key::k_H, Key::k_L]
}

/// A binding of actions to keys, with the keyboard state they are read from.
#[derive(Debug, Clone)]
pub struct InputContext {
    mapping: [Key; 24],
    state: State,
}

impl InputContext {
    /// The key bound to each action, in the order of `GameKey`.
    pub closed spec fn bindings(&self) -> Seq<Key> {
        self.mapping@
    }

    /// The keyboard state that actions are read from.
    pub closed spec fn keyboard(&self) -> State {
        self.state
    }

    pub fn update_state(&mut self, state: State)
        ensures
            final(self).keyboard() == state,
            final(self).bindings() == old(self).bindings(),
    {
        self.state = state;
    }

    /// Whether the key bound to an action is pressed.
    pub fn is_pressed(&self, key: GameKey) -> (r: bool)
        ensures
            r == pressed(self.keyboard(), self.bindings()[game_key_index(key) as int]),
    {
        proof {
            assert(self.mapping@.len() == GAME_KEY_COUNT);
        }
        let k = self.mapping[key.index()];
        self.state.is_pressed(k)
    }
}

impl Default for InputContext {
    fn default() -> (r: InputContext)
        ensures
            r.bindings() == default_mapping(),
            forall|i: int| 0 <= i < 256 ==> r.keyboard().keys@[i] == 0,
    {
        let r = InputContext {
            mapping: [
                Key::k_Escape,
                Key::k_Left,
                Key::k_Right,
                Key::k_Up,
                Key::k_Down,
                Key::k_Backspace,
                Key::k_C,
                Key::k_W,
                Key::k_S,
                Key::k_A,
                Key::k_D,
                Key::k_Space,
                Key::k_LeftCtrl,
                Key::k_E,
                Key::k_F,
                Key::k_I,
                Key::k_M,
                Key::k_W,
                Key::k_S,
                Key::k_A,
                Key::k_D,
                Key::k_Space,
                Key::k_H,
                Key::k_L,
            ],
            state: State::released(),
        };
        assert(r.mapping@ =~= default_mapping());
        r
    }
}

} // verus!
