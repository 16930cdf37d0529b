//! What the keys do: which are held, and what a frame makes of them.

use vstd::prelude::*;

verus! {

pub const KEY_MOVE_FWD: u32 = 0x001;

pub const KEY_MOVE_BACK: u32 = 0x002;

pub const KEY_STRAFE_LEFT: u32 = 0x004;

pub const KEY_STRAFE_RIGHT: u32 = 0x008;

pub const KEY_CURS_UP: u32 = 0x010;

pub const KEY_CURS_DOWN: u32 = 0x020;

pub const KEY_CURS_LEFT: u32 = 0x040;

pub const KEY_CURS_RIGHT: u32 = 0x080;

pub const KEY_USE: u32 = 0x100;

pub const KEY_SHOOT: u32 = 0x200;

pub const KEY_ZOOM_IN: u32 = 0x400;

pub const KEY_ZOOM_OUT: u32 = 0x800;

/// The keys that the game knows.
#[derive(Debug, Clone, Copy, PartialEq, Eq, Structural)]
pub enum Key {
    Tab,
    KpPlus,
    KpMinus,
    Up,
    Down,
    Left,
    Right,
    W,
    S,
    A,
    D,
    Space,
    E,
    RCtrl,
    LAlt,
    PageUp,
    PageDown,
    Other,
}

/// A key going down or up.
#[derive(Debug, Clone, Copy, PartialEq, Eq, Structural)]
pub enum KeyEvent {
    Down(Key),
    Up(Key),
}

/// What an event asks for besides a change of the held keys.
#[derive(Debug, Clone, Copy, PartialEq, Eq, Structural)]
pub enum EventEffect {
    Nothing,
    ToggleAutomap,
    /// Another level, by its index, is to be loaded.
    LoadMap(usize),
}

/// What moves during a frame.
#[derive(Debug, Clone, Copy, PartialEq, Eq, Structural)]
pub enum Motion {
    RotatePlayer,
    MovePlayer,
    StrafePlayer,
    MoveAutomapX,
    MoveAutomapY,
    ZoomAutomap,
}

/// One movement of a frame: `forward` moves by the time elapsed, else
/// by its negative.
#[derive(Debug, Clone, Copy, PartialEq, Eq, Structural)]
pub struct Step {
    pub motion: Motion,
    pub forward: bool,
}

/// The flag of a key that is held while down; 0 for keys that act at once
/// or not at all.
pub open spec fn flag_of(key: Key) -> u32 {
    match key {
        Key::KpPlus => KEY_ZOOM_IN,
        Key::KpMinus => KEY_ZOOM_OUT,
        Key::Up => KEY_CURS_UP,
        Key::Down => KEY_CURS_DOWN,
        Key::Left => KEY_CURS_LEFT,
        Key::Right => KEY_CURS_RIGHT,
        Key::W => KEY_MOVE_FWD,
        Key::S => KEY_MOVE_BACK,
        Key::A => KEY_STRAFE_LEFT,
        Key::D => KEY_STRAFE_RIGHT,
        Key::Space | Key::E => KEY_USE,
        Key::RCtrl | Key::LAlt => KEY_SHOOT,
        _ => 0,
    }
}

/// The held keys after an event. A key going down sets its flag. A key
/// going up clears it, with two exceptions: releasing a use key keeps
/// nothing but the use flag, and releasing a shoot key sets the shoot flag.
pub open spec fn flags_after(flags: u32, event: KeyEvent) -> u32 {
    match event {
        KeyEvent::Down(key) => flags | flag_of(key),
        KeyEvent::Up(key) => match key {
            Key::Space | Key::E => flags & KEY_USE,
            Key::RCtrl | Key::LAlt => flags | KEY_SHOOT,
            _ => flags & !flag_of(key),
        },
    }
}

/// What an event asks for: the tab key toggles the map, page up and page
/// down ask for the level before and after the current one, where there
/// is one.
pub open spec fn effect_of(event: KeyEvent, map_idx: usize, map_count: usize) -> EventEffect {
    match event {
        KeyEvent::Down(Key::Tab) => EventEffect::ToggleAutomap,
        KeyEvent::Down(Key::PageUp) => if map_idx > 0 {
            EventEffect::LoadMap((map_idx - 1) as usize)
        } else {
            EventEffect::Nothing
        },
        KeyEvent::Down(Key::PageDown) => if map_idx + 1 < map_count {
            EventEffect::LoadMap((map_idx + 1) as usize)
        } else {
            EventEffect::Nothing
        },
        _ => EventEffect::Nothing,
    }
}

/// The movement of one pair of opposite keys: the first alone moves one
/// way, the second alone the other way, both or none not at all.
pub open spec fn pair_steps(
    flags: u32,
    first: u32,
    second: u32,
    motion: Motion,
    first_forward: bool,
) -> Seq<Step> {
    if flags & (first | second) == first {
        seq![Step { motion, forward: first_forward }]
    } else if flags & (first | second) == second {
        seq![Step { motion, forward: !first_forward }]
    } else {
        Seq::empty()
    }
}

/// The movements of a frame, in order. The cursor keys always turn and
/// move the player; the other keys move the map while it is shown, and
/// the player otherwise.
pub open spec fn steps_of(flags: u32, automap_on: bool) -> Seq<Step> {
    let cursor = pair_steps(flags, KEY_CURS_LEFT, KEY_CURS_RIGHT, Motion::RotatePlayer, true)
        + pair_steps(flags, KEY_CURS_UP, KEY_CURS_DOWN, Motion::MovePlayer, true);
    if automap_on {
        cursor + pair_steps(flags, KEY_STRAFE_LEFT, KEY_STRAFE_RIGHT, Motion::MoveAutomapX, false)
            + pair_steps(flags, KEY_MOVE_FWD, KEY_MOVE_BACK, Motion::MoveAutomapY, true)
            + pair_steps(flags, KEY_ZOOM_IN, KEY_ZOOM_OUT, Motion::ZoomAutomap, true)
    } else {
        cursor + pair_steps(flags, KEY_STRAFE_LEFT, KEY_STRAFE_RIGHT, Motion::StrafePlayer, false)
            + pair_steps(flags, KEY_MOVE_FWD, KEY_MOVE_BACK, Motion::MovePlayer, true)
    }
}

/// The keys held and the level shown.
pub struct DoomGame {
    map_idx: usize,
    key_flags: u32,
}

/// The contents of the game's input state.
pub ghost struct DoomGameView {
    pub map_idx: usize,
    pub key_flags: u32,
}

impl View for DoomGame {
    type V = DoomGameView;

    closed spec fn view(&self) -> DoomGameView {
        DoomGameView { map_idx: self.map_idx, key_flags: self.key_flags }
    }
}

impl DoomGame {
    /// A game on its first level with no key held.
    pub fn new() -> (r: DoomGame)
        ensures
            r@ == (DoomGameView { map_idx: 0, key_flags: 0 }),
    {
        DoomGame { map_idx: 0, key_flags: 0 }
    }

    pub fn map_idx(&self) -> (r: usize)
        ensures
            r == self@.map_idx,
    {
        self.map_idx
    }

    pub fn key_flags(&self) -> (r: u32)
        ensures
            r == self@.key_flags,
    {
        self.key_flags
    }

    /// Makes another level the current one; tells whether it did. An
    /// index that is the current one or beyond the levels changes nothing.
    pub fn load_map(&mut self, idx: usize, map_count: usize) -> (changed: bool)
        ensures
            changed == (old(self)@.map_idx != idx && idx < map_count),
            final(self)@ == (DoomGameView {
                map_idx: if changed {
                    idx
                } else {
                    old(self)@.map_idx
                },
                ..old(self)@
            }),
    {
        if self.map_idx != idx && idx < map_count {
            self.map_idx = idx;
            true
        } else {
            false
        }
    }

    /// Takes a key event: updates the held keys and tells what else the
    /// event asks for.
    pub fn handle_event(&mut self, event: KeyEvent, map_count: usize) -> (effect: EventEffect)
        ensures
            effect == effect_of(event, old(self)@.map_idx, map_count),
            final(self)@ == (DoomGameView {
                key_flags: flags_after(old(self)@.key_flags, event),
                ..old(self)@
            }),
    {
        let mut effect = EventEffect::Nothing;
        let flags: u32 = self.key_flags;
        assert(flags | 0u32 == flags && flags & !0u32 == flags) by (bit_vector);
        match event {
            KeyEvent::Down(key) => {
                match key {
                    Key::Tab => {
                        effect = EventEffect::ToggleAutomap;
                    },
                    Key::KpPlus => {
                        self.key_flags = flags | KEY_ZOOM_IN;
                    },
                    Key::KpMinus => {
                        self.key_flags = flags | KEY_ZOOM_OUT;
                    },
                    Key::Up => {
                        self.key_flags = flags | KEY_CURS_UP;
                    },
                    Key::Down => {
                        self.key_flags = flags | KEY_CURS_DOWN;
                    },
                    Key::Left => {
                        self.key_flags = flags | KEY_CURS_LEFT;
                    },
                    Key::Right => {
                        self.key_flags = flags | KEY_CURS_RIGHT;
                    },
                    Key::W => {
                        self.key_flags = flags | KEY_MOVE_FWD;
                    },
                    Key::S => {
                        self.key_flags = flags | KEY_MOVE_BACK;
                    },
                    Key::A => {
                        self.key_flags = flags | KEY_STRAFE_LEFT;
                    },
                    Key::D => {
                        self.key_flags = flags | KEY_STRAFE_RIGHT;
                    },
                    Key::Space | Key::E => {
                        self.key_flags = flags | KEY_USE;
                    },
                    Key::RCtrl | Key::LAlt => {
                        self.key_flags = flags | KEY_SHOOT;
                    },
                    Key::PageUp => {
                        if self.map_idx > 0 {
                            effect = EventEffect::LoadMap(self.map_idx - 1);
                        }
                    },
                    Key::PageDown => {
                        if map_count > 0 && self.map_idx < map_count - 1 {
                            effect = EventEffect::LoadMap(self.map_idx + 1);
                        }
                    },
                    Key::Other => {},
                }
            },
            KeyEvent::Up(key) => {
                match key {
                    Key::KpPlus => {
                        self.key_flags = flags & !KEY_ZOOM_IN;
                    },
                    Key::KpMinus => {
                        self.key_flags = flags & !KEY_ZOOM_OUT;
                    },
                    Key::Up => {
                        self.key_flags = flags & !KEY_CURS_UP;
                    },
                    Key::Down => {
                        self.key_flags = flags & !KEY_CURS_DOWN;
                    },
                    Key::Left => {
                        self.key_flags = flags & !KEY_CURS_LEFT;
                    },
                    Key::Right => {
                        self.key_flags = flags & !KEY_CURS_RIGHT;
                    },
                    Key::W => {
                        self.key_flags = flags & !KEY_MOVE_FWD;
                    },
                    Key::S => {
                        self.key_flags = flags & !KEY_MOVE_BACK;
                    },
                    Key::A => {
                        self.key_flags = flags & !KEY_STRAFE_LEFT;
                    },
                    Key::D => {
                        self.key_flags = flags & !KEY_STRAFE_RIGHT;
                    },
                    Key::Space | Key::E => {
                        self.key_flags = flags & KEY_USE;
                    },
                    Key::RCtrl | Key::LAlt => {
                        self.key_flags = flags | KEY_SHOOT;
                    },
                    _ => {},
                }
            },
        }
        effect
    }

    /// The movements that the held keys ask of a frame, in order.
    pub fn update_state(&self, automap_on: bool) -> (steps: Vec<Step>)
        ensures
            steps@ == steps_of(self@.key_flags, automap_on),
    {
        let flags: u32 = self.key_flags;
        let mut steps: Vec<Step> = Vec::new();
        push_pair(&mut steps, flags, KEY_CURS_LEFT, KEY_CURS_RIGHT, Motion::RotatePlayer, true);
        push_pair(&mut steps, flags, KEY_CURS_UP, KEY_CURS_DOWN, Motion::MovePlayer, true);
        if automap_on {
            push_pair(
                &mut steps,
                flags,
                KEY_STRAFE_LEFT,
                KEY_STRAFE_RIGHT,
                Motion::MoveAutomapX,
                false,
            );
            push_pair(&mut steps, flags, KEY_MOVE_FWD, KEY_MOVE_BACK, Motion::MoveAutomapY, true);
            push_pair(&mut steps, flags, KEY_ZOOM_IN, KEY_ZOOM_OUT, Motion::ZoomAutomap, true);
        } else {
            push_pair(
                &mut steps,
                flags,
                KEY_STRAFE_LEFT,
                KEY_STRAFE_RIGHT,
                Motion::StrafePlayer,
                false,
            );
            push_pair(&mut steps, flags, KEY_MOVE_FWD, KEY_MOVE_BACK, Motion::MovePlayer, true);
        }
        assert(steps@ =~= steps_of(flags, automap_on));
        steps
    }
}

/// Appends the movement of one pair of opposite keys.
fn push_pair(
    steps: &mut Vec<Step>,
    flags: u32,
    first: u32,
    second: u32,
    motion: Motion,
    first_forward: bool,
)
    ensures
        final(steps)@ == old(steps)@ + pair_steps(flags, first, second, motion, first_forward),
{
    let held: u32 = flags & (first | second);
    if held == first {
        steps.push(Step { motion, forward: first_forward });
    } else if held == second {
        steps.push(Step { motion, forward: !first_forward });
    }
    assert(steps@ =~= old(steps)@ + pair_steps(flags, first, second, motion, first_forward));
}

} // verus!
