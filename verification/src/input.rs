//! From the state of the keys in one frame to the intents of that frame.
//!
//! A key that is held repeats its intent at a fixed interval, counted by a
//! timer of its own for each direction.

use vstd::prelude::*;
use crate::session::{Intent, Phase};

verus! {

/// The time after which a held key repeats its intent: a tenth of a second.
pub const REPEAT_INTERVAL_MICROS: u64 = 100_000;

/// What the keys are doing in one frame. `pressed` says that the key went
/// down in this frame, `held` that it is down.
#[derive(Clone, Copy, Debug, PartialEq, Eq)]
pub struct KeySnapshot {
    pub left_pressed: bool,
    pub left_held: bool,
    pub right_pressed: bool,
    pub right_held: bool,
    pub down_pressed: bool,
    pub down_held: bool,
    pub rotate_pressed: bool,
    pub hard_drop_pressed: bool,
    pub pause_pressed: bool,
    pub restart_pressed: bool,
}

impl KeySnapshot {
    /// No key is pressed or held.
    pub fn idle() -> (keys: KeySnapshot)
        ensures
            keys == (KeySnapshot {
                left_pressed: false,
                left_held: false,
                right_pressed: false,
                right_held: false,
                down_pressed: false,
                down_held: false,
                rotate_pressed: false,
                hard_drop_pressed: false,
                pause_pressed: false,
                restart_pressed: false,
            }),
    {
        KeySnapshot {
            left_pressed: false,
            left_held: false,
            right_pressed: false,
            right_held: false,
            down_pressed: false,
            down_held: false,
            rotate_pressed: false,
            hard_drop_pressed: false,
            pause_pressed: false,
            restart_pressed: false,
        }
    }
}

/// Whether a key fires in a frame: when it is pressed, or when it is held
/// and `waited` microseconds before the frame plus `elapsed` in it reach the
/// repeat interval.
pub open spec fn key_fires(waited: nat, pressed: bool, held: bool, elapsed: nat) -> bool {
    pressed || (held && waited + elapsed >= REPEAT_INTERVAL_MICROS)
}

/// The microseconds that a key has waited after a frame: none when it fired
/// or is up, the time so far otherwise.
pub open spec fn key_waits(waited: nat, pressed: bool, held: bool, elapsed: nat) -> nat {
    if !held || key_fires(waited, pressed, held, elapsed) {
        0
    } else {
        waited + elapsed
    }
}

/// The timer of one repeating key.
#[derive(Clone, Copy, Debug, PartialEq, Eq)]
pub struct RepeatTimer {
    waited: u64,
}

impl View for RepeatTimer {
    type V = nat;

    closed spec fn view(&self) -> nat {
        self.waited as nat
    }
}

impl RepeatTimer {
    /// A timer that has not waited yet.
    pub fn new() -> (timer: RepeatTimer)
        ensures
            timer@ == 0,
    {
        RepeatTimer { waited: 0 }
    }

    /// Takes the state of the key in a frame of `elapsed_micros` microseconds
    /// and returns whether the key fires in it.
    pub fn poll(&mut self, pressed: bool, held: bool, elapsed_micros: u64) -> (fires: bool)
        ensures
            fires == key_fires(old(self)@, pressed, held, elapsed_micros as nat),
            final(self)@ == key_waits(old(self)@, pressed, held, elapsed_micros as nat),
    {
        if pressed {
            self.waited = 0;
            return true;
        }
        if !held {
            self.waited = 0;
            return false;
        }
        let reached: u64 = self.waited.saturating_add(elapsed_micros);
        if reached >= REPEAT_INTERVAL_MICROS {
            self.waited = 0;
            true
        } else {
            self.waited = reached;
            false
        }
    }
}

/// `intent` if `wanted`, nothing otherwise.
pub open spec fn intent_if(wanted: bool, intent: Intent) -> Seq<Intent> {
    if wanted {
        seq![intent]
    } else {
        Seq::empty()
    }
}

/// The intents of one frame, in the order in which they apply. When the
/// game is over only a restart is heard. Otherwise the pause key comes
/// first and silences the other keys of the frame. While the game is paused
/// no other key is heard. In play the order is left, right, down, rotate,
/// hard drop.
pub open spec fn frame_intents(
    phase: Phase,
    keys: KeySnapshot,
    left: bool,
    right: bool,
    down: bool,
) -> Seq<Intent> {
    match phase {
        Phase::GameOver => intent_if(keys.restart_pressed, Intent::Restart),
        Phase::Paused => intent_if(keys.pause_pressed, Intent::TogglePause),
        Phase::Falling => if keys.pause_pressed {
            seq![Intent::TogglePause]
        } else {
            intent_if(left, Intent::MoveLeft) + intent_if(right, Intent::MoveRight) + intent_if(
                down,
                Intent::SoftDrop,
            ) + intent_if(keys.rotate_pressed, Intent::Rotate) + intent_if(
                keys.hard_drop_pressed,
                Intent::HardDrop,
            )
        },
    }
}

/// The mathematical model of the input driver: what each of the three
/// repeating keys has waited.
pub struct DriverView {
    pub left: nat,
    pub right: nat,
    pub down: nat,
}

/// Turns the keys of each frame into intents and keeps the repeat timers of
/// the three direction keys.
#[derive(Clone, Copy, Debug, PartialEq, Eq)]
pub struct InputDriver {
    left: RepeatTimer,
    right: RepeatTimer,
    down: RepeatTimer,
}

impl View for InputDriver {
    type V = DriverView;

    closed spec fn view(&self) -> DriverView {
        DriverView { left: self.left@, right: self.right@, down: self.down@ }
    }
}

impl InputDriver {
    /// A driver whose timers have not waited yet.
    pub fn new() -> (driver: InputDriver)
        ensures
            driver@ == (DriverView { left: 0, right: 0, down: 0 }),
    {
        InputDriver { left: RepeatTimer::new(), right: RepeatTimer::new(), down: RepeatTimer::new() }
    }

    /// The intents of a frame of `elapsed_micros` microseconds in which the
    /// keys are as `keys` says and the session is in `phase`. The timers run
    /// in every phase.
    pub fn poll(&mut self, keys: &KeySnapshot, elapsed_micros: u64, phase: Phase) -> (intents: Vec<
        Intent,
    >)
        ensures
            intents@ == frame_intents(
                phase,
                *keys,
                key_fires(old(self)@.left, keys.left_pressed, keys.left_held, elapsed_micros as nat),
                key_fires(
                    old(self)@.right,
                    keys.right_pressed,
                    keys.right_held,
                    elapsed_micros as nat,
                ),
                key_fires(old(self)@.down, keys.down_pressed, keys.down_held, elapsed_micros as nat),
            ),
            final(self)@ == (DriverView {
                left: key_waits(
                    old(self)@.left,
                    keys.left_pressed,
                    keys.left_held,
                    elapsed_micros as nat,
                ),
                right: key_waits(
                    old(self)@.right,
                    keys.right_pressed,
                    keys.right_held,
                    elapsed_micros as nat,
                ),
                down: key_waits(
                    old(self)@.down,
                    keys.down_pressed,
                    keys.down_held,
                    elapsed_micros as nat,
                ),
            }),
    {
        let left = self.left.poll(keys.left_pressed, keys.left_held, elapsed_micros);
        let right = self.right.poll(keys.right_pressed, keys.right_held, elapsed_micros);
        let down = self.down.poll(keys.down_pressed, keys.down_held, elapsed_micros);
        let mut intents: Vec<Intent> = Vec::new();
        match phase {
            Phase::GameOver => {
                if keys.restart_pressed {
                    intents.push(Intent::Restart);
                }
            },
            Phase::Paused => {
                if keys.pause_pressed {
                    intents.push(Intent::TogglePause);
                }
            },
            Phase::Falling => {
                if keys.pause_pressed {
                    intents.push(Intent::TogglePause);
                } else {
                    if left {
                        intents.push(Intent::MoveLeft);
                    }
                    if right {
                        intents.push(Intent::MoveRight);
                    }
                    if down {
                        intents.push(Intent::SoftDrop);
                    }
                    if keys.rotate_pressed {
                        intents.push(Intent::Rotate);
                    }
                    if keys.hard_drop_pressed {
                        intents.push(Intent::HardDrop);
                    }
                }
            },
        }
        assert(intents@ =~= frame_intents(phase, *keys, left, right, down));
        intents
    }
}

} // verus!
