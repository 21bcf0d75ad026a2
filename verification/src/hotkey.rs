//! Keys that switch the bot on and off and open its window.
use vstd::prelude::*;

verus! {

pub const VK_F8: i32 = 0x77;

pub const VK_INSERT: i32 = 0x2D;

pub const TOGGLE_MASTER_KEY_VK: i32 = VK_F8;

pub const TOGGLE_MASTER_KEY_LABEL: &'static str = "F8";

pub const OPEN_WINDOW_KEY_VK: i32 = VK_INSERT;

pub const OPEN_WINDOW_KEY_LABEL: &'static str = "INS";

/// Time between two looks at the keys.
pub const POLL_INTERVAL_MS: u64 = 100;

/// The keys as they were last seen, and the position of the master switch.
#[derive(Debug, Clone, Copy, PartialEq, Eq, Structural)]
pub struct HotkeyState {
    pub prev_toggle: bool,
    pub prev_open_window: bool,
    pub master_on: bool,
}

/// What a look at the keys calls for.
#[derive(Debug, Clone, Copy, PartialEq, Eq, Structural)]
pub struct HotkeyActions {
    /// The new position of the master switch, where it changed.
    pub set_master: Option<bool>,
    pub open_window: bool,
}

impl HotkeyState {
    pub fn initial() -> (r: HotkeyState)
        ensures
            r == (HotkeyState { prev_toggle: false, prev_open_window: false, master_on: false }),
    {
        HotkeyState { prev_toggle: false, prev_open_window: false, master_on: false }
    }

    /// Takes note of the keys. A key acts when it goes down, not while it is
    /// held, and only while the game is in the foreground; a key that goes down
    /// elsewhere is used up.
    pub fn poll(&mut self, toggle_down: bool, open_window_down: bool, game_in_front: bool) -> (r:
        HotkeyActions)
        ensures
            ({
                let toggled = toggle_down && !old(self).prev_toggle && game_in_front;
                let opened = open_window_down && !old(self).prev_open_window && game_in_front;
                &&& final(self).prev_toggle == toggle_down
                &&& final(self).prev_open_window == open_window_down
                &&& final(self).master_on == (if toggled {
                    !old(self).master_on
                } else {
                    old(self).master_on
                })
                &&& r.set_master == (if toggled {
                    Some(!old(self).master_on)
                } else {
                    None
                })
                &&& r.open_window == opened
            }),
    {
        let toggle_rising: bool = toggle_down && !self.prev_toggle;
        let open_rising: bool = open_window_down && !self.prev_open_window;
        self.prev_toggle = toggle_down;
        self.prev_open_window = open_window_down;
        if !game_in_front {
            return HotkeyActions { set_master: None, open_window: false };
        }
        if toggle_rising {
            self.master_on = !self.master_on;
            HotkeyActions { set_master: Some(self.master_on), open_window: open_rising }
        } else {
            HotkeyActions { set_master: None, open_window: open_rising }
        }
    }
}

} // verus!
