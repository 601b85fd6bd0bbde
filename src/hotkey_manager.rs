use vstd::prelude::*;
use crate::hotkey::{JGlobalHotkey, JGlobalHotkeyErrors, key_code_of};

verus! {

/// Win32 `WM_HOTKEY`: the message that reports a registered hotkey.
pub const WM_HOTKEY: u32 = 0x0312;

/// What one poll of the hotkey state machine reports.
#[derive(Debug, Clone, Copy, PartialEq, Eq, Structural)]
pub enum JGlobalHotKeyEvent {
    NoEvent,
    HotkeyDown(JGlobalHotkey),
    HotkeyPressed(JGlobalHotkey),
    HotkeyReleased(JGlobalHotkey),
}

/// The state machine as a mathematical value: the hotkey that is down, if
/// any, and whether its press is still to be reported.
pub struct HotkeyState {
    pub down: Option<JGlobalHotkey>,
    pub pending: bool,
}

/// A pending press always belongs to a hotkey that is down.
pub open spec fn state_wf(s: HotkeyState) -> bool {
    s.pending ==> s.down is Some
}

/// The state after a hotkey notification for `h`; a hotkey that was
/// tracked before is replaced.
pub open spec fn notified(h: JGlobalHotkey) -> HotkeyState {
    HotkeyState { down: Some(h), pending: true }
}

/// One poll: a pending press is reported first; otherwise a tracked hotkey
/// that is no longer held is released; otherwise nothing happens.
pub open spec fn polled(s: HotkeyState, held: bool) -> (HotkeyState, JGlobalHotKeyEvent) {
    if s.pending && s.down is Some {
        (HotkeyState { down: s.down, pending: false }, JGlobalHotKeyEvent::HotkeyPressed(s.down->0))
    } else {
        match s.down {
            Some(h) => if held {
                (s, JGlobalHotKeyEvent::NoEvent)
            } else {
                (HotkeyState { down: None, pending: false }, JGlobalHotKeyEvent::HotkeyReleased(h))
            },
            None => (s, JGlobalHotKeyEvent::NoEvent),
        }
    }
}

/// Whether a poll of `s` asks whether the key is still held.
pub open spec fn needs_key_state(s: HotkeyState) -> bool {
    !s.pending && s.down is Some
}

/// Turns raw hotkey notifications into edge-triggered press and release
/// events. Release is found by polling whether the key is still held, since
/// the OS reports presses only.
pub struct JGlobalHotkeyManager {
    current_hotkey_down: Option<JGlobalHotkey>,
    hotkey_just_pressed: bool,
}

impl View for JGlobalHotkeyManager {
    type V = HotkeyState;

    closed spec fn view(&self) -> HotkeyState {
        HotkeyState { down: self.current_hotkey_down, pending: self.hotkey_just_pressed }
    }
}

impl JGlobalHotkeyManager {
    /// A state machine with no hotkey down.
    pub fn init() -> (r: Self)
        ensures
            r@ == (HotkeyState { down: None, pending: false }),
    {
        JGlobalHotkeyManager { current_hotkey_down: None, hotkey_just_pressed: false }
    }

    /// Registers `hotkey` system-wide through `register_hot_key`, the OS
    /// call that takes the identity, the modifier flags and the virtual key
    /// and returns zero on failure (the hotkey is taken, for one).
    pub fn register<F: Fn(usize, u32, u32) -> i32>(
        hotkey: &JGlobalHotkey,
        register_hot_key: F,
    ) -> (r: Result<(), JGlobalHotkeyErrors>)
        requires
            forall|id: usize, m: u32, vk: u32| register_hot_key.requires((id, m, vk)),
        ensures
            exists|ret: i32|
                {
                    &&& #[trigger] register_hot_key.ensures(
                        (hotkey@, hotkey.modifiers_spec(), key_code_of(hotkey@) as u32),
                        ret,
                    )
                    &&& (ret == 0 ==> r matches Err(JGlobalHotkeyErrors::RegisterFailed))
                    &&& (ret != 0 ==> r is Ok)
                },
    {
        let id = hotkey.id();
        let m = hotkey.modifiers();
        let vk = hotkey.vk_code();
        let ret = register_hot_key(id, m, #[verifier::truncate] (vk as u32));
        assert(register_hot_key.ensures((hotkey@, hotkey.modifiers_spec(), key_code_of(hotkey@) as u32), ret));
        if ret == 0 {
            Err(JGlobalHotkeyErrors::RegisterFailed)
        } else {
            Ok(())
        }
    }

    /// Takes one raw OS message; a hotkey notification (`WM_HOTKEY`, whose
    /// `wparam` is the identity) records that hotkey as down with its press
    /// pending. Returns whether the message was such a notification.
    pub fn process_msg(&mut self, message: u32, wparam: usize) -> (r: bool)
        requires
            state_wf(old(self)@),
        ensures
            r == (message == WM_HOTKEY),
            r ==> final(self)@ == notified(JGlobalHotkey::from_id_spec(wparam)),
            !r ==> final(self)@ == old(self)@,
            state_wf(final(self)@),
    {
        if message == WM_HOTKEY {
            self.current_hotkey_down = Some(JGlobalHotkey::from_id(wparam));
            self.hotkey_just_pressed = true;
            true
        } else {
            false
        }
    }

    /// Polls for the next edge. When a reported hotkey is still tracked,
    /// `async_key_state` (the OS query of a virtual key, zero when it is up)
    /// tells whether it is still held; it is called at most once.
    pub fn event<F: Fn(i32) -> i16>(&mut self, async_key_state: F) -> (r: JGlobalHotKeyEvent)
        requires
            state_wf(old(self)@),
            forall|vk: i32| async_key_state.requires((vk,)),
        ensures
            state_wf(final(self)@),
            !needs_key_state(old(self)@) ==> (final(self)@, r) == polled(old(self)@, true),
            needs_key_state(old(self)@) ==> exists|k: i16|
                #[trigger] async_key_state.ensures((key_code_of(old(self)@.down->0@) as i32,), k) && (
                final(self)@, r) == polled(old(self)@, k != 0),
    {
        if !self.hotkey_just_pressed {
            match self.current_hotkey_down {
                Some(h) => {
                    let k = async_key_state(h.vk_code() as i32);
                    let r = self.event_with_key_state(k != 0);
                    assert(async_key_state.ensures((key_code_of(h@) as i32,), k));
                    return r;
                },
                None => {},
            }
        }
        self.event_with_key_state(true)
    }

    /// One poll, given whether the tracked hotkey's key is still held.
    pub fn event_with_key_state(&mut self, held: bool) -> (r: JGlobalHotKeyEvent)
        requires
            state_wf(old(self)@),
        ensures
            (final(self)@, r) == polled(old(self)@, held),
            state_wf(final(self)@),
    {
        if self.hotkey_just_pressed {
            match self.current_hotkey_down {
                Some(h) => {
                    self.hotkey_just_pressed = false;
                    return JGlobalHotKeyEvent::HotkeyPressed(h);
                },
                None => {},
            }
        }
        match self.current_hotkey_down {
            Some(h) => {
                if held {
                    JGlobalHotKeyEvent::NoEvent
                } else {
                    self.current_hotkey_down = None;
                    JGlobalHotKeyEvent::HotkeyReleased(h)
                }
            },
            None => JGlobalHotKeyEvent::NoEvent,
        }
    }
}

/// A notification for `h` followed by polls gives exactly one press of `h`;
/// polls while the key is held give nothing; the first poll after it is let
/// go gives exactly one release of `h`; after that every poll gives nothing
/// and changes nothing until the next notification.
pub proof fn lemma_press_then_release(
    s: HotkeyState,
    h: JGlobalHotkey,
    first_held: bool,
    later_held: bool,
)
    ensures
        ({
            let s1 = notified(h);
            let (s2, e1) = polled(s1, first_held);
            let (s3, e2) = polled(s2, true);
            let (s4, e3) = polled(s3, false);
            &&& e1 == JGlobalHotKeyEvent::HotkeyPressed(h)
            &&& e2 == JGlobalHotKeyEvent::NoEvent
            &&& s3 == s2
            &&& e3 == JGlobalHotKeyEvent::HotkeyReleased(h)
            &&& polled(s4, later_held) == (s4, JGlobalHotKeyEvent::NoEvent)
        }),
{
}

} // verus!
