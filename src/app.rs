use vstd::prelude::*;
use vstd::string::*;
use crate::hotkey::{
    HotkeyErrorModel,
    JGlobalHotkey,
    JGlobalHotkeyErrors,
    key_code_of,
    parse_spec,
    result_model,
    scan_input,
};
use crate::hotkey_manager::{JGlobalHotKeyEvent, JGlobalHotkeyManager};
use crate::sample_cursor::{CursorModel, SoundDataIter};

verus! {

/// Win32 `MOUSEEVENTF_LEFTDOWN`.
pub const MOUSEEVENTF_LEFTDOWN: u32 = 0x0002;

/// Win32 `MOUSEEVENTF_LEFTUP`.
pub const MOUSEEVENTF_LEFTUP: u32 = 0x0004;

/// Win32 `MOUSEEVENTF_RIGHTDOWN`.
pub const MOUSEEVENTF_RIGHTDOWN: u32 = 0x0008;

/// Win32 `MOUSEEVENTF_RIGHTUP`.
pub const MOUSEEVENTF_RIGHTUP: u32 = 0x0010;

/// Win32 `MOUSEEVENTF_MIDDLEDOWN`.
pub const MOUSEEVENTF_MIDDLEDOWN: u32 = 0x0020;

/// Win32 `MOUSEEVENTF_MIDDLEUP`.
pub const MOUSEEVENTF_MIDDLEUP: u32 = 0x0040;

/// Win32 `MOUSEEVENTF_XDOWN`.
pub const MOUSEEVENTF_XDOWN: u32 = 0x0080;

/// Win32 `MOUSEEVENTF_XUP`.
pub const MOUSEEVENTF_XUP: u32 = 0x0100;

/// A mouse button that can be pressed synthetically alongside playback.
#[derive(Debug, Clone, Copy, PartialEq, Eq, Structural)]
pub enum JMouseButton {
    MouseButton1,
    MouseButton2,
    MouseButton3,
    MouseButton4,
    MouseButton5,
}

/// One synthetic mouse event: the event flags and the extra button data of
/// a Win32 `MOUSEINPUT`.
#[derive(Debug, Clone, Copy, PartialEq, Eq, Structural)]
pub struct JMouseInput {
    pub flags: u32,
    pub data: u32,
}

pub open spec fn press_input_of(b: JMouseButton) -> JMouseInput {
    match b {
        JMouseButton::MouseButton1 => JMouseInput { flags: MOUSEEVENTF_LEFTDOWN, data: 0 },
        JMouseButton::MouseButton2 => JMouseInput { flags: MOUSEEVENTF_RIGHTDOWN, data: 0 },
        JMouseButton::MouseButton3 => JMouseInput { flags: MOUSEEVENTF_MIDDLEDOWN, data: 0 },
        JMouseButton::MouseButton4 => JMouseInput { flags: MOUSEEVENTF_XDOWN, data: 1 },
        JMouseButton::MouseButton5 => JMouseInput { flags: MOUSEEVENTF_XDOWN, data: 2 },
    }
}

pub open spec fn release_input_of(b: JMouseButton) -> JMouseInput {
    match b {
        JMouseButton::MouseButton1 => JMouseInput { flags: MOUSEEVENTF_LEFTUP, data: 0 },
        JMouseButton::MouseButton2 => JMouseInput { flags: MOUSEEVENTF_RIGHTUP, data: 0 },
        JMouseButton::MouseButton3 => JMouseInput { flags: MOUSEEVENTF_MIDDLEUP, data: 0 },
        JMouseButton::MouseButton4 => JMouseInput { flags: MOUSEEVENTF_XUP, data: 1 },
        JMouseButton::MouseButton5 => JMouseInput { flags: MOUSEEVENTF_XUP, data: 2 },
    }
}

impl JMouseButton {
    pub fn get_press_input(&self) -> (r: JMouseInput)
        ensures
            r == press_input_of(*self),
    {
        match self {
            JMouseButton::MouseButton1 => JMouseInput { flags: MOUSEEVENTF_LEFTDOWN, data: 0 },
            JMouseButton::MouseButton2 => JMouseInput { flags: MOUSEEVENTF_RIGHTDOWN, data: 0 },
            JMouseButton::MouseButton3 => JMouseInput { flags: MOUSEEVENTF_MIDDLEDOWN, data: 0 },
            JMouseButton::MouseButton4 => JMouseInput { flags: MOUSEEVENTF_XDOWN, data: 1 },
            JMouseButton::MouseButton5 => JMouseInput { flags: MOUSEEVENTF_XDOWN, data: 2 },
        }
    }

    pub fn get_release_input(&self) -> (r: JMouseInput)
        ensures
            r == release_input_of(*self),
    {
        match self {
            JMouseButton::MouseButton1 => JMouseInput { flags: MOUSEEVENTF_LEFTUP, data: 0 },
            JMouseButton::MouseButton2 => JMouseInput { flags: MOUSEEVENTF_RIGHTUP, data: 0 },
            JMouseButton::MouseButton3 => JMouseInput { flags: MOUSEEVENTF_MIDDLEUP, data: 0 },
            JMouseButton::MouseButton4 => JMouseInput { flags: MOUSEEVENTF_XUP, data: 1 },
            JMouseButton::MouseButton5 => JMouseInput { flags: MOUSEEVENTF_XUP, data: 2 },
        }
    }
}

/// Sent from the real-time audio callback once its cursor is done.
#[derive(Debug, Clone, Copy, PartialEq, Eq, Structural)]
pub enum JAppEvent {
    StopAudio,
}

/// The persisted settings.
pub struct JAppState {
    pub current_device: Option<String>,
    pub stop_audio_on_release: bool,
}

impl Default for JAppState {
    fn default() -> (r: Self)
        ensures
            r.current_device is None,
            !r.stop_audio_on_release,
    {
        JAppState { current_device: None, stop_audio_on_release: false }
    }
}

/// Handle of a loaded sound; handles are given out in increasing order and
/// never reused.
#[derive(Debug, Clone, Copy, PartialEq, Eq, Structural)]
pub struct SoundId(pub usize);

/// A loaded clip: its samples (bits of 32-bit floats) and where it came from.
pub struct Sound {
    pub data: Vec<u32>,
    pub path: String,
    pub sound_id: SoundId,
}

/// What the host must do, in order, for the dispatcher's decisions.
pub enum JAppAction {
    /// Release the active audio stream, which stops it.
    StopStream,
    /// Inject these synthetic mouse events.
    SendInputs(Vec<JMouseInput>),
    /// Open an output stream whose callback feeds every channel slot from
    /// this cursor and reports `JAppEvent::StopAudio` once it is done.
    StartStream(SoundDataIter),
}

/// The actions as mathematical values.
pub enum ActionModel {
    StopStream,
    SendInputs(Seq<JMouseInput>),
    StartStream(CursorModel),
}

impl JAppAction {
    pub open spec fn model(&self) -> ActionModel {
        match self {
            JAppAction::StopStream => ActionModel::StopStream,
            JAppAction::SendInputs(v) => ActionModel::SendInputs(v@),
            JAppAction::StartStream(c) => ActionModel::StartStream(c@),
        }
    }
}

pub open spec fn actions_model(v: Seq<JAppAction>) -> Seq<ActionModel> {
    v.map_values(|a: JAppAction| a.model())
}

/// The dispatcher as a mathematical value.
pub struct AppModel {
    pub inputs: Seq<JMouseButton>,
    pub playing: bool,
    pub sounds: Seq<Seq<u32>>,
    pub paths: Seq<Seq<char>>,
    pub mapping: Seq<(JGlobalHotkey, SoundId)>,
    pub stop_on_release: bool,
    pub device: Option<Seq<char>>,
}

/// The samples of the sound `id`, if it was loaded.
pub open spec fn sound_of(m: AppModel, id: SoundId) -> Option<Seq<u32>> {
    if id.0 < m.sounds.len() {
        Some(m.sounds[id.0 as int])
    } else {
        None
    }
}

/// The sound of the first mapping entry for `h`, in registration order.
pub open spec fn lookup(mapping: Seq<(JGlobalHotkey, SoundId)>, h: JGlobalHotkey) -> Option<SoundId>
    decreases mapping.len(),
{
    if mapping.len() == 0 {
        None
    } else {
        match lookup(mapping.drop_last(), h) {
            Some(id) => Some(id),
            None => if mapping.last().0 == h {
                Some(mapping.last().1)
            } else {
                None
            },
        }
    }
}

pub open spec fn press_inputs(bs: Seq<JMouseButton>) -> Seq<JMouseInput> {
    bs.map_values(|b: JMouseButton| press_input_of(b))
}

pub open spec fn release_inputs(bs: Seq<JMouseButton>) -> Seq<JMouseInput> {
    bs.map_values(|b: JMouseButton| release_input_of(b))
}

/// Inputs are sent only when there are some.
pub open spec fn input_actions(ins: Seq<JMouseInput>) -> Seq<ActionModel> {
    if ins.len() == 0 {
        Seq::<ActionModel>::empty()
    } else {
        seq![ActionModel::SendInputs(ins)]
    }
}

/// Stopping: when playing, release the stream, then the synthetic buttons.
pub open spec fn stop_actions(m: AppModel) -> Seq<ActionModel> {
    if m.playing {
        seq![ActionModel::StopStream] + input_actions(release_inputs(m.inputs))
    } else {
        Seq::<ActionModel>::empty()
    }
}

/// Playing `id`: stop first; then, when the sound exists, press the
/// synthetic buttons and start a stream at its first sample.
pub open spec fn play_actions(m: AppModel, id: SoundId) -> Seq<ActionModel> {
    stop_actions(m) + match sound_of(m, id) {
        Some(d) => input_actions(press_inputs(m.inputs)) + seq![
            ActionModel::StartStream(CursorModel { data: d, pos: 0 }),
        ],
        None => Seq::<ActionModel>::empty(),
    }
}

/// What one tick decides.
pub enum TickDecision {
    Play(SoundId),
    Stop,
    Nothing,
}

/// A press of a mapped hotkey plays its sound; a release of a mapped hotkey
/// stops when stop-on-release is set; otherwise a completion stops.
pub open spec fn tick_decision(m: AppModel, ev: JGlobalHotKeyEvent, completed: bool) -> TickDecision {
    let fallback = if completed {
        TickDecision::Stop
    } else {
        TickDecision::Nothing
    };
    match ev {
        JGlobalHotKeyEvent::HotkeyPressed(h) => match lookup(m.mapping, h) {
            Some(id) => TickDecision::Play(id),
            None => fallback,
        },
        JGlobalHotKeyEvent::HotkeyReleased(h) => if m.stop_on_release && lookup(m.mapping, h) is Some {
            TickDecision::Stop
        } else {
            fallback
        },
        _ => fallback,
    }
}

/// The number of streams open after the actions, starting with `start`.
pub open spec fn streams_open(start: nat, acts: Seq<ActionModel>) -> nat
    decreases acts.len(),
{
    if acts.len() == 0 {
        start
    } else {
        let p = streams_open(start, acts.drop_last());
        match acts.last() {
            ActionModel::StopStream => 0,
            ActionModel::StartStream(_) => p + 1,
            ActionModel::SendInputs(_) => p,
        }
    }
}

pub open spec fn error_message(e: HotkeyErrorModel) -> Seq<char> {
    match e {
        HotkeyErrorModel::NoKeySpecified => "No key specified"@,
        HotkeyErrorModel::RegisterFailed => "Couldn't register hotkey"@,
        HotkeyErrorModel::InvalidKey(k) => "Invalid key "@.push(k),
        HotkeyErrorModel::InvalidModifier(t) => "Invalid modifiers"@ + t,
        HotkeyErrorModel::UnsupportedKey(t) => "Unsupported key "@ + t,
    }
}

pub open spec fn register_failed_message() -> Seq<char> {
    "Register failed."@
}

/// After parsing gave the identity `id`: the OS registration was asked for
/// it, and its answer decided whether `id` was mapped to `sound_id` or the
/// registration failure was reported.
pub open spec fn registered<RH: Fn(usize, u32, u32) -> i32>(
    id: usize,
    sound_id: SoundId,
    register_hot_key: RH,
    r: Result<(), String>,
    before: AppModel,
    after: AppModel,
) -> bool {
    exists|ret: i32|
        {
            &&& #[trigger] register_hot_key.ensures(
                (id, JGlobalHotkey::from_id_spec(id).modifiers_spec(), key_code_of(id) as u32),
                ret,
            )
            &&& ret == 0 ==> (r matches Err(msg) && msg@ == register_failed_message()) && after
                == before
            &&& ret != 0 ==> r is Ok && after == (AppModel {
                mapping: before.mapping.push((JGlobalHotkey::from_id_spec(id), sound_id)),
                ..before
            })
        }
}

/// Relies on `String::push`: the character is appended.
#[verifier::external_body]
fn push_char(s: &mut String, c: char)
    ensures
        final(s)@ == old(s)@.push(c),
{
    s.push(c)
}

/// A message for a parse error, for the user.
pub fn error_message_of(e: &JGlobalHotkeyErrors) -> (r: String)
    ensures
        r@ == error_message(e.model()),
{
    match e {
        JGlobalHotkeyErrors::NoKeySpecified => String::from_str("No key specified"),
        JGlobalHotkeyErrors::RegisterFailed => String::from_str("Couldn't register hotkey"),
        JGlobalHotkeyErrors::InvalidKey(k) => {
            let mut s = String::from_str("Invalid key ");
            push_char(&mut s, *k);
            s
        },
        JGlobalHotkeyErrors::InvalidModifier(t) => {
            let mut s = String::from_str("Invalid modifiers");
            s.append(t.as_str());
            s
        },
        JGlobalHotkeyErrors::UnsupportedKey(t) => {
            let mut s = String::from_str("Unsupported key ");
            s.append(t.as_str());
            s
        },
    }
}

/// The dispatcher: owns the sounds, the hotkey-to-sound mapping and the
/// settings, tracks whether a stream is playing, and decides which stream
/// to start or stop. The host performs the actions it returns.
pub struct JApp {
    simulate_key_press_on_play: Vec<JMouseButton>,
    pub state: JAppState,
    playing: bool,
    sounds: Vec<Sound>,
    sound_idx_count: usize,
    hotkey_sound_mapping: Vec<(JGlobalHotkey, SoundId)>,
}

impl View for JApp {
    type V = AppModel;

    closed spec fn view(&self) -> AppModel {
        AppModel {
            inputs: self.simulate_key_press_on_play@,
            playing: self.playing,
            sounds: self.sounds@.map_values(|s: Sound| s.data@),
            paths: self.sounds@.map_values(|s: Sound| s.path@),
            mapping: self.hotkey_sound_mapping@,
            stop_on_release: self.state.stop_audio_on_release,
            device: match self.state.current_device {
                Some(d) => Some(d@),
                None => None,
            },
        }
    }
}

impl JApp {
    /// Each sound's handle is its place in the store, and the counter is the
    /// next handle.
    pub closed spec fn wf(&self) -> bool {
        &&& self.sound_idx_count == self.sounds.len()
        &&& forall|i: int| 0 <= i < self.sounds.len() ==> self.sounds[i].sound_id == SoundId(i as usize)
    }

    pub fn new() -> (r: Self)
        ensures
            r.wf(),
            r@ == (AppModel {
                inputs: Seq::empty(),
                playing: false,
                sounds: Seq::empty(),
                paths: Seq::empty(),
                mapping: Seq::empty(),
                stop_on_release: false,
                device: None,
            }),
    {
        let r = JApp {
            simulate_key_press_on_play: Vec::new(),
            state: JAppState::default(),
            playing: false,
            sounds: Vec::new(),
            sound_idx_count: 0,
            hotkey_sound_mapping: Vec::new(),
        };
        assert(r@.sounds =~= Seq::<Seq<u32>>::empty());
        assert(r@.paths =~= Seq::<Seq<char>>::empty());
        r
    }

    /// Whether a stream is playing.
    pub fn is_playing(&self) -> (r: bool)
        ensures
            r == self@.playing,
    {
        self.playing
    }

    /// Adds a decoded clip, with the path it was read from, under the next
    /// handle. `None` only when every
    /// handle has been given out.
    pub fn load_sound(&mut self, path: &str, samples: Vec<u32>) -> (r: Option<SoundId>)
        requires
            old(self).wf(),
        ensures
            final(self).wf(),
            old(self)@.sounds.len() < usize::MAX ==> r == Some(SoundId(old(self)@.sounds.len() as usize))
                && final(self)@ == (AppModel {
                sounds: old(self)@.sounds.push(samples@),
                paths: old(self)@.paths.push(path@),
                ..old(self)@
            }),
            old(self)@.sounds.len() == usize::MAX ==> r is None && final(self)@ == old(self)@,
    {
        if self.sound_idx_count == usize::MAX {
            return None;
        }
        let sound_id = SoundId(self.sound_idx_count);
        self.sound_idx_count = self.sound_idx_count + 1;
        let ghost old_sounds = self.sounds@;
        let ghost data = samples@;
        let stored_path = String::from_str(path);
        let ghost p = stored_path@;
        self.sounds.push(Sound { data: samples, path: stored_path, sound_id });
        assert(self.sounds@.map_values(|s: Sound| s.path@) =~= old_sounds.map_values(
            |s: Sound| s.path@,
        ).push(p));
        assert(self.sounds@.map_values(|s: Sound| s.data@) =~= old_sounds.map_values(
            |s: Sound| s.data@,
        ).push(data));
        Some(sound_id)
    }

    /// Maps `hotkey` to `sound_id`, after any earlier mapping of it.
    pub fn bind_hotkey(&mut self, hotkey: JGlobalHotkey, sound_id: SoundId)
        requires
            old(self).wf(),
        ensures
            final(self).wf(),
            final(self)@ == (AppModel {
                mapping: old(self)@.mapping.push((hotkey, sound_id)),
                ..old(self)@
            }),
    {
        self.hotkey_sound_mapping.push((hotkey, sound_id));
    }

    /// Parses `hotkey` (resolving its key with `key_scan`), registers it with
    /// `register_hot_key` and maps it to `sound_id`; on failure, a message
    /// for the user and nothing changes.
    pub fn register_hoktey_for_sound<KS: Fn(char) -> i16, RH: Fn(usize, u32, u32) -> i32>(
        &mut self,
        hotkey: &str,
        sound_id: SoundId,
        key_scan: KS,
        register_hot_key: RH,
    ) -> (r: Result<(), String>)
        requires
            old(self).wf(),
            forall|c: char| key_scan.requires((c,)),
            forall|id: usize, m: u32, vk: u32| register_hot_key.requires((id, m, vk)),
        ensures
            final(self).wf(),
            exists|scan: i16|
                #![trigger parse_spec(hotkey@, scan)]
                {
                    &&& (scan_input(hotkey@) is None ==> scan == -1)
                    &&& (scan_input(hotkey@) matches Some(c) ==> key_scan.ensures((c,), scan))
                    &&& parse_spec(hotkey@, scan) matches Err(e) ==> (r matches Err(msg) && msg@
                        == error_message(e)) && final(self)@ == old(self)@
                    &&& parse_spec(hotkey@, scan) is Ok ==> registered(
                        parse_spec(hotkey@, scan)->Ok_0,
                        sound_id,
                        register_hot_key,
                        r,
                        old(self)@,
                        final(self)@,
                    )
                },
    {
        let parsed = JGlobalHotkey::from_str(hotkey, key_scan);
        let ghost scan: i16 = match scan_input(hotkey@) {
            Some(c) => choose|k: i16|
                key_scan.ensures((c,), k) && result_model(parsed) == parse_spec(hotkey@, k),
            None => -1i16,
        };
        assert(result_model(parsed) == parse_spec(hotkey@, scan));
        match parsed {
            Err(e) => {
                let msg = error_message_of(&e);
                assert(parse_spec(hotkey@, scan) == Err::<usize, HotkeyErrorModel>(e.model()));
                Err(msg)
            },
            Ok(h) => {
                proof {
                    JGlobalHotkey::lemma_from_id_view(h);
                }
                let reg = JGlobalHotkeyManager::register(&h, register_hot_key);
                let ghost ret: i32 = choose|ret: i32|
                    {
                        &&& #[trigger] register_hot_key.ensures(
                            (h@, h.modifiers_spec(), key_code_of(h@) as u32),
                            ret,
                        )
                        &&& (ret == 0 ==> reg matches Err(JGlobalHotkeyErrors::RegisterFailed))
                        &&& (ret != 0 ==> reg is Ok)
                    };
                assert(register_hot_key.ensures(
                    (
                        h@,
                        JGlobalHotkey::from_id_spec(h@).modifiers_spec(),
                        key_code_of(h@) as u32,
                    ),
                    ret,
                ));
                match reg {
                    Ok(()) => {
                        self.bind_hotkey(h, sound_id);
                        Ok(())
                    },
                    Err(_) => Err(String::from_str("Register failed.")),
                }
            },
        }
    }

    /// Sets the output device to use when it is present.
    pub fn set_output_device(&mut self, device_name: &str)
        requires
            old(self).wf(),
        ensures
            final(self).wf(),
            final(self)@ == (AppModel { device: Some(device_name@), ..old(self)@ }),
    {
        self.state.current_device = Some(String::from_str(device_name));
    }

    /// Adds a mouse button to press when a sound starts and release when it
    /// stops.
    pub fn with_mouse_input_on_play(&mut self, mouse_input: JMouseButton) -> (r: &Self)
        requires
            old(self).wf(),
        ensures
            final(self).wf(),
            final(self)@ == (AppModel { inputs: old(self)@.inputs.push(mouse_input), ..old(self)@ }),
            r@ == final(self)@,
    {
        self.simulate_key_press_on_play.push(mouse_input);
        self
    }

    /// The position, among the names of the present output devices, of the
    /// configured device; `None` when none is configured or it is absent, and
    /// the default device is to be used.
    pub fn get_output_audio_device(&self, device_names: &Vec<String>) -> (r: Option<usize>)
        ensures
            match r {
                Some(i) => self@.device is Some && i < device_names.len() && device_names[i as int]@
                    == self@.device->0 && forall|j: int|
                    0 <= j < i ==> device_names[j]@ != self@.device->0,
                None => self@.device is None || forall|j: int|
                    0 <= j < device_names.len() ==> device_names[j]@ != self@.device->0,
            },
    {
        match &self.state.current_device {
            None => None,
            Some(target) => {
                let mut i: usize = 0;
                while i < device_names.len()
                    invariant
                        self@.device == Some(target@),
                        i <= device_names.len(),
                        forall|j: int| 0 <= j < i ==> device_names[j]@ != target@,
                    decreases device_names.len() - i,
                {
                    if device_names[i] == *target {
                        return Some(i);
                    }
                    i = i + 1;
                }
                None
            },
        }
    }

    /// The sound with handle `sound_id`.
    pub fn get_sound(&self, sound_id: SoundId) -> (r: Option<&Sound>)
        requires
            self.wf(),
        ensures
            match r {
                Some(s) => sound_of(self@, sound_id) == Some(s.data@) && s.sound_id == sound_id
                    && sound_id.0 < self@.paths.len() && s.path@ == self@.paths[sound_id.0 as int],
                None => sound_of(self@, sound_id) is None,
            },
    {
        if sound_id.0 < self.sounds.len() {
            Some(&self.sounds[sound_id.0])
        } else {
            None
        }
    }

    /// A fresh cursor over the sound with handle `sound_id`.
    pub fn get_sound_player(&self, sound_id: SoundId) -> (r: Option<SoundDataIter>)
        requires
            self.wf(),
        ensures
            match r {
                Some(c) => sound_of(self@, sound_id) == Some(c@.data) && c@.pos == 0 && c.wf(),
                None => sound_of(self@, sound_id) is None,
            },
    {
        match self.get_sound(sound_id) {
            Some(s) => Some(SoundDataIter::new(&s.data)),
            None => None,
        }
    }

    fn input_list(&self, press: bool) -> (r: Vec<JMouseInput>)
        ensures
            r@ == if press {
                press_inputs(self@.inputs)
            } else {
                release_inputs(self@.inputs)
            },
    {
        let mut out: Vec<JMouseInput> = Vec::new();
        let mut i: usize = 0;
        while i < self.simulate_key_press_on_play.len()
            invariant
                i <= self@.inputs.len(),
                self@.inputs == self.simulate_key_press_on_play@,
                out@ == if press {
                    press_inputs(self@.inputs.take(i as int))
                } else {
                    release_inputs(self@.inputs.take(i as int))
                },
            decreases self.simulate_key_press_on_play.len() - i,
        {
            let b = &self.simulate_key_press_on_play[i];
            let input = if press {
                b.get_press_input()
            } else {
                b.get_release_input()
            };
            out.push(input);
            assert(self@.inputs.take(i + 1) =~= self@.inputs.take(i as int).push(*b));
            assert(press_inputs(self@.inputs.take(i + 1)) =~= press_inputs(self@.inputs.take(i as int)).push(press_input_of(*b)));
            assert(release_inputs(self@.inputs.take(i + 1)) =~= release_inputs(self@.inputs.take(i as int)).push(release_input_of(*b)));
            i = i + 1;
        }
        assert(self@.inputs.take(i as int) =~= self@.inputs);
        out
    }

    /// Stops playback: releases the stream and then the synthetic buttons.
    /// Does nothing when no stream is playing.
    pub fn stop(&mut self, actions: &mut Vec<JAppAction>)
        requires
            old(self).wf(),
        ensures
            final(self).wf(),
            final(self)@ == (AppModel { playing: false, ..old(self)@ }),
            actions_model(final(actions)@) == actions_model(old(actions)@) + stop_actions(old(self)@),
    {
        let ghost before = actions_model(actions@);
        if self.playing {
            self.playing = false;
            actions.push(JAppAction::StopStream);
            let inputs = self.input_list(false);
            if inputs.len() > 0 {
                actions.push(JAppAction::SendInputs(inputs));
            }
        }
        assert(actions_model(actions@) =~= before + stop_actions(old(self)@));
    }

    /// Plays the sound `sound_id`: stops what plays, then, when the sound
    /// exists, presses the synthetic buttons and starts a stream at its first
    /// sample.
    pub fn play(&mut self, sound_id: SoundId, actions: &mut Vec<JAppAction>)
        requires
            old(self).wf(),
        ensures
            final(self).wf(),
            final(self)@ == (AppModel { playing: sound_of(old(self)@, sound_id) is Some, ..old(self)@ }),
            actions_model(final(actions)@) == actions_model(old(actions)@) + play_actions(old(self)@, sound_id),
            sound_of(old(self)@, sound_id) is Some ==> {
                &&& final(actions)@.last() is StartStream
                &&& final(actions)@.last()->StartStream_0@ == (CursorModel {
                    data: sound_of(old(self)@, sound_id)->0,
                    pos: 0,
                })
                &&& final(actions)@.last()->StartStream_0.wf()
            },
    {
        let ghost before = actions_model(actions@);
        self.stop(actions);
        let ghost mid = actions_model(actions@);
        match self.get_sound_player(sound_id) {
            None => {
                assert(actions_model(actions@) =~= before + play_actions(old(self)@, sound_id));
            },
            Some(player) => {
                let inputs = self.input_list(true);
                if inputs.len() > 0 {
                    actions.push(JAppAction::SendInputs(inputs));
                }
                let ghost mid2 = actions_model(actions@);
                assert(mid2 =~= mid + input_actions(press_inputs(old(self)@.inputs)));
                let ghost cm = player@;
                actions.push(JAppAction::StartStream(player));
                assert(actions_model(actions@) =~= mid2.push(ActionModel::StartStream(cm)));
                assert(cm == CursorModel { data: sound_of(old(self)@, sound_id)->0, pos: 0 });
                self.playing = true;
                assert(actions_model(actions@) =~= before + play_actions(old(self)@, sound_id));
            },
        }
    }

    /// The sound mapped to `hotkey`, first mapping first.
    fn find_sound(&self, hotkey: &JGlobalHotkey) -> (r: Option<SoundId>)
        ensures
            r == lookup(self@.mapping, *hotkey),
    {
        let mut i: usize = 0;
        while i < self.hotkey_sound_mapping.len()
            invariant
                i <= self@.mapping.len(),
                self@.mapping == self.hotkey_sound_mapping@,
                lookup(self@.mapping.take(i as int), *hotkey) is None,
            decreases self.hotkey_sound_mapping.len() - i,
        {
            assert(self@.mapping.take(i + 1).drop_last() =~= self@.mapping.take(i as int));
            let (h, id) = self.hotkey_sound_mapping[i];
            if h == *hotkey {
                proof {
                    lemma_lookup_kept(self@.mapping, *hotkey, i + 1, self@.mapping.len() as int);
                    assert(self@.mapping.take(self@.mapping.len() as int) =~= self@.mapping);
                }
                return Some(id);
            }
            i = i + 1;
        }
        assert(self@.mapping.take(i as int) =~= self@.mapping);
        None
    }

    /// One tick of the host loop, given the hotkey event of this tick and
    /// whether a stream reported completion. A press of a mapped hotkey
    /// plays its sound; a release of a mapped hotkey stops when
    /// stop-on-release is set; otherwise a completion stops. Returns whether
    /// it acted.
    pub fn process_events(
        &mut self,
        event: JGlobalHotKeyEvent,
        completion: Option<JAppEvent>,
        actions: &mut Vec<JAppAction>,
    ) -> (r: bool)
        requires
            old(self).wf(),
        ensures
            final(self).wf(),
            tick_decision(old(self)@, event, completion is Some) matches TickDecision::Play(id) ==> (
            sound_of(old(self)@, id) is Some ==> {
                &&& final(actions)@.last() is StartStream
                &&& final(actions)@.last()->StartStream_0@ == (CursorModel {
                    data: sound_of(old(self)@, id)->0,
                    pos: 0,
                })
                &&& final(actions)@.last()->StartStream_0.wf()
            }),
            match tick_decision(old(self)@, event, completion is Some) {
                TickDecision::Play(id) => r && final(self)@ == (AppModel {
                    playing: sound_of(old(self)@, id) is Some,
                    ..old(self)@
                }) && actions_model(final(actions)@) == actions_model(old(actions)@) + play_actions(
                    old(self)@,
                    id,
                ),
                TickDecision::Stop => r && final(self)@ == (AppModel { playing: false, ..old(self)@ })
                    && actions_model(final(actions)@) == actions_model(old(actions)@) + stop_actions(
                    old(self)@,
                ),
                TickDecision::Nothing => !r && final(self)@ == old(self)@ && final(actions)@
                    == old(actions)@,
            },
    {
        match event {
            JGlobalHotKeyEvent::HotkeyPressed(h) => {
                match self.find_sound(&h) {
                    Some(id) => {
                        self.play(id, actions);
                        return true;
                    },
                    None => {},
                }
            },
            JGlobalHotKeyEvent::HotkeyReleased(h) => {
                if self.state.stop_audio_on_release {
                    match self.find_sound(&h) {
                        Some(_) => {
                            self.stop(actions);
                            return true;
                        },
                        None => {},
                    }
                }
            },
            _ => {},
        }
        match completion {
            Some(_) => {
                self.stop(actions);
                true
            },
            None => false,
        }
    }
}

/// A match found among the first `i` entries stays the first match of any
/// longer prefix.
proof fn lemma_lookup_kept(m: Seq<(JGlobalHotkey, SoundId)>, h: JGlobalHotkey, i: int, k: int)
    requires
        0 <= i <= k <= m.len(),
        lookup(m.take(i), h) is Some,
    ensures
        lookup(m.take(k), h) == lookup(m.take(i), h),
    decreases k - i,
{
    if k > i {
        lemma_lookup_kept(m, h, i, k - 1);
        assert(m.take(k).drop_last() =~= m.take(k - 1));
    }
}

/// Starting a sound while another plays releases the playing stream
/// before anything else and starts the new one last, with only synthetic
/// inputs between: at no point are two streams open. `start` is the number
/// of streams open before: one when playing, none otherwise.
pub proof fn lemma_one_stream_at_a_time(m: AppModel, id: SoundId, start: nat)
    requires
        sound_of(m, id) is Some,
        start == if m.playing {
            1nat
        } else {
            0nat
        },
    ensures
        m.playing ==> play_actions(m, id)[0] == ActionModel::StopStream,
        play_actions(m, id).last() == ActionModel::StartStream(
            CursorModel { data: sound_of(m, id)->0, pos: 0 },
        ),
        forall|k: int|
            0 <= k <= play_actions(m, id).len() ==> #[trigger] streams_open(
                start,
                play_actions(m, id).take(k),
            ) <= 1,
        streams_open(start, play_actions(m, id)) == 1,
{
    let acts = play_actions(m, id);
    let stop = stop_actions(m);
    let rest = input_actions(press_inputs(m.inputs)) + seq![
        ActionModel::StartStream(CursorModel { data: sound_of(m, id)->0, pos: 0 }),
    ];
    assert(acts =~= stop + rest);
    assert forall|k: int| 0 <= k <= acts.len() implies #[trigger] streams_open(start, acts.take(k)) <= 1 by {
        lemma_streams_prefix(start, acts, k);
    }
    lemma_streams_prefix(start, acts, acts.len() as int);
    assert(acts.take(acts.len() as int) =~= acts);
}

/// Stream counts along the actions of a play.
proof fn lemma_streams_prefix(start: nat, acts: Seq<ActionModel>, k: int)
    requires
        start <= 1,
        0 <= k <= acts.len(),
        forall|j: int| 0 <= j < acts.len() - 1 ==> !(acts[j] is StartStream),
        start == 1 ==> acts.len() >= 1 && acts[0] is StopStream,
        acts.len() >= 1 ==> acts.last() is StartStream,
    ensures
        streams_open(start, acts.take(k)) <= 1,
        k == acts.len() && acts.len() >= 1 ==> streams_open(start, acts.take(k)) == 1,
        k < acts.len() ==> streams_open(start, acts.take(k)) == if k == 0 {
            start
        } else {
            0
        } || streams_open(start, acts.take(k)) == 0,
    decreases k,
{
    if k > 0 {
        lemma_streams_prefix(start, acts, k - 1);
        assert(acts.take(k).drop_last() =~= acts.take(k - 1));
        assert(acts.take(k).last() == acts[k - 1]);
        if k - 1 == 0 && start == 1 {
            assert(acts[0] is StopStream);
        }
    }
}

} // verus!
