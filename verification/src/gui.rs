use vstd::prelude::*;
use crate::rom::RomInfo;

verus! {

/// A button on a SNES controller. Each one maps to a fixed bit of the
/// 16-bit JOY1 auto-read register through [`SnesButton::mask`].
#[derive(Clone, Copy, Debug, PartialEq, Eq, Structural)]
pub enum SnesButton {
    X,
    Y,
    A,
    B,
    Start,
    Select,
    Up,
    Down,
    Left,
    Right,
    R,
    L,
}

/// The bit of JOY1 that `b` occupies: from bit 15 down to bit 4,
/// B, Y, Select, Start, Up, Down, Left, Right, A, X, L, R.
pub open spec fn button_bit(b: SnesButton) -> u16 {
    match b {
        SnesButton::B => 15,
        SnesButton::Y => 14,
        SnesButton::Select => 13,
        SnesButton::Start => 12,
        SnesButton::Up => 11,
        SnesButton::Down => 10,
        SnesButton::Left => 9,
        SnesButton::Right => 8,
        SnesButton::A => 7,
        SnesButton::X => 6,
        SnesButton::L => 5,
        SnesButton::R => 4,
    }
}

impl SnesButton {
    /// The button's bit within the 16-bit JOY1 register. The low 4 bits
    /// are unused on a standard controller.
    pub fn mask(self) -> (r: u16)
        ensures
            r == 1u16 << button_bit(self),
    {
        let bit: u16 = match self {
            SnesButton::B => 15,
            SnesButton::Y => 14,
            SnesButton::Select => 13,
            SnesButton::Start => 12,
            SnesButton::Up => 11,
            SnesButton::Down => 10,
            SnesButton::Left => 9,
            SnesButton::Right => 8,
            SnesButton::A => 7,
            SnesButton::X => 6,
            SnesButton::L => 5,
            SnesButton::R => 4,
        };
        1u16 << bit
    }
}

/// Every button has a single bit of its own among bits 4-15: two different
/// buttons never share a bit, and none uses the low four bits.
pub proof fn lemma_button_masks_disjoint(b1: SnesButton, b2: SnesButton)
    ensures
        4 <= button_bit(b1) < 16,
        (1u16 << button_bit(b1)) & 0x000F == 0,
        (1u16 << button_bit(b1)) != 0,
        b1 != b2 ==> (1u16 << button_bit(b1)) & (1u16 << button_bit(b2)) == 0,
{
    let x = button_bit(b1);
    let y = button_bit(b2);
    assert(4 <= x < 16 ==> (1u16 << x) & 0x000F == 0 && (1u16 << x) != 0) by (bit_vector);
    assert(b1 != b2 ==> x != y);
    assert(x < 16 && y < 16 && x != y ==> (1u16 << x) & (1u16 << y) == 0) by (bit_vector);
}

/// What the emulator is asked to do.
#[derive(Clone, Debug, PartialEq, Eq)]
pub enum RSnesEvent {
    /// Load the ROM at `path` (closing the current game).
    LoadRom { path: String },
    /// Close the open game, or quit when none is open.
    Close,
    /// Quit the emulator altogether.
    Quit,
    /// A key mapped to a controller button was pressed.
    ButtonDown(SnesButton),
    /// A key mapped to a controller button was released.
    ButtonUp(SnesButton),
    /// Run the default action of the loaded plugin, if any.
    RunPluginDefault,
}

/// The host keys that the input mapping reads; every other key is `Other`.
#[derive(Clone, Copy, Debug, PartialEq, Eq, Structural)]
pub enum Key {
    Z,
    Q,
    E,
    S,
    A,
    R,
    L,
    P,
    Return,
    RShift,
    Up,
    Down,
    Left,
    Right,
    F1,
    Escape,
    Other,
}

/// A host input event, with the modifier state the mapping reads.
#[derive(Clone, Copy, Debug, PartialEq, Eq, Structural)]
pub enum HostEvent {
    /// The window was asked to close.
    Quit,
    /// A key went down; `repeat` marks auto-repeat.
    KeyDown { key: Key, ctrl: bool, alt: bool, repeat: bool },
    /// A key went up.
    KeyUp { key: Key },
    /// Anything else.
    Other,
}

/// What an input event asks of the emulator: an event, or a file dialog
/// to pick a ROM (whose choice becomes [`RSnesEvent::LoadRom`]).
#[derive(Clone, Debug, PartialEq, Eq)]
pub enum MappedEvent {
    Event(RSnesEvent),
    PickRom,
}

/// Keyboard actions that only affect the GUI, never the emulator.
#[derive(Clone, Copy, Debug, PartialEq, Eq, Structural)]
pub enum GuiAction {
    ToggleRomInfo,
    CloseOverlays,
    LoadPlugin,
}

/// The controller button bound to `key`: arrows are the D-pad, Z = X,
/// Q = Y, E = A, S = B, A = L, R = R, Return = Start, right Shift = Select.
pub open spec fn button_for(key: Key) -> Option<SnesButton> {
    match key {
        Key::Z => Some(SnesButton::X),
        Key::Q => Some(SnesButton::Y),
        Key::E => Some(SnesButton::A),
        Key::S => Some(SnesButton::B),
        Key::Return => Some(SnesButton::Start),
        Key::RShift => Some(SnesButton::Select),
        Key::Up => Some(SnesButton::Up),
        Key::Down => Some(SnesButton::Down),
        Key::Left => Some(SnesButton::Left),
        Key::Right => Some(SnesButton::Right),
        Key::A => Some(SnesButton::L),
        Key::R => Some(SnesButton::R),
        _ => None,
    }
}

/// Maps a key to the controller button it is bound to, if any.
pub fn map_button(key: Key) -> (r: Option<SnesButton>)
    ensures
        r == button_for(key),
{
    match key {
        Key::Z => Some(SnesButton::X),
        Key::Q => Some(SnesButton::Y),
        Key::E => Some(SnesButton::A),
        Key::S => Some(SnesButton::B),
        Key::Return => Some(SnesButton::Start),
        Key::RShift => Some(SnesButton::Select),
        Key::Up => Some(SnesButton::Up),
        Key::Down => Some(SnesButton::Down),
        Key::Left => Some(SnesButton::Left),
        Key::Right => Some(SnesButton::Right),
        Key::A => Some(SnesButton::L),
        Key::R => Some(SnesButton::R),
        _ => None,
    }
}

/// What an input event means to the emulator. Shortcuts come first:
/// window close and Ctrl+Q quit, Escape (not repeated) closes the game,
/// Ctrl+L asks for a ROM file, R without Ctrl or Alt runs the plugin's
/// default action. Otherwise a bound key going down with neither Ctrl nor
/// Alt presses its button, and a bound key going up always releases it.
pub open spec fn event_meaning(event: HostEvent) -> Option<MappedEvent> {
    match event {
        HostEvent::Quit => Some(MappedEvent::Event(RSnesEvent::Quit)),
        HostEvent::KeyDown { key, ctrl, alt, repeat } => {
            if key == Key::Q && ctrl {
                Some(MappedEvent::Event(RSnesEvent::Quit))
            } else if key == Key::Escape && !repeat {
                Some(MappedEvent::Event(RSnesEvent::Close))
            } else if key == Key::L && ctrl {
                Some(MappedEvent::PickRom)
            } else if key == Key::R && !ctrl && !alt {
                Some(MappedEvent::Event(RSnesEvent::RunPluginDefault))
            } else if !ctrl && !alt {
                match button_for(key) {
                    Some(b) => Some(MappedEvent::Event(RSnesEvent::ButtonDown(b))),
                    None => None,
                }
            } else {
                None
            }
        },
        HostEvent::KeyUp { key } => match button_for(key) {
            Some(b) => Some(MappedEvent::Event(RSnesEvent::ButtonUp(b))),
            None => None,
        },
        HostEvent::Other => None,
    }
}

/// Maps an input event to what it asks of the emulator, as
/// [`event_meaning`] says.
pub fn map_event(event: &HostEvent) -> (r: Option<MappedEvent>)
    ensures
        r == event_meaning(*event),
{
    match *event {
        HostEvent::Quit => {
            return Some(MappedEvent::Event(RSnesEvent::Quit));
        },
        HostEvent::KeyDown { key: Key::Q, ctrl: true, .. } => {
            return Some(MappedEvent::Event(RSnesEvent::Quit));
        },
        HostEvent::KeyDown { key: Key::Escape, repeat: false, .. } => {
            return Some(MappedEvent::Event(RSnesEvent::Close));
        },
        HostEvent::KeyDown { key: Key::L, ctrl: true, .. } => {
            return Some(MappedEvent::PickRom);
        },
        HostEvent::KeyDown { key: Key::R, ctrl: false, alt: false, .. } => {
            return Some(MappedEvent::Event(RSnesEvent::RunPluginDefault));
        },
        _ => {},
    }
    match *event {
        HostEvent::KeyDown { key, ctrl: false, alt: false, .. } => match map_button(key) {
            Some(b) => Some(MappedEvent::Event(RSnesEvent::ButtonDown(b))),
            None => None,
        },
        HostEvent::KeyUp { key } => match map_button(key) {
            Some(b) => Some(MappedEvent::Event(RSnesEvent::ButtonUp(b))),
            None => None,
        },
        _ => None,
    }
}

/// The GUI-only action of an input event: F1 (not repeated) toggles the ROM
/// information window, Ctrl+P (not repeated, only where plugins are built
/// in) loads a plugin, Escape (not repeated) closes the overlays.
pub open spec fn gui_action_of(event: HostEvent, plugins: bool) -> Option<GuiAction> {
    match event {
        HostEvent::KeyDown { key, ctrl, alt, repeat } => {
            if key == Key::F1 && !repeat {
                Some(GuiAction::ToggleRomInfo)
            } else if plugins && key == Key::P && ctrl && !repeat {
                Some(GuiAction::LoadPlugin)
            } else if key == Key::Escape && !repeat {
                Some(GuiAction::CloseOverlays)
            } else {
                None
            }
        },
        _ => None,
    }
}

/// Maps an input event to a GUI-only action; `plugins` says whether plugin
/// support is built in.
pub fn map_gui_action(event: &HostEvent, plugins: bool) -> (r: Option<GuiAction>)
    ensures
        r == gui_action_of(*event, plugins),
{
    match *event {
        HostEvent::KeyDown { key: Key::F1, repeat: false, .. } => Some(GuiAction::ToggleRomInfo),
        HostEvent::KeyDown { key: Key::P, ctrl: true, repeat: false, .. } if plugins => Some(
            GuiAction::LoadPlugin,
        ),
        HostEvent::KeyDown { key: Key::Escape, repeat: false, .. } => Some(GuiAction::CloseOverlays),
        _ => None,
    }
}

/// Whether an event ends the idle screen shown while no ROM is loaded:
/// controller buttons and the plugin's default action mean nothing there and
/// are swallowed; every other event (a ROM to load, close, quit) is handed
/// on and stops the idle loop.
pub open spec fn ends_idle_spec(event: RSnesEvent) -> bool {
    !(event is ButtonDown || event is ButtonUp || event is RunPluginDefault)
}

/// Whether `event` ends the idle screen (see [`ends_idle_spec`]).
pub fn ends_idle(event: &RSnesEvent) -> (r: bool)
    ensures
        r == ends_idle_spec(*event),
{
    match event {
        RSnesEvent::ButtonDown(_) | RSnesEvent::ButtonUp(_) | RSnesEvent::RunPluginDefault => false,
        _ => true,
    }
}

/// What the overlays of one frame show besides the GUI's own state: the
/// loaded ROM's information, if a ROM is loaded.
pub struct GuiFrameData<'a> {
    pub rom_info: Option<&'a RomInfo>,
}

/// Which overlay windows are open: the ROM information window, the error
/// window (with its message), and the permission prompt of a plugin that
/// awaits the user's decision.
pub struct GuiState {
    pub show_rom_info: bool,
    pub error_popup: Option<String>,
    pub pending_plugin: bool,
}

impl GuiState {
    /// Whether any overlay is open.
    pub open spec fn any_open_spec(&self) -> bool {
        self.show_rom_info || self.error_popup.is_some() || self.pending_plugin
    }

    /// No overlay open.
    pub fn new() -> (r: Self)
        ensures
            !r.show_rom_info,
            r.error_popup.is_none(),
            !r.pending_plugin,
    {
        GuiState { show_rom_info: false, error_popup: None, pending_plugin: false }
    }

    /// Whether any overlay is open.
    pub fn any_open(&self) -> (r: bool)
        ensures
            r == self.any_open_spec(),
    {
        self.show_rom_info || self.error_popup.is_some() || self.pending_plugin
    }

    /// Closes every open overlay (dismissing a plugin prompt this way
    /// counts as a denial) and says whether anything was open, so that
    /// Escape closes the overlays first and the game only once none is open.
    pub fn close_all(&mut self) -> (r: bool)
        ensures
            r == old(self).any_open_spec(),
            !final(self).any_open_spec(),
    {
        let was_open = self.any_open();
        self.show_rom_info = false;
        self.error_popup = None;
        self.pending_plugin = false;
        was_open
    }

    /// Shows `message` in the error window.
    pub fn pass_error(&mut self, message: String)
        ensures
            final(self).error_popup == Some(message),
            final(self).show_rom_info == old(self).show_rom_info,
            final(self).pending_plugin == old(self).pending_plugin,
    {
        self.error_popup = Some(message);
    }
}

/// Where an input event goes after the GUI has seen it.
#[derive(Clone, Debug, PartialEq, Eq)]
pub enum Routed {
    /// The GUI used it up.
    Consumed,
    /// Open the plugin file picker.
    PickPlugin,
    /// Hand this to the emulator.
    Emulator(MappedEvent),
    /// Nothing to do.
    Dropped,
}

impl GuiState {
    /// Routes one input event: GUI actions first (F1 toggles the ROM
    /// window; Ctrl+P asks for a plugin when `plugin_loading` allows it;
    /// Escape closes open overlays and only reaches the emulator when none
    /// was open), then the emulator mapping of [`map_event`].
    pub fn route_event(&mut self, event: &HostEvent, plugins: bool, plugin_loading: bool) -> (r: Routed)
        ensures
            match gui_action_of(*event, plugins) {
                Some(GuiAction::ToggleRomInfo) => {
                    &&& r == Routed::Consumed
                    &&& final(self).show_rom_info == !old(self).show_rom_info
                    &&& final(self).error_popup == old(self).error_popup
                    &&& final(self).pending_plugin == old(self).pending_plugin
                },
                Some(GuiAction::LoadPlugin) => {
                    &&& r == (if plugin_loading { Routed::PickPlugin } else { Routed::Consumed })
                    &&& final(self).show_rom_info == old(self).show_rom_info
                    &&& final(self).error_popup == old(self).error_popup
                    &&& final(self).pending_plugin == old(self).pending_plugin
                },
                Some(GuiAction::CloseOverlays) => {
                    &&& !final(self).any_open_spec()
                    &&& old(self).any_open_spec() ==> r == Routed::Consumed
                    &&& !old(self).any_open_spec() ==> r == match event_meaning(*event) {
                        Some(m) => Routed::Emulator(m),
                        None => Routed::Dropped,
                    }
                },
                None => {
                    &&& r == match event_meaning(*event) {
                        Some(m) => Routed::Emulator(m),
                        None => Routed::Dropped,
                    }
                    &&& final(self).show_rom_info == old(self).show_rom_info
                    &&& final(self).error_popup == old(self).error_popup
                    &&& final(self).pending_plugin == old(self).pending_plugin
                },
            },
    {
        match map_gui_action(event, plugins) {
            Some(GuiAction::ToggleRomInfo) => {
                self.show_rom_info = !self.show_rom_info;
                return Routed::Consumed;
            },
            Some(GuiAction::LoadPlugin) => {
                if plugin_loading {
                    return Routed::PickPlugin;
                }
                return Routed::Consumed;
            },
            Some(GuiAction::CloseOverlays) => {
                if self.close_all() {
                    return Routed::Consumed;
                }
            },
            None => {},
        }
        match map_event(event) {
            Some(m) => Routed::Emulator(m),
            None => Routed::Dropped,
        }
    }
}

} // verus!
