use ppu::gui::ends_idle;
use ppu::gui::{
    map_button, map_event, map_gui_action, GuiAction, GuiState, HostEvent, Key, MappedEvent,
    RSnesEvent, Routed, SnesButton,
};

fn down(key: Key, ctrl: bool, alt: bool) -> HostEvent {
    HostEvent::KeyDown { key, ctrl, alt, repeat: false }
}

#[test]
fn gui_button_masks() {
    assert_eq!(SnesButton::B.mask(), 0x8000);
    assert_eq!(SnesButton::Y.mask(), 0x4000);
    assert_eq!(SnesButton::Select.mask(), 0x2000);
    assert_eq!(SnesButton::Start.mask(), 0x1000);
    assert_eq!(SnesButton::Up.mask(), 0x0800);
    assert_eq!(SnesButton::Down.mask(), 0x0400);
    assert_eq!(SnesButton::Left.mask(), 0x0200);
    assert_eq!(SnesButton::Right.mask(), 0x0100);
    assert_eq!(SnesButton::A.mask(), 0x0080);
    assert_eq!(SnesButton::X.mask(), 0x0040);
    assert_eq!(SnesButton::L.mask(), 0x0020);
    assert_eq!(SnesButton::R.mask(), 0x0010);
}

// Every button owns one bit of its own, none in the low nibble.
#[test]
fn gui_button_masks_disjoint() {
    let all = [
        SnesButton::X, SnesButton::Y, SnesButton::A, SnesButton::B, SnesButton::Start,
        SnesButton::Select, SnesButton::Up, SnesButton::Down, SnesButton::Left,
        SnesButton::Right, SnesButton::R, SnesButton::L,
    ];
    let mut seen = 0u16;
    for b in all {
        assert_eq!(b.mask().count_ones(), 1);
        assert_eq!(seen & b.mask(), 0);
        seen |= b.mask();
    }
    assert_eq!(seen, 0xFFF0);
}

#[test]
fn gui_key_layout() {
    assert_eq!(map_button(Key::Z), Some(SnesButton::X));
    assert_eq!(map_button(Key::Q), Some(SnesButton::Y));
    assert_eq!(map_button(Key::E), Some(SnesButton::A));
    assert_eq!(map_button(Key::S), Some(SnesButton::B));
    assert_eq!(map_button(Key::Return), Some(SnesButton::Start));
    assert_eq!(map_button(Key::RShift), Some(SnesButton::Select));
    assert_eq!(map_button(Key::A), Some(SnesButton::L));
    assert_eq!(map_button(Key::R), Some(SnesButton::R));
    assert_eq!(map_button(Key::Up), Some(SnesButton::Up));
    assert_eq!(map_button(Key::F1), None);
    assert_eq!(map_button(Key::Other), None);
}

#[test]
fn gui_shortcuts_before_buttons() {
    assert_eq!(map_event(&HostEvent::Quit), Some(MappedEvent::Event(RSnesEvent::Quit)));
    assert_eq!(map_event(&down(Key::Q, true, false)), Some(MappedEvent::Event(RSnesEvent::Quit)));
    assert_eq!(map_event(&down(Key::Escape, false, false)), Some(MappedEvent::Event(RSnesEvent::Close)));
    assert_eq!(map_event(&down(Key::L, true, false)), Some(MappedEvent::PickRom));
    assert_eq!(map_event(&down(Key::R, false, false)), Some(MappedEvent::Event(RSnesEvent::RunPluginDefault)));
    // Q without Ctrl is the Y button.
    assert_eq!(map_event(&down(Key::Q, false, false)), Some(MappedEvent::Event(RSnesEvent::ButtonDown(SnesButton::Y))));
}

#[test]
fn gui_buttons_need_no_modifier_to_press_but_always_release() {
    assert_eq!(map_event(&down(Key::Z, true, false)), None);
    assert_eq!(map_event(&down(Key::Z, false, true)), None);
    assert_eq!(map_event(&down(Key::Z, false, false)), Some(MappedEvent::Event(RSnesEvent::ButtonDown(SnesButton::X))));
    assert_eq!(map_event(&HostEvent::KeyUp { key: Key::Z }), Some(MappedEvent::Event(RSnesEvent::ButtonUp(SnesButton::X))));
    assert_eq!(map_event(&HostEvent::KeyUp { key: Key::R }), Some(MappedEvent::Event(RSnesEvent::ButtonUp(SnesButton::R))));
    assert_eq!(map_event(&HostEvent::KeyUp { key: Key::F1 }), None);
    // A repeated Escape does not close the game.
    let repeated = HostEvent::KeyDown { key: Key::Escape, ctrl: false, alt: false, repeat: true };
    assert_eq!(map_event(&repeated), None);
}

#[test]
fn gui_actions() {
    assert_eq!(map_gui_action(&down(Key::F1, false, false), false), Some(GuiAction::ToggleRomInfo));
    assert_eq!(map_gui_action(&down(Key::P, true, false), true), Some(GuiAction::LoadPlugin));
    assert_eq!(map_gui_action(&down(Key::P, true, false), false), None);
    assert_eq!(map_gui_action(&down(Key::Escape, false, false), false), Some(GuiAction::CloseOverlays));
    assert_eq!(map_gui_action(&HostEvent::KeyUp { key: Key::F1 }, true), None);
}

#[test]
fn gui_close_all_reports_what_was_open() {
    let mut state = GuiState::new();
    assert!(!state.any_open());
    assert!(!state.close_all());
    state.show_rom_info = true;
    assert!(state.any_open());
    assert!(state.close_all());
    assert!(!state.any_open());
    state.pass_error("bad rom".to_string());
    assert!(state.any_open());
    assert!(state.close_all());
    assert_eq!(state.error_popup, None);
}

// Escape closes open overlays first and reaches the emulator only when
// nothing is open.
#[test]
fn gui_escape_routing() {
    let mut state = GuiState::new();
    let esc = down(Key::Escape, false, false);
    state.show_rom_info = true;
    assert_eq!(state.route_event(&esc, false, false), Routed::Consumed);
    assert!(!state.show_rom_info);
    assert_eq!(state.route_event(&esc, false, false), Routed::Emulator(MappedEvent::Event(RSnesEvent::Close)));
}

#[test]
fn gui_routing_of_other_events() {
    let mut state = GuiState::new();
    assert_eq!(state.route_event(&down(Key::F1, false, false), false, false), Routed::Consumed);
    assert!(state.show_rom_info);
    assert_eq!(state.route_event(&down(Key::P, true, false), true, true), Routed::PickPlugin);
    assert_eq!(state.route_event(&down(Key::P, true, false), true, false), Routed::Consumed);
    assert_eq!(state.route_event(&down(Key::Other, false, false), true, true), Routed::Dropped);
    assert_eq!(
        state.route_event(&down(Key::S, false, false), true, true),
        Routed::Emulator(MappedEvent::Event(RSnesEvent::ButtonDown(SnesButton::B)))
    );
    assert!(state.show_rom_info);
}

// The idle screen swallows controller buttons and the plugin action, and
// hands on everything else.
#[test]
fn gui_idle_screen_swallows_buttons() {
    assert!(!ends_idle(&RSnesEvent::ButtonDown(SnesButton::A)));
    assert!(!ends_idle(&RSnesEvent::ButtonUp(SnesButton::Start)));
    assert!(!ends_idle(&RSnesEvent::RunPluginDefault));
    assert!(ends_idle(&RSnesEvent::Quit));
    assert!(ends_idle(&RSnesEvent::Close));
    assert!(ends_idle(&RSnesEvent::LoadRom { path: String::from("game.sfc") }));
}
