use screenclip::hotkeys::{
    registration_hint, screenshot_hotkey, screenshot_hotkey_label, HostPlatform, HotkeyBinding,
    HotkeyKey, RegistrationHint,
};

#[test]
fn hotkey_is_print_screen_except_on_macos() {
    assert_eq!(screenshot_hotkey_label(HostPlatform::Windows), "PrintScreen");
    assert_eq!(screenshot_hotkey_label(HostPlatform::Linux), "PrintScreen");
    assert_eq!(screenshot_hotkey_label(HostPlatform::MacOs), "Cmd+Shift+S");
    assert_eq!(
        screenshot_hotkey(HostPlatform::Windows),
        HotkeyBinding { command: false, shift: false, key: HotkeyKey::PrintScreen }
    );
    assert_eq!(
        screenshot_hotkey(HostPlatform::MacOs),
        HotkeyBinding { command: true, shift: true, key: HotkeyKey::KeyS }
    );
}

#[test]
fn registration_hints_depend_on_the_session() {
    assert_eq!(
        registration_hint(HostPlatform::Linux, true, true),
        Some(RegistrationHint::WaylandBlocksHotkeys)
    );
    assert_eq!(
        registration_hint(HostPlatform::Linux, false, false),
        Some(RegistrationHint::NoDisplayServer)
    );
    assert_eq!(registration_hint(HostPlatform::Linux, false, true), None);
    assert_eq!(registration_hint(HostPlatform::MacOs, false, false), Some(RegistrationHint::MacPermissions));
    assert_eq!(registration_hint(HostPlatform::Windows, true, false), None);
}
