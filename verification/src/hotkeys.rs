//! The global screenshot hotkey: which key it is on each platform, how it
//! is shown to the user, and what to tell the user about registering it.
use vstd::prelude::*;

verus! {

/// The operating system the program runs on.
#[derive(Debug, Clone, Copy, PartialEq, Eq, Structural)]
pub enum HostPlatform {
    Windows,
    MacOs,
    Linux,
    Other,
}

/// The key that triggers a capture.
#[derive(Debug, Clone, Copy, PartialEq, Eq, Structural)]
pub enum HotkeyKey {
    PrintScreen,
    KeyS,
}

/// A key with the modifiers held with it.
#[derive(Debug, Clone, Copy, PartialEq, Eq, Structural)]
pub struct HotkeyBinding {
    pub command: bool,
    pub shift: bool,
    pub key: HotkeyKey,
}

pub open spec fn spec_screenshot_hotkey(platform: HostPlatform) -> HotkeyBinding {
    if platform == HostPlatform::MacOs {
        HotkeyBinding { command: true, shift: true, key: HotkeyKey::KeyS }
    } else {
        HotkeyBinding { command: false, shift: false, key: HotkeyKey::PrintScreen }
    }
}

/// Command+Shift+S on macOS, PrintScreen elsewhere.
pub fn screenshot_hotkey(platform: HostPlatform) -> (r: HotkeyBinding)
    ensures
        r == spec_screenshot_hotkey(platform),
{
    match platform {
        HostPlatform::MacOs => HotkeyBinding { command: true, shift: true, key: HotkeyKey::KeyS },
        _ => HotkeyBinding { command: false, shift: false, key: HotkeyKey::PrintScreen },
    }
}

/// The name shown for a binding: its modifiers, each followed by `+`, then
/// its key.
pub open spec fn binding_name(b: HotkeyBinding) -> Seq<char> {
    (if b.command {
        "Cmd+"@
    } else {
        Seq::empty()
    }) + (if b.shift {
        "Shift+"@
    } else {
        Seq::empty()
    }) + match b.key {
        HotkeyKey::PrintScreen => "PrintScreen"@,
        HotkeyKey::KeyS => "S"@,
    }
}

pub open spec fn spec_screenshot_hotkey_label(platform: HostPlatform) -> Seq<char> {
    if platform == HostPlatform::MacOs {
        "Cmd+Shift+S"@
    } else {
        "PrintScreen"@
    }
}

/// How the screenshot hotkey is named to the user.
pub fn screenshot_hotkey_label(platform: HostPlatform) -> (r: &'static str)
    ensures
        r@ == spec_screenshot_hotkey_label(platform),
{
    match platform {
        HostPlatform::MacOs => "Cmd+Shift+S",
        _ => "PrintScreen",
    }
}

/// Outside macOS the screenshot hotkey is PrintScreen with no modifier.
pub proof fn lemma_hotkey_outside_macos_is_print_screen(platform: HostPlatform)
    requires
        platform != HostPlatform::MacOs,
    ensures
        spec_screenshot_hotkey(platform) == (HotkeyBinding {
            command: false,
            shift: false,
            key: HotkeyKey::PrintScreen,
        }),
{
}

/// On every platform the label shown to the user names exactly the key and
/// modifiers that the hotkey is bound to.
pub proof fn lemma_label_names_the_binding(platform: HostPlatform)
    ensures
        spec_screenshot_hotkey_label(platform) == binding_name(spec_screenshot_hotkey(platform)),
{
    reveal_strlit("Cmd+");
    reveal_strlit("Shift+");
    reveal_strlit("S");
    reveal_strlit("PrintScreen");
    reveal_strlit("Cmd+Shift+S");
    if platform == HostPlatform::MacOs {
        assert("Cmd+"@ + "Shift+"@ + "S"@ =~= "Cmd+Shift+S"@);
    } else {
        assert(Seq::<char>::empty() + Seq::<char>::empty() + "PrintScreen"@ =~= "PrintScreen"@);
    }
}

/// Advice shown after registering the hotkey, whether or not registering
/// reported success.
#[derive(Debug, Clone, Copy, PartialEq, Eq, Structural)]
pub enum RegistrationHint {
    /// Wayland compositors usually block global hotkeys; bind a desktop
    /// shortcut to the capture flag instead.
    WaylandBlocksHotkeys,
    /// Without an X11 display server, registering is unlikely to work.
    NoDisplayServer,
    /// macOS asks for input monitoring and screen recording permissions.
    MacPermissions,
}

pub open spec fn spec_registration_hint(platform: HostPlatform, on_wayland: bool, on_x11: bool) -> Option<
    RegistrationHint,
> {
    match platform {
        HostPlatform::Linux => if on_wayland {
            Some(RegistrationHint::WaylandBlocksHotkeys)
        } else if !on_x11 {
            Some(RegistrationHint::NoDisplayServer)
        } else {
            None
        },
        HostPlatform::MacOs => Some(RegistrationHint::MacPermissions),
        _ => None,
    }
}

/// The hint for the platform; on Linux it depends on whether a Wayland
/// session or an X11 display is present.
pub fn registration_hint(platform: HostPlatform, on_wayland: bool, on_x11: bool) -> (r: Option<
    RegistrationHint,
>)
    ensures
        r == spec_registration_hint(platform, on_wayland, on_x11),
{
    match platform {
        HostPlatform::Linux => {
            if on_wayland {
                Some(RegistrationHint::WaylandBlocksHotkeys)
            } else if !on_x11 {
                Some(RegistrationHint::NoDisplayServer)
            } else {
                None
            }
        },
        HostPlatform::MacOs => Some(RegistrationHint::MacPermissions),
        _ => None,
    }
}

} // verus!
