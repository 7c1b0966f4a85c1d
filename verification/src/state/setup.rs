//! What a compositor sets up when it starts: the protocols that it offers, and
//! its seat.

use crate::config::keys::ModifiersState;
use crate::config::settings::Config;
use crate::state::client::{client_is_unrestricted, ClientState};
use vstd::prelude::*;

verus! {

/// A protocol that the compositor offers.
#[derive(Clone, Copy, Debug, PartialEq, Eq, Structural)]
pub enum Protocol {
    Compositor,
    XdgShell,
    SharedMemory,
    OutputInfo,
    DataDevice,
    CursorShape,
    Viewporter,
    FractionalScale,
    XdgActivation,
    SinglePixelBuffer,
    PrimarySelection,
    DataControl,
    PointerConstraints,
    RelativePointer,
    PointerGestures,
    KeyboardShortcutsInhibit,
    TextInput,
    InputMethod,
    SecurityContext,
    VirtualKeyboard,
    IdleInhibit,
    IdleNotify,
    Presentation,
    XdgDecoration,
    LayerShell,
    ForeignToplevelManagement,
    ForeignToplevelList,
    Screencopy,
    OutputCaptureSource,
    ToplevelCaptureSource,
    ImageCopyCapture,
    OutputManagement,
    SessionLock,
    XdgForeign,
    ContentType,
    XdgDialog,
    BackgroundEffect,
}

impl Protocol {
    /// A protocol with which a client can watch or control others.
    pub open spec fn privileged(self) -> bool {
        ||| self is DataControl
        ||| self is InputMethod
        ||| self is SecurityContext
        ||| self is VirtualKeyboard
        ||| self is LayerShell
        ||| self is ForeignToplevelManagement
        ||| self is ForeignToplevelList
        ||| self is Screencopy
        ||| self is OutputCaptureSource
        ||| self is ToplevelCaptureSource
        ||| self is ImageCopyCapture
        ||| self is OutputManagement
        ||| self is SessionLock
    }

    pub fn is_privileged(self) -> (b: bool)
        ensures
            b == self.privileged(),
    {
        match self {
            Protocol::DataControl | Protocol::InputMethod | Protocol::SecurityContext
            | Protocol::VirtualKeyboard | Protocol::LayerShell
            | Protocol::ForeignToplevelManagement | Protocol::ForeignToplevelList
            | Protocol::Screencopy | Protocol::OutputCaptureSource
            | Protocol::ToplevelCaptureSource | Protocol::ImageCopyCapture
            | Protocol::OutputManagement | Protocol::SessionLock => true,
            _ => false,
        }
    }

    /// Whether a client may use a protocol.
    pub open spec fn open_to(self, client: Option<ClientState>) -> bool {
        self.privileged() ==> !(client matches Some(state) && state.is_restricted)
    }

    /// Whether a protocol is shown to a client: privileged ones are hidden from
    /// restricted clients.
    pub fn is_open_to(self, client: Option<ClientState>) -> (b: bool)
        ensures
            b == self.open_to(client),
    {
        !self.is_privileged() || client_is_unrestricted(client)
    }
}

/// How the seat's keyboard is set up.
#[derive(Debug)]
pub struct KeyboardSetup {
    pub layout: String,
    pub variant: String,
    pub options: Option<String>,
    pub model: String,
    pub repeat_delay: i32,
    pub repeat_rate: i32,
    pub modifiers: ModifiersState,
}

impl KeyboardSetup {
    /// The keyboard that a configuration asks for: its layout, the options only
    /// where there are any, its repeat timing, and the two locks as configured
    /// with no modifier pressed.
    pub open spec fn meets(self, config: Config) -> bool {
        &&& self.layout@ == config.keyboard_layout.layout@
        &&& self.variant@ == config.keyboard_layout.variant@
        &&& self.model@ == config.keyboard_layout.model@
        &&& match self.options {
            Some(options) => config.keyboard_layout.options@.len() > 0 && options@
                == config.keyboard_layout.options@,
            None => config.keyboard_layout.options@.len() == 0,
        }
        &&& self.repeat_delay == config.repeat_delay
        &&& self.repeat_rate == config.repeat_rate
        &&& self.modifiers == ModifiersState {
            ctrl: false,
            alt: false,
            shift: false,
            caps_lock: config.caps_lock,
            logo: false,
            num_lock: config.num_lock,
        }
    }
}

/// How the keyboard is to be set up for a configuration.
pub fn keyboard_setup(config: &Config) -> (setup: KeyboardSetup)
    ensures
        setup.meets(*config),
{
    KeyboardSetup {
        layout: config.keyboard_layout.layout.clone(),
        variant: config.keyboard_layout.variant.clone(),
        options: config.keyboard_layout.xkb_options(),
        model: config.keyboard_layout.model.clone(),
        repeat_delay: config.repeat_delay,
        repeat_rate: config.repeat_rate,
        modifiers: ModifiersState {
            ctrl: false,
            alt: false,
            shift: false,
            caps_lock: config.caps_lock,
            logo: false,
            num_lock: config.num_lock,
        },
    }
}

/// A restricted client sees exactly the protocols that are not privileged; every
/// other client sees all of them.
pub proof fn lemma_restricted_clients_see_less(protocol: Protocol, client: Option<ClientState>)
    ensures
        client is None ==> protocol.open_to(client),
        client matches Some(state) ==> (protocol.open_to(client) <==> !state.is_restricted
            || !protocol.privileged()),
{
}

/// A restricted client can neither watch nor control others. It is not offered the
/// clipboard of others, input methods, security contexts, virtual keyboards, layer
/// surfaces, the lists of windows, any way of capturing the screen, the configuration
/// of outputs or the session lock; everything else is open to it.
pub proof fn lemma_restricted_clients_cannot_reach_others(protocol: Protocol)
    ensures
        protocol.open_to(Some(ClientState { is_restricted: true })) <==> match protocol {
            Protocol::DataControl => false,
            Protocol::InputMethod => false,
            Protocol::SecurityContext => false,
            Protocol::VirtualKeyboard => false,
            Protocol::LayerShell => false,
            Protocol::ForeignToplevelManagement => false,
            Protocol::ForeignToplevelList => false,
            Protocol::Screencopy => false,
            Protocol::OutputCaptureSource => false,
            Protocol::ToplevelCaptureSource => false,
            Protocol::ImageCopyCapture => false,
            Protocol::OutputManagement => false,
            Protocol::SessionLock => false,
            _ => true,
        },
        protocol.open_to(Some(ClientState { is_restricted: false })),
        protocol.open_to(None),
{
}

/// A keyboard that is set up for a configuration starts with no modifier pressed,
/// and with the two locks, the repeat timing and the layout that the configuration
/// gives it. Empty options are not passed on.
pub proof fn lemma_keyboard_follows_the_configuration(setup: KeyboardSetup, config: Config)
    requires
        setup.meets(config),
    ensures
        !setup.modifiers.ctrl && !setup.modifiers.alt && !setup.modifiers.shift
            && !setup.modifiers.logo,
        setup.modifiers.caps_lock == config.caps_lock,
        setup.modifiers.num_lock == config.num_lock,
        setup.repeat_delay == config.repeat_delay,
        setup.repeat_rate == config.repeat_rate,
        setup.layout@ == config.keyboard_layout.layout@,
        setup.variant@ == config.keyboard_layout.variant@,
        setup.model@ == config.keyboard_layout.model@,
        setup.options is Some <==> config.keyboard_layout.options@.len() > 0,
        setup.options is Some ==> setup.options->0@ == config.keyboard_layout.options@,
{
}

} // verus!
