//! Who draws the title bars.

use crate::config::rules::DecorationMode;
use crate::state::wm::{DriftWm, RenderCache, WindowDecoration};
use vstd::prelude::*;

verus! {

broadcast use vstd::std_specs::hash::group_hash_axioms;

/// Who decorates a window, as the decoration protocol puts it.
#[derive(Clone, Copy, Debug, PartialEq, Eq, Structural)]
pub enum WireMode {
    ClientSide,
    ServerSide,
}

/// What a toplevel is told about its decoration.
#[derive(Clone, Copy, Debug, PartialEq, Eq, Structural)]
pub struct DecorationReply {
    pub mode: WireMode,
    /// Whether to send a configure now. Before the initial configure the mode is
    /// folded into that one: sending another would race it.
    pub send_configure: bool,
}

/// The protocol's mode for a decoration mode.
pub open spec fn wire_mode(mode: DecorationMode) -> WireMode {
    match mode {
        DecorationMode::Client => WireMode::ClientSide,
        _ => WireMode::ServerSide,
    }
}

/// The protocol's mode for a decoration mode: only a client that draws its own
/// decorations is told so.
pub fn decoration_mode_to_wire(mode: &DecorationMode) -> (wire: WireMode)
    ensures
        wire == wire_mode(*mode),
{
    match mode {
        DecorationMode::Client => WireMode::ClientSide,
        _ => WireMode::ServerSide,
    }
}

/// Whether a client gets a title bar of ours. An explicit rule decides: only
/// `Server` gets one. Without a rule the default mode decides, except that a
/// client that asks for server-side decorations gets a bar under the default
/// `Client` too: it needs some chrome.
pub open spec fn gets_title_bar(
    rule: Option<DecorationMode>,
    default_mode: DecorationMode,
    requested: WireMode,
) -> bool {
    match rule {
        Some(mode) => mode is Server,
        None => default_mode is Server || (default_mode is Client && requested is ServerSide),
    }
}

impl DriftWm {
    /// The reply to a client that says nothing about its decoration: the default
    /// mode.
    pub open spec fn default_reply(self, initial_configure_sent: bool) -> DecorationReply {
        DecorationReply {
            mode: wire_mode(self.config.decorations.default_mode),
            send_configure: initial_configure_sent,
        }
    }

    /// A toplevel takes part in the decoration protocol: advertise the default
    /// mode. Rules override it once the window is identified.
    pub fn new_decoration(&self, initial_configure_sent: bool) -> (reply: DecorationReply)
        ensures
            reply == self.default_reply(initial_configure_sent),
    {
        DecorationReply {
            mode: decoration_mode_to_wire(&self.config.decorations.default_mode),
            send_configure: initial_configure_sent,
        }
    }

    /// A toplevel takes back its request: the default mode holds.
    pub fn unset_mode(&self, initial_configure_sent: bool) -> (reply: DecorationReply)
        ensures
            reply == self.default_reply(initial_configure_sent),
    {
        self.new_decoration(initial_configure_sent)
    }

    /// The title bars after a client was promised one: its window, once it has a
    /// width, gets a bar of that width unless it has one.
    pub open spec fn bars_with(self, surface: u64) -> Map<u64, WindowDecoration> {
        match crate::state::windows::window_of(self.windows@, surface) {
            Some(w) => if w.geometry.size.w > 0 && !self.decorations@.contains_key(surface) {
                self.decorations@.insert(
                    surface,
                    WindowDecoration { width: w.geometry.size.w, focused: true },
                )
            } else {
                self.decorations@
            },
            None => self.decorations@,
        }
    }

    /// `self` is `before` after a toplevel asked for a decoration mode. A client
    /// that gets a title bar is noted, and its window decorated. Any other client
    /// that switches to its own decorations loses the chrome that it had.
    pub open spec fn mode_requested(
        self,
        before: DriftWm,
        surface: u64,
        mode: WireMode,
        rule: Option<DecorationMode>,
    ) -> bool {
        let bar = gets_title_bar(rule, before.config.decorations.default_mode, mode);
        let drop = !bar && mode is ClientSide;
        &&& self.pending_ssd@ == (if bar {
            before.pending_ssd@.insert(surface)
        } else if drop {
            before.pending_ssd@.remove(surface)
        } else {
            before.pending_ssd@
        })
        &&& self.decorations@ == (if bar {
            before.bars_with(surface)
        } else if drop {
            before.decorations@.remove(surface)
        } else {
            before.decorations@
        })
        &&& self.render.shadow_cache@ == (if drop {
            before.render.shadow_cache@.remove(surface)
        } else {
            before.render.shadow_cache@
        })
        &&& self == (DriftWm {
            pending_ssd: self.pending_ssd,
            decorations: self.decorations,
            render: RenderCache { shadow_cache: self.render.shadow_cache, ..before.render },
            ..before
        })
    }

    /// A toplevel asks for a decoration mode. The request is always honored on
    /// the wire. `rule_decoration` is what the window's rules say.
    pub fn request_mode(
        &mut self,
        surface: u64,
        mode: WireMode,
        rule_decoration: Option<DecorationMode>,
        initial_configure_sent: bool,
    ) -> (reply: DecorationReply)
        ensures
            old(self).wf() ==> final(self).wf(),
            reply == (DecorationReply { mode, send_configure: initial_configure_sent }),
            final(self).mode_requested(*old(self), surface, mode, rule_decoration),
    {
        let reply: DecorationReply = DecorationReply {
            mode,
            send_configure: initial_configure_sent,
        };
        let create_titlebar: bool = match rule_decoration {
            Some(DecorationMode::Server) => true,
            Some(_) => false,
            None => match (mode, self.config.decorations.default_mode) {
                (WireMode::ServerSide, DecorationMode::Client) => true,
                (_, DecorationMode::Server) => true,
                _ => false,
            },
        };
        if create_titlebar {
            self.pending_ssd.insert(surface);
            let width: Option<i32> = match self.window_for_surface(surface) {
                Some(w) => Some(w.geometry.size.w),
                None => None,
            };
            if let Some(width) = width {
                if width > 0 && !self.decorations.contains_key(&surface) {
                    self.decorations.insert(surface, WindowDecoration { width, focused: true });
                }
            }
        } else {
            if mode == WireMode::ClientSide {
                self.pending_ssd.remove(&surface);
                self.decorations.remove(&surface);
                self.render.shadow_cache.remove(&surface);
            }
        }
        reply
    }
}

/// A rule decides alone: with an explicit rule neither the default mode nor the
/// client's wish matters.
pub proof fn lemma_rule_decides(
    rule: DecorationMode,
    default_a: DecorationMode,
    default_b: DecorationMode,
    requested_a: WireMode,
    requested_b: WireMode,
)
    ensures
        gets_title_bar(Some(rule), default_a, requested_a) == gets_title_bar(
            Some(rule),
            default_b,
            requested_b,
        ),
        gets_title_bar(Some(rule), default_a, requested_a) <==> rule is Server,
{
}

/// Switching to server-side decorations and back leaves nothing of the chrome
/// behind, and the chrome of every other surface as it was, under the default
/// mode `Client` and without a rule.
pub proof fn lemma_switching_back_drops_chrome(
    before: DriftWm,
    between: DriftWm,
    after: DriftWm,
    surface: u64,
)
    requires
        before.config.decorations.default_mode is Client,
        between.mode_requested(before, surface, WireMode::ServerSide, None),
        after.mode_requested(between, surface, WireMode::ClientSide, None),
    ensures
        after.pending_ssd@ == before.pending_ssd@.remove(surface),
        after.decorations@ == before.decorations@.remove(surface),
        after.render.shadow_cache@ == before.render.shadow_cache@.remove(surface),
{
    assert(after.pending_ssd@ =~= before.pending_ssd@.remove(surface));
    assert(after.decorations@ =~= before.decorations@.remove(surface));
}

/// Without a rule the default mode decides: under `Server` every client gets a title
/// bar, under `Client` exactly those that ask for server-side decorations, and under
/// the two modes without a bar none. Only a client that draws its own decorations is
/// told so.
pub proof fn lemma_default_mode_decides(default_mode: DecorationMode, requested: WireMode)
    ensures
        gets_title_bar(None, DecorationMode::Server, requested),
        gets_title_bar(None, DecorationMode::Client, requested) <==> requested
            == WireMode::ServerSide,
        !gets_title_bar(None, DecorationMode::Borderless, requested),
        !gets_title_bar(None, DecorationMode::Bare, requested),
        wire_mode(default_mode) == WireMode::ClientSide <==> default_mode == DecorationMode::Client,
{
}

/// A client's request touches the chrome of its own surface alone. A client that
/// gets a title bar is noted for one, and has one at once if its window, the lowest
/// with the surface, has a width; a bar that it had stays as it was. A client that
/// turns to its own decorations without a claim to a bar loses bar, note and shadow.
/// Any other request changes nothing.
pub proof fn lemma_request_touches_its_own_chrome(
    before: DriftWm,
    after: DriftWm,
    surface: u64,
    mode: WireMode,
    rule: Option<DecorationMode>,
    other: u64,
    i: int,
)
    requires
        after.mode_requested(before, surface, mode, rule),
        other != surface,
    ensures
        after.pending_ssd@.contains(other) == before.pending_ssd@.contains(other),
        after.decorations@.contains_key(other) == before.decorations@.contains_key(other),
        before.decorations@.contains_key(other) ==> after.decorations@[other]
            == before.decorations@[other],
        after.render.shadow_cache@.contains(other) == before.render.shadow_cache@.contains(other),
        ({
            let default_mode = before.config.decorations.default_mode;
            let bar = match rule {
                Some(mode) => mode == DecorationMode::Server,
                None => default_mode == DecorationMode::Server || (default_mode
                    == DecorationMode::Client && mode == WireMode::ServerSide),
            };
            &&& bar ==> {
                &&& after.pending_ssd@.contains(surface)
                &&& before.decorations@.contains_key(surface)
                    ==> after.decorations@.contains_key(surface) && after.decorations@[surface]
                    == before.decorations@[surface]
                &&& after.render.shadow_cache@ == before.render.shadow_cache@
                &&& 0 <= i < before.windows.len() && before.windows@[i].surface == Some(surface)
                    && (forall|j: int|
                    0 <= j < i ==> (#[trigger] before.windows@[j]).surface != Some(surface))
                    && !before.decorations@.contains_key(surface) ==> {
                    let width = before.windows@[i].geometry.size.w;
                    &&& after.decorations@.contains_key(surface) <==> width > 0
                    &&& width > 0 ==> after.decorations@[surface].width == width
                        && after.decorations@[surface].focused
                }
            }
            &&& !bar && mode == WireMode::ClientSide ==> {
                &&& !after.pending_ssd@.contains(surface)
                &&& !after.decorations@.contains_key(surface)
                &&& !after.render.shadow_cache@.contains(surface)
            }
            &&& !bar && mode == WireMode::ServerSide ==> {
                &&& after.pending_ssd@ == before.pending_ssd@
                &&& after.decorations@ == before.decorations@
                &&& after.render.shadow_cache@ == before.render.shadow_cache@
            }
        }),
        after.windows == before.windows,
        after.config == before.config,
{
    crate::state::windows::lemma_windows_are_found(before.windows@, surface, 0, i);
}

/// A client that says nothing is told the default mode as the protocol puts it, at
/// once if its initial configure was sent and with that one if not.
pub proof fn lemma_silent_clients_get_the_default(wm: DriftWm, initial_configure_sent: bool)
    ensures
        ({
            let reply = wm.default_reply(initial_configure_sent);
            &&& reply.send_configure == initial_configure_sent
            &&& reply.mode == WireMode::ClientSide <==> wm.config.decorations.default_mode
                == DecorationMode::Client
        }),
{
}

} // verus!
