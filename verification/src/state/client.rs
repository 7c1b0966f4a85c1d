//! What is known of each connected client.

use vstd::prelude::*;

verus! {

/// Per-client state.
#[derive(Clone, Copy, Debug, PartialEq, Eq, Default, Structural)]
pub struct ClientState {
    /// Clients connected via a security-context listener are denied access to
    /// privileged protocols (screencopy, foreign-toplevel, virtual keyboard,
    /// etc.).
    pub is_restricted: bool,
}

/// Restricted clients (those connecting through a security-context listener) are
/// denied access to privileged protocols. Clients without a state are treated as
/// unrestricted.
pub fn client_is_unrestricted(client: Option<ClientState>) -> (b: bool)
    ensures
        b == !(client matches Some(state) && state.is_restricted),
{
    match client {
        Some(state) => !state.is_restricted,
        None => true,
    }
}

/// The state of a client that connects through a security-context listener.
pub fn restricted_client() -> (state: ClientState)
    ensures
        state.is_restricted,
{
    ClientState { is_restricted: true }
}

} // verus!
