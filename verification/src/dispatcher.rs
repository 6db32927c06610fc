//! The dispatcher: turns one typed client event into the corresponding
//! registry mutation, and produces the roster snapshot to broadcast (zero or
//! one payload), or the error that terminates the offending session.

use vstd::prelude::*;

use crate::errors::{RegistryError, SessionError};
use crate::events::{ClientEvent, ClientEventView};
use crate::player::{Player, PlayerView, roster_view};
use crate::registry::{
    color_taken, contains_id, first_free_color, lemma_assigned_color_free, lemma_join_preserves_wf,
    lemma_lobby_capacity, roster_wf, toggled, Registry,
};

verus! {

/// What one client event does to the roster: the new roster on success, or
/// the error that rejects it. A join under an identifier that is already
/// registered is a protocol violation (identifiers are assigned server-side,
/// one per session); a join with no color left is `LobbyFull`; a readiness
/// toggle always succeeds, and for an unregistered identifier it leaves the
/// roster unchanged.
pub open spec fn dispatch_result(roster: Seq<PlayerView>, id: u128, ev: ClientEventView) -> Result<
    Seq<PlayerView>,
    SessionError,
> {
    match ev {
        ClientEventView::NewPlayer { name } => {
            if contains_id(roster, id) {
                Err(SessionError::ProtocolViolation)
            } else {
                match first_free_color(roster) {
                    Some(c) => Ok(roster.push(PlayerView { id, name, color: c, ready: false })),
                    None => Err(SessionError::LobbyFull),
                }
            }
        },
        ClientEventView::ToggleReady => Ok(toggled(roster, id)),
    }
}

/// The join law. On any well-formed roster with fewer than four players, a
/// join under a fresh identifier succeeds and the joiner's color is one of
/// the four that no present player holds, so any sequence of up to four
/// joins hands out pairwise distinct colors; on a full roster of four, the
/// join fails with `LobbyFull` and the roster it would have changed stays as
/// it is (`dispatch_result` returns no new roster).
pub proof fn lemma_join_law(roster: Seq<PlayerView>, id: u128, name: Seq<char>)
    requires
        roster_wf(roster),
        !contains_id(roster, id),
    ensures
        ({
            let r = dispatch_result(roster, id, (ClientEventView::NewPlayer { name }));
            if roster.len() < 4 {
                &&& r is Ok
                &&& r->Ok_0.len() == roster.len() + 1
                &&& r->Ok_0[roster.len() as int].id == id
                &&& r->Ok_0[roster.len() as int].ready == false
                &&& !color_taken(roster, r->Ok_0[roster.len() as int].color)
                &&& roster_wf(r->Ok_0)
            } else {
                r == Err::<Seq<PlayerView>, SessionError>(SessionError::LobbyFull)
            }
        }),
{
    lemma_lobby_capacity(roster);
    if roster.len() < 4 {
        let c = first_free_color(roster)->Some_0;
        lemma_assigned_color_free(roster, c);
        lemma_join_preserves_wf(
            roster,
            (PlayerView { id, name, color: c, ready: false }),
        );
    }
}

/// Applies one client event from session `id` to the registry. On success
/// the registry holds `dispatch_result`'s roster and the returned snapshot
/// is exactly that roster; on failure the registry is untouched and the
/// session is owed the returned error.
pub fn handle_event(registry: &mut Registry, id: u128, event: &ClientEvent) -> (r: Result<
    Option<Vec<Player>>,
    SessionError,
>)
    requires
        old(registry).wf(),
    ensures
        final(registry).wf(),
        match dispatch_result(old(registry)@, id, event@) {
            Ok(ros) => {
                &&& final(registry)@ == ros
                &&& r matches Ok(snap) && snap matches Some(v) && roster_view(v@) == ros
            },
            Err(e) => {
                &&& final(registry)@ == old(registry)@
                &&& r == Err::<Option<Vec<Player>>, SessionError>(e)
            },
        },
{
    match event {
        ClientEvent::NewPlayer { name } => {
            if registry.contains(id) {
                Err(SessionError::ProtocolViolation)
            } else {
                match registry.add_player(id, name.clone()) {
                    Ok(_added) => Ok(Some(registry.snapshot())),
                    Err(RegistryError::ColorsExhausted) => Err(SessionError::LobbyFull),
                }
            }
        },
        ClientEvent::ToggleReady => {
            registry.toggle_ready(id);
            Ok(Some(registry.snapshot()))
        },
    }
}

} // verus!
