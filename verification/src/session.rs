//! The connection session state machine: one client's lifecycle from accept
//! to close. A session is `Connecting` while its identity and directory entry
//! are set up and the baseline messages (the current roster and the client's
//! own identifier) are being delivered, `Active` while its two duties run,
//! `Closing` once either duty observes termination, and `Closed` after the
//! one-time cleanup. The inbound and outbound duties themselves perform
//! transport I/O and run outside this library; every decision they take goes
//! through the functions here.

use vstd::prelude::*;

use crate::directory::{dir_contains_id, drop_entry, fan_out, Directory, EntryView};
use crate::dispatcher::{dispatch_result, handle_event};
use crate::errors::SessionError;
use crate::events::{ClientEvent, ServerEvent, ServerEventView};
use crate::registry::{contains_id, roster_without, Registry};

verus! {

/// Relies on `uuid::Uuid::new_v4`: a freshly generated random
/// (version 4) UUID, taken as its 128-bit value. The value depends on the
/// generator's randomness, so nothing is promised of it; in particular two
/// draws may in principle collide, and callers check for collisions.
#[verifier::external_body]
fn fresh_session_id() -> u128 {
    uuid::Uuid::new_v4().as_u128()
}

/// Where a session stands in its lifecycle.
#[derive(Clone, Copy, Debug, PartialEq, Eq, Structural)]
pub enum SessionPhase {
    /// Identity assigned and directory entry made; baseline messages are
    /// being sent to the new connection only.
    Connecting,
    /// Both duties run: inbound messages are dispatched, outbound payloads
    /// delivered.
    Active,
    /// Either duty observed termination; cleanup is owed exactly once.
    Closing,
    /// Cleanup done, all resources released.
    Closed,
}

/// What the inbound duty observed: one decoded message, a close signal from
/// the peer, bytes the codec could not decode, or a broken transport.
pub enum Inbound {
    Received(ClientEvent),
    CloseRequest,
    Malformed,
}

/// One client connection's lifecycle.
pub struct Session {
    pub id: u128,
    pub phase: SessionPhase,
}

impl Session {
    /// Starts a session under the given identifier: enters it into the
    /// directory and hands back the two baseline messages — the current
    /// roster, then the client's identifier — to be sent to this connection
    /// alone before the session activates. This is the whole decision for a
    /// drawn identifier, so it succeeds if and only if no live session
    /// already holds `id`; on a collision the directory is untouched.
    pub fn open_with_id(
        registry: &Registry,
        directory: &mut Directory,
        addr: String,
        id: u128,
    ) -> (r: Option<(Session, Vec<ServerEvent>)>)
        requires
            old(directory).wf(),
        ensures
            final(directory).wf(),
            (r is Some) <==> !dir_contains_id(old(directory)@, id),
            match r {
                Some(sm) => {
                    &&& sm.0.id == id
                    &&& sm.0.phase == SessionPhase::Connecting
                    &&& final(directory)@ == old(directory)@.push(
                        (EntryView { id, addr: addr@, queue: Seq::<ServerEventView>::empty() }),
                    )
                    &&& sm.1@.len() == 2
                    &&& (sm.1@[0])@ == (ServerEventView::PlayersInLobby { players: registry@ })
                    &&& (sm.1@[1])@ == (ServerEventView::YourId { id })
                },
                None => final(directory)@ == old(directory)@,
            },
    {
        if directory.contains(id) {
            return None;
        }
        directory.register(id, addr);
        let mut msgs: Vec<ServerEvent> = Vec::new();
        msgs.push(ServerEvent::PlayersInLobby { players: registry.snapshot() });
        msgs.push(ServerEvent::YourId { id });
        Some((Session { id, phase: SessionPhase::Connecting }, msgs))
    }

    /// Starts a session under a freshly drawn random identity: the draw's
    /// outcome is handed to `open_with_id`, which decides. `None` only when
    /// the drawn identity collided with a live session — impossible in an
    /// empty directory, so a caller that retries is owed a session once a
    /// draw misses the finitely many live entries; the directory is then
    /// untouched and the caller simply tries again.
    pub fn open(registry: &Registry, directory: &mut Directory, addr: String) -> (r: Option<
        (Session, Vec<ServerEvent>),
    >)
        requires
            old(directory).wf(),
        ensures
            final(directory).wf(),
            match r {
                Some(sm) => {
                    &&& sm.0.phase == SessionPhase::Connecting
                    &&& !dir_contains_id(old(directory)@, sm.0.id)
                    &&& final(directory)@ == old(directory)@.push(
                        (EntryView {
                            id: sm.0.id,
                            addr: addr@,
                            queue: Seq::<ServerEventView>::empty(),
                        }),
                    )
                    &&& sm.1@.len() == 2
                    &&& (sm.1@[0])@ == (ServerEventView::PlayersInLobby { players: registry@ })
                    &&& (sm.1@[1])@ == (ServerEventView::YourId { id: sm.0.id })
                },
                None => final(directory)@ == old(directory)@ && old(directory)@.len() > 0,
            },
    {
        let id = fresh_session_id();
        let r = Session::open_with_id(registry, directory, addr, id);
        proof {
            if r is None {
                assert(dir_contains_id(old(directory)@, id));
                let i = choose|i: int|
                    0 <= i < old(directory)@.len() && (#[trigger] old(directory)@[i]).id == id;
                assert(old(directory)@.len() > 0);
            }
        }
        r
    }

    /// Enters the read loop: only once the baseline messages are on their
    /// way may broadcasts be processed, so the client never sees a roster
    /// against an unknown baseline.
    pub fn activate(&mut self)
        requires
            old(self).phase == SessionPhase::Connecting,
        ensures
            final(self).id == old(self).id,
            final(self).phase == SessionPhase::Active,
    {
        self.phase = SessionPhase::Active;
    }

    /// Handles one observation of the inbound duty. A decoded message is
    /// dispatched and, on success, the refreshed roster is fanned out to
    /// every connected session, the sender included; a dispatch error, a
    /// close signal or undecodable bytes turn the session `Closing`, leaving
    /// registry and directory for `finish` to clean up.
    pub fn on_inbound(
        &mut self,
        registry: &mut Registry,
        directory: &mut Directory,
        msg: Inbound,
    ) -> (r: Result<(), SessionError>)
        requires
            old(self).phase == SessionPhase::Active,
            old(registry).wf(),
            old(directory).wf(),
        ensures
            final(self).id == old(self).id,
            final(registry).wf(),
            final(directory).wf(),
            match msg {
                Inbound::Received(ev) => (match dispatch_result(
                    old(registry)@,
                    old(self).id,
                    ev@,
                ) {
                    Ok(ros) => {
                        &&& final(self).phase == SessionPhase::Active
                        &&& final(registry)@ == ros
                        &&& final(directory)@ == fan_out(
                            old(directory)@,
                            (ServerEventView::PlayersInLobby { players: ros }),
                        )
                        &&& r == Ok::<(), SessionError>(())
                    },
                    Err(e) => {
                        &&& final(self).phase == SessionPhase::Closing
                        &&& final(registry)@ == old(registry)@
                        &&& final(directory)@ == old(directory)@
                        &&& r == Err::<(), SessionError>(e)
                    },
                }),
                Inbound::CloseRequest => {
                    &&& final(self).phase == SessionPhase::Closing
                    &&& final(registry)@ == old(registry)@
                    &&& final(directory)@ == old(directory)@
                    &&& r == Ok::<(), SessionError>(())
                },
                Inbound::Malformed => {
                    &&& final(self).phase == SessionPhase::Closing
                    &&& final(registry)@ == old(registry)@
                    &&& final(directory)@ == old(directory)@
                    &&& r == Err::<(), SessionError>(SessionError::ProtocolViolation)
                },
            },
    {
        match msg {
            Inbound::Received(ev) => {
                match handle_event(registry, self.id, &ev) {
                    Ok(Some(roster)) => {
                        directory.broadcast(&(ServerEvent::PlayersInLobby { players: roster }));
                        Ok(())
                    },
                    Ok(None) => {
                        proof {
                            assert(false);
                        }
                        Ok(())
                    },
                    Err(e) => {
                        self.phase = SessionPhase::Closing;
                        Err(e)
                    },
                }
            },
            Inbound::CloseRequest => {
                self.phase = SessionPhase::Closing;
                Ok(())
            },
            Inbound::Malformed => {
                self.phase = SessionPhase::Closing;
                Err(SessionError::ProtocolViolation)
            },
        }
    }

    /// Records a broken transport (a failed write on the outbound duty, or a
    /// failed read while connecting or active): the session turns `Closing`;
    /// the failure stays scoped to this one session.
    pub fn on_transport_failure(&mut self)
        requires
            old(self).phase == SessionPhase::Connecting || old(self).phase
                == SessionPhase::Active,
        ensures
            final(self).id == old(self).id,
            final(self).phase == SessionPhase::Closing,
    {
        self.phase = SessionPhase::Closing;
    }

    /// The one-time cleanup a `Closing` session is owed: the player is
    /// removed from the registry, the refreshed roster is broadcast, and the
    /// session's directory entry is dropped — in that order, so the departed
    /// player's own queue also sees the farewell roster before the entry
    /// goes. A session whose player never registered (a join that raced with
    /// rejection, or none was attempted) removes nothing and broadcasts
    /// nothing. The phase moves to `Closed`, so this runs exactly once.
    pub fn finish(&mut self, registry: &mut Registry, directory: &mut Directory)
        requires
            old(self).phase == SessionPhase::Closing,
            old(registry).wf(),
            old(directory).wf(),
        ensures
            final(self).id == old(self).id,
            final(self).phase == SessionPhase::Closed,
            final(registry).wf(),
            final(directory).wf(),
            final(registry)@ == roster_without(old(registry)@, old(self).id),
            !contains_id(final(registry)@, old(self).id),
            !dir_contains_id(final(directory)@, old(self).id),
            final(directory)@ == (if contains_id(old(registry)@, old(self).id) {
                drop_entry(
                    fan_out(
                        old(directory)@,
                        (ServerEventView::PlayersInLobby {
                            players: roster_without(old(registry)@, old(self).id),
                        }),
                    ),
                    old(self).id,
                )
            } else {
                drop_entry(old(directory)@, old(self).id)
            }),
    {
        if registry.contains(self.id) {
            registry.remove_player(self.id);
            let snapshot = registry.snapshot();
            directory.broadcast(&(ServerEvent::PlayersInLobby { players: snapshot }));
        }
        directory.unregister(self.id);
        self.phase = SessionPhase::Closed;
    }
}

} // verus!
