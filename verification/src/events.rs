//! The message catalogue: the only payload shapes that cross the boundary
//! between clients and the server. Decoding inbound bytes into a
//! `ClientEvent` and encoding a `ServerEvent` into outbound bytes is the
//! codec's concern, outside this library; decoding an unrecognized tag is a
//! protocol error, not a silent no-op.

use vstd::prelude::*;

use crate::player::{Player, PlayerView, copy_player, roster_view};

verus! {

/// An event a client sends to the server.
#[derive(Debug)]
pub enum ClientEvent {
    /// Register the sender as a player under the given name.
    NewPlayer { name: String },
    /// Flip the sender's readiness flag.
    ToggleReady,
}

/// The mathematical value of a `ClientEvent`.
#[verifier::ext_equal]
pub enum ClientEventView {
    NewPlayer { name: Seq<char> },
    ToggleReady,
}

impl View for ClientEvent {
    type V = ClientEventView;

    open spec fn view(&self) -> ClientEventView {
        match self {
            ClientEvent::NewPlayer { name } => ClientEventView::NewPlayer { name: name@ },
            ClientEvent::ToggleReady => ClientEventView::ToggleReady,
        }
    }
}

/// An event the server sends to a client.
#[derive(Debug)]
pub enum ServerEvent {
    /// Tells a freshly connected client its server-assigned identifier.
    YourId { id: u128 },
    /// A point-in-time copy of the full roster.
    PlayersInLobby { players: Vec<Player> },
}

/// The mathematical value of a `ServerEvent`.
#[verifier::ext_equal]
pub enum ServerEventView {
    YourId { id: u128 },
    PlayersInLobby { players: Seq<PlayerView> },
}

impl View for ServerEvent {
    type V = ServerEventView;

    open spec fn view(&self) -> ServerEventView {
        match self {
            ServerEvent::YourId { id } => ServerEventView::YourId { id: *id },
            ServerEvent::PlayersInLobby { players } => ServerEventView::PlayersInLobby {
                players: roster_view(players@),
            },
        }
    }
}

/// Copies a roster snapshot, players and all.
#[verifier::loop_isolation(false)]
pub fn copy_roster(players: &Vec<Player>) -> (r: Vec<Player>)
    ensures
        roster_view(r@) == roster_view(players@),
{
    let mut out: Vec<Player> = Vec::new();
    let n = players.len();
    let mut i: usize = 0;
    while i < n
        invariant
            n == players.len(),
            i <= n,
            roster_view(out@) =~= roster_view(players@).subrange(0, i as int),
        decreases n - i,
    {
        out.push(copy_player(&players[i]));
        proof {
            assert(roster_view(out@) =~= roster_view(players@).subrange(0, i + 1 as int));
        }
        i += 1;
    }
    proof {
        assert(roster_view(players@).subrange(0, n as int) =~= roster_view(players@));
    }
    out
}

/// Copies a server event, payload and all.
pub fn copy_server_event(e: &ServerEvent) -> (r: ServerEvent)
    ensures
        r@ == e@,
{
    match e {
        ServerEvent::YourId { id } => ServerEvent::YourId { id: *id },
        ServerEvent::PlayersInLobby { players } => ServerEvent::PlayersInLobby {
            players: copy_roster(players),
        },
    }
}

} // verus!
