//! Players and their lobby-visible state: name, color, readiness.

use vstd::prelude::*;

verus! {

/// One of the four lobby colors. The pool has exactly four slots, so the
/// lobby can hold at most four players at a time.
#[derive(Clone, Copy, Debug, PartialEq, Eq, Structural)]
pub enum Color {
    Red,
    Blue,
    Green,
    Yellow,
}

/// A connected, registered player. The identifier is assigned server-side
/// when the connection is accepted and never changes afterwards.
#[derive(Debug)]
pub struct Player {
    pub id: u128,
    pub name: String,
    pub color: Color,
    pub ready: bool,
}

/// The mathematical value of a `Player`: the same fields, with the name as a
/// sequence of characters.
#[verifier::ext_equal]
pub struct PlayerView {
    pub id: u128,
    pub name: Seq<char>,
    pub color: Color,
    pub ready: bool,
}

impl View for Player {
    type V = PlayerView;

    open spec fn view(&self) -> PlayerView {
        PlayerView { id: self.id, name: self.name@, color: self.color, ready: self.ready }
    }
}

/// The roster a vector of players stands for: its players' views, in order.
pub open spec fn roster_view(players: Seq<Player>) -> Seq<PlayerView> {
    players.map_values(|p: Player| p@)
}

/// Copies a player, fields and all.
pub fn copy_player(p: &Player) -> (r: Player)
    ensures
        r@ == p@,
{
    Player { id: p.id, name: p.name.clone(), color: p.color, ready: p.ready }
}

} // verus!
