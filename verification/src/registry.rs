//! The registry: the process-wide store of connected players. It keeps the
//! roster ordered by insertion, with no two players sharing an identifier and
//! no two players sharing a color; the color pool has exactly four slots, so
//! the lobby holds at most four players. All access in the running server is
//! serialized by the caller (one exclusive handle to the registry); each
//! operation below is a single atomic step of that discipline.

use vstd::prelude::*;

use crate::errors::RegistryError;
use crate::player::{Color, Player, PlayerView, copy_player, roster_view};

verus! {

/// Some player in `roster` holds color `c`.
pub open spec fn color_taken(roster: Seq<PlayerView>, c: Color) -> bool {
    exists|i: int| 0 <= i < roster.len() && (#[trigger] roster[i]).color == c
}

/// The first color, in the fixed enumeration order Red, Blue, Green, Yellow,
/// that no player in `roster` holds; `None` when all four are taken.
pub open spec fn first_free_color(roster: Seq<PlayerView>) -> Option<Color> {
    if !color_taken(roster, Color::Red) {
        Some(Color::Red)
    } else if !color_taken(roster, Color::Blue) {
        Some(Color::Blue)
    } else if !color_taken(roster, Color::Green) {
        Some(Color::Green)
    } else if !color_taken(roster, Color::Yellow) {
        Some(Color::Yellow)
    } else {
        None
    }
}

/// Some player in `roster` has identifier `id`.
pub open spec fn contains_id(roster: Seq<PlayerView>, id: u128) -> bool {
    exists|i: int| 0 <= i < roster.len() && (#[trigger] roster[i]).id == id
}

/// The index of the player with identifier `id`; meaningful only when
/// `contains_id(roster, id)` holds and identifiers are unique.
pub open spec fn player_index_of(roster: Seq<PlayerView>, id: u128) -> int {
    choose|i: int| 0 <= i < roster.len() && (#[trigger] roster[i]).id == id
}

/// `roster` with the player with identifier `id` removed, order of the
/// others preserved; `roster` itself when no player has that identifier.
pub open spec fn roster_without(roster: Seq<PlayerView>, id: u128) -> Seq<PlayerView> {
    if contains_id(roster, id) {
        roster.remove(player_index_of(roster, id))
    } else {
        roster
    }
}

/// `roster` with the readiness of the player with identifier `id` flipped;
/// every other player, and the order, unchanged.
pub open spec fn toggled(roster: Seq<PlayerView>, id: u128) -> Seq<PlayerView> {
    roster.map_values(
        |p: PlayerView|
            if p.id == id {
                PlayerView { id: p.id, name: p.name, color: p.color, ready: !p.ready }
            } else {
                p
            },
    )
}

/// The registry's invariant: identifiers are unique, and at most one player
/// holds each color.
pub open spec fn roster_wf(roster: Seq<PlayerView>) -> bool {
    forall|i: int, j: int|
        #![trigger roster[i], roster[j]]
        0 <= i < j < roster.len() ==> roster[i].id != roster[j].id && roster[i].color
            != roster[j].color
}

/// The store of connected players, unique by identifier and by color,
/// in insertion order.
pub struct Registry {
    players: Vec<Player>,
}

impl View for Registry {
    type V = Seq<PlayerView>;

    closed spec fn view(&self) -> Seq<PlayerView> {
        roster_view(self.players@)
    }
}

impl Registry {
    /// The registry's invariant; constructors establish it and every
    /// operation preserves it.
    pub open spec fn wf(&self) -> bool {
        roster_wf(self@)
    }

    /// An empty lobby.
    pub fn new() -> (r: Registry)
        ensures
            r@ == Seq::<PlayerView>::empty(),
            r.wf(),
    {
        let r = Registry { players: Vec::new() };
        proof {
            assert(r@ =~= Seq::<PlayerView>::empty());
        }
        r
    }

    /// The number of connected players.
    pub fn len(&self) -> (n: usize)
        ensures
            n == self@.len(),
    {
        self.players.len()
    }

    /// Whether some player currently holds color `c`.
    pub fn color_is_taken(&self, c: Color) -> (b: bool)
        ensures
            b == color_taken(self@, c),
    {
        let n = self.players.len();
        let mut i: usize = 0;
        while i < n
            invariant
                n == self.players.len(),
                i <= n,
                forall|k: int| 0 <= k < i ==> (#[trigger] self@[k]).color != c,
            decreases n - i,
        {
            if self.players[i].color == c {
                proof {
                    assert(self@[i as int].color == c);
                }
                return true;
            }
            i += 1;
        }
        false
    }

    /// Whether some player has identifier `id`.
    pub fn contains(&self, id: u128) -> (b: bool)
        ensures
            b == contains_id(self@, id),
    {
        let n = self.players.len();
        let mut i: usize = 0;
        while i < n
            invariant
                n == self.players.len(),
                i <= n,
                forall|k: int| 0 <= k < i ==> (#[trigger] self@[k]).id != id,
            decreases n - i,
        {
            if self.players[i].id == id {
                proof {
                    assert(self@[i as int].id == id);
                }
                return true;
            }
            i += 1;
        }
        false
    }

    /// Scans the fixed four-color set and returns the first color not
    /// currently held by any player; fails with `ColorsExhausted` when all
    /// four are taken.
    pub fn assign_color(&self) -> (r: Result<Color, RegistryError>)
        ensures
            match r {
                Ok(c) => first_free_color(self@) == Some(c),
                Err(e) => e == RegistryError::ColorsExhausted && first_free_color(self@) is None,
            },
    {
        if !self.color_is_taken(Color::Red) {
            Ok(Color::Red)
        } else if !self.color_is_taken(Color::Blue) {
            Ok(Color::Blue)
        } else if !self.color_is_taken(Color::Green) {
            Ok(Color::Green)
        } else if !self.color_is_taken(Color::Yellow) {
            Ok(Color::Yellow)
        } else {
            Err(RegistryError::ColorsExhausted)
        }
    }

    /// Atomically assigns the first free color and inserts a new player with
    /// `ready == false` at the end of the roster. One atomic step with the
    /// color scan, so two joiners can never be handed the same color.
    pub fn add_player(&mut self, id: u128, name: String) -> (r: Result<Player, RegistryError>)
        requires
            old(self).wf(),
            !contains_id(old(self)@, id),
        ensures
            final(self).wf(),
            match r {
                Ok(p) => {
                    &&& Some(p.color) == first_free_color(old(self)@)
                    &&& p@ == (PlayerView { id, name: name@, color: p.color, ready: false })
                    &&& final(self)@ == old(self)@.push(p@)
                },
                Err(e) => {
                    &&& e == RegistryError::ColorsExhausted
                    &&& first_free_color(old(self)@) is None
                    &&& final(self)@ == old(self)@
                },
            },
    {
        match self.assign_color() {
            Err(e) => Err(e),
            Ok(color) => {
                let p = Player { id, name, color, ready: false };
                let returned = copy_player(&p);
                let ghost prior = self@;
                self.players.push(p);
                proof {
                    assert(self@ =~= prior.push(returned@));
                    lemma_assigned_color_free(prior, color);
                    lemma_join_preserves_wf(prior, returned@);
                }
                Ok(returned)
            },
        }
    }

    /// Flips the `ready` flag of the player with identifier `id`; no player
    /// matching means no observable effect on the roster.
    #[verifier::loop_isolation(false)]
    pub fn toggle_ready(&mut self, id: u128)
        requires
            old(self).wf(),
        ensures
            final(self).wf(),
            final(self)@ == toggled(old(self)@, id),
    {
        let ghost prior = self@;
        let n = self.players.len();
        let mut i: usize = 0;
        while i < n
            invariant
                n == self.players.len(),
                i <= n,
                self@ == prior,
                roster_wf(prior),
                forall|k: int| 0 <= k < i ==> (#[trigger] prior[k]).id != id,
            decreases n - i,
        {
            if self.players[i].id == id {
                let p = &self.players[i];
                let updated = Player { id: p.id, name: p.name.clone(), color: p.color, ready: !p.ready };
                self.players.set(i, updated);
                proof {
                    assert(self@[i as int] == toggled(prior, id)[i as int]);
                    assert forall|k: int| 0 <= k < prior.len() && k != i implies self@[k]
                        == toggled(prior, id)[k] by {
                        assert(prior[k].id != prior[i as int].id);
                    }
                    assert(self@ =~= toggled(prior, id));
                    lemma_toggled_wf(prior, id);
                }
                return ;
            }
            i += 1;
        }
        proof {
            assert(!contains_id(prior, id));
            lemma_toggle_absent(prior, id);
        }
    }

    /// Deletes the player with identifier `id`, keeping the order of the
    /// others; an absent identifier is a no-op.
    #[verifier::loop_isolation(false)]
    pub fn remove_player(&mut self, id: u128)
        requires
            old(self).wf(),
        ensures
            final(self).wf(),
            final(self)@ == roster_without(old(self)@, id),
            !contains_id(final(self)@, id),
    {
        let ghost prior = self@;
        let n = self.players.len();
        let mut i: usize = 0;
        while i < n
            invariant
                n == self.players.len(),
                i <= n,
                self@ == prior,
                roster_wf(prior),
                forall|k: int| 0 <= k < i ==> (#[trigger] prior[k]).id != id,
            decreases n - i,
        {
            if self.players[i].id == id {
                self.players.remove(i);
                proof {
                    assert(contains_id(prior, id));
                    let j = player_index_of(prior, id);
                    assert(0 <= j < prior.len() && prior[j].id == id);
                    assert(j == i) by {
                        if j != i {
                            assert(prior[j].id != prior[i as int].id);
                        }
                    }
                    assert(self@ =~= prior.remove(i as int));
                    lemma_remove_keeps_wf(prior, i as int);
                    assert forall|k: int| 0 <= k < self@.len() implies (#[trigger] self@[k]).id
                        != id by {
                        if k < i {
                            assert(self@[k] == prior[k]);
                            assert(prior[k].id != prior[i as int].id);
                        } else {
                            assert(self@[k] == prior[k + 1]);
                            assert(prior[i as int].id != prior[k + 1].id);
                        }
                    }
                }
                return ;
            }
            i += 1;
        }
        proof {
            assert(!contains_id(prior, id));
        }
    }

    /// A consistent, point-in-time copy of the full roster, in insertion
    /// order, for the caller to serialize.
    #[verifier::loop_isolation(false)]
    pub fn snapshot(&self) -> (r: Vec<Player>)
        ensures
            roster_view(r@) == self@,
    {
        let mut out: Vec<Player> = Vec::new();
        let n = self.players.len();
        let mut i: usize = 0;
        while i < n
            invariant
                n == self.players.len(),
                i <= n,
                roster_view(out@) =~= self@.subrange(0, i as int),
            decreases n - i,
        {
            out.push(copy_player(&self.players[i]));
            proof {
                assert(roster_view(out@) =~= self@.subrange(0, i + 1 as int));
            }
            i += 1;
        }
        proof {
            assert(self@.subrange(0, n as int) =~= self@);
        }
        out
    }
}

/// Admitting a player whose identifier and color are not yet on the roster
/// keeps identifiers and colors pairwise distinct. Every join is one atomic
/// registry step that meets this lemma's premises, so no interleaving of
/// joins can produce two players sharing a color or an identifier.
pub proof fn lemma_join_preserves_wf(roster: Seq<PlayerView>, p: PlayerView)
    requires
        roster_wf(roster),
        !contains_id(roster, p.id),
        !color_taken(roster, p.color),
    ensures
        roster_wf(roster.push(p)),
{
    let r = roster.push(p);
    assert forall|i: int, j: int|
        #![trigger r[i], r[j]]
        0 <= i < j < r.len() implies r[i].id != r[j].id && r[i].color != r[j].color by {
        if j == r.len() - 1 {
            assert(r[i] == roster[i]);
            assert(!(roster[i].id == p.id)) by {
                if roster[i].id == p.id {
                    assert(contains_id(roster, p.id));
                }
            }
            assert(!(roster[i].color == p.color)) by {
                if roster[i].color == p.color {
                    assert(color_taken(roster, p.color));
                }
            }
        }
    }
}

/// A color the scan hands out is free: it is held by no player present when
/// the scan ran. Together with preservation of the registry invariant this is
/// why every joiner's color differs from every color already on the roster.
pub proof fn lemma_assigned_color_free(roster: Seq<PlayerView>, c: Color)
    requires
        first_free_color(roster) == Some(c),
    ensures
        !color_taken(roster, c),
{
}

/// Toggling readiness never changes identifiers or colors, so it preserves
/// the registry invariant.
proof fn lemma_toggled_wf(roster: Seq<PlayerView>, id: u128)
    requires
        roster_wf(roster),
    ensures
        roster_wf(toggled(roster, id)),
{
    let t = toggled(roster, id);
    assert forall|i: int, j: int|
        #![trigger t[i], t[j]]
        0 <= i < j < t.len() implies t[i].id != t[j].id && t[i].color != t[j].color by {
        assert(roster[i].id != roster[j].id && roster[i].color != roster[j].color);
    }
}

/// Removing one player keeps the remaining identifiers and colors pairwise
/// distinct.
proof fn lemma_remove_keeps_wf(roster: Seq<PlayerView>, at: int)
    requires
        roster_wf(roster),
        0 <= at < roster.len(),
    ensures
        roster_wf(roster.remove(at)),
{
    let r = roster.remove(at);
    assert forall|i: int, j: int|
        #![trigger r[i], r[j]]
        0 <= i < j < r.len() implies r[i].id != r[j].id && r[i].color != r[j].color by {
        let i0 = if i < at { i } else { i + 1 };
        let j0 = if j < at { j } else { j + 1 };
        assert(r[i] == roster[i0] && r[j] == roster[j0]);
        assert(roster[i0].id != roster[j0].id && roster[i0].color != roster[j0].color);
    }
}

/// A well-formed roster never holds more than four players, and it holds
/// exactly four just when no color is left to assign: the fifth join attempt
/// is the one the registry refuses.
pub proof fn lemma_lobby_capacity(roster: Seq<PlayerView>)
    requires
        roster_wf(roster),
    ensures
        roster.len() <= 4,
        (roster.len() == 4) <==> (first_free_color(roster) is None),
{
    if roster.len() >= 5 {
        assert(roster[0].color != roster[1].color);
        assert(roster[0].color != roster[2].color);
        assert(roster[0].color != roster[3].color);
        assert(roster[0].color != roster[4].color);
        assert(roster[1].color != roster[2].color);
        assert(roster[1].color != roster[3].color);
        assert(roster[1].color != roster[4].color);
        assert(roster[2].color != roster[3].color);
        assert(roster[2].color != roster[4].color);
        assert(roster[3].color != roster[4].color);
        assert(false);
    }
    if roster.len() == 4 {
        assert(roster[0].color != roster[1].color);
        assert(roster[0].color != roster[2].color);
        assert(roster[0].color != roster[3].color);
        assert(roster[1].color != roster[2].color);
        assert(roster[1].color != roster[3].color);
        assert(roster[2].color != roster[3].color);
        assert(color_taken(roster, Color::Red) && color_taken(roster, Color::Blue)
            && color_taken(roster, Color::Green) && color_taken(roster, Color::Yellow));
    }
    if first_free_color(roster) is None {
        let r = choose|i: int| 0 <= i < roster.len() && (#[trigger] roster[i]).color == Color::Red;
        let b = choose|i: int| 0 <= i < roster.len() && (#[trigger] roster[i]).color == Color::Blue;
        let g = choose|i: int|
            0 <= i < roster.len() && (#[trigger] roster[i]).color == Color::Green;
        let y = choose|i: int|
            0 <= i < roster.len() && (#[trigger] roster[i]).color == Color::Yellow;
        assert(roster[r].color == Color::Red && roster[b].color == Color::Blue && roster[g].color
            == Color::Green && roster[y].color == Color::Yellow);
        assert(r != b && r != g && r != y && b != g && b != y && g != y);
        assert(roster.len() >= 4);
    }
}

/// In a well-formed roster, any two distinct players differ both in
/// identifier and in color: no interleaving of joins, each an atomic registry
/// step, can produce two players sharing either.
pub proof fn lemma_roster_distinct(roster: Seq<PlayerView>)
    requires
        roster_wf(roster),
    ensures
        forall|i: int, j: int|
            #![trigger roster[i], roster[j]]
            0 <= i < roster.len() && 0 <= j < roster.len() && i != j ==> roster[i].id
                != roster[j].id && roster[i].color != roster[j].color,
{
}

/// After a player leaves, that player's identifier is gone from the roster
/// and the departed color is free again, so a subsequent join is owed a
/// color.
pub proof fn lemma_departed_color_free(roster: Seq<PlayerView>, id: u128)
    requires
        roster_wf(roster),
        contains_id(roster, id),
    ensures
        !contains_id(roster_without(roster, id), id),
        !color_taken(roster_without(roster, id), roster[player_index_of(roster, id)].color),
        first_free_color(roster_without(roster, id)) is Some,
{
    let j = player_index_of(roster, id);
    let rest = roster.remove(j);
    let c = roster[j].color;
    assert forall|k: int| 0 <= k < rest.len() implies (#[trigger] rest[k]).id != id && rest[k].color
        != c by {
        let k0 = if k < j { k } else { k + 1 };
        assert(rest[k] == roster[k0]);
        if k < j {
            assert(roster[k0].id != roster[j].id && roster[k0].color != roster[j].color);
        } else {
            assert(roster[j].id != roster[k0].id && roster[j].color != roster[k0].color);
        }
    }
    assert(!color_taken(rest, c));
    match c {
        Color::Red => assert(!color_taken(rest, Color::Red)),
        Color::Blue => assert(!color_taken(rest, Color::Blue)),
        Color::Green => assert(!color_taken(rest, Color::Green)),
        Color::Yellow => assert(!color_taken(rest, Color::Yellow)),
    }
}

/// Toggling readiness twice returns every player to the original state.
pub proof fn lemma_toggle_twice(roster: Seq<PlayerView>, id: u128)
    ensures
        toggled(toggled(roster, id), id) == roster,
{
    assert(toggled(toggled(roster, id), id) =~= roster);
}

/// Toggling readiness for an identifier no player holds leaves the roster
/// unchanged.
pub proof fn lemma_toggle_absent(roster: Seq<PlayerView>, id: u128)
    requires
        !contains_id(roster, id),
    ensures
        toggled(roster, id) == roster,
{
    assert forall|k: int| 0 <= k < roster.len() implies (#[trigger] roster[k]).id != id by {
        if roster[k].id == id {
            assert(contains_id(roster, id));
        }
    }
    assert(toggled(roster, id) =~= roster);
}

} // verus!
