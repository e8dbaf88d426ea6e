//! The game: two players, and whose turn it is.

use crate::player::{empty_column, Player};
use vstd::prelude::*;

verus! {

/// The index of the player who moves after the player `turn`.
pub open spec fn other_turn(turn: usize) -> usize {
    if turn == 0 {
        1
    } else {
        0
    }
}

/// Whose turn it is after `ends` turns have ended, where it was the turn of
/// `turn` before them.
pub open spec fn turn_after(turn: usize, ends: nat) -> usize
    decreases ends,
{
    if ends == 0 {
        turn
    } else {
        other_turn(turn_after(turn, (ends - 1) as nat))
    }
}

/// The turn alternates between the two players, however many turns end:
/// after an even number it is back where it was, after an odd number it is
/// the other player's.
pub proof fn lemma_turns_alternate(turn: usize, ends: nat)
    requires
        turn < 2,
    ensures
        turn_after(turn, ends) < 2,
        turn_after(turn, ends) == (turn + ends) % 2,
        turn_after(turn, ends + 1) != turn_after(turn, ends),
    decreases ends,
{
    if ends > 0 {
        lemma_turns_alternate(turn, (ends - 1) as nat);
    }
    assert(turn_after(turn, ends + 1) == other_turn(turn_after(turn, ends)));
}

/// The game is over as soon as one grid is full, whatever the other grid
/// holds.
pub proof fn lemma_complete_when_one_full(game: GameState, p: int)
    requires
        0 <= p < 2,
        game.player(p).full(),
    ensures
        game.complete(),
{
}

/// Two players in a fixed order, and the index of the one to move.
pub struct GameState {
    pub players: [Player; 2],
    player_idx: usize,
}

impl GameState {
    /// The index of the player whose turn it is.
    pub closed spec fn current_turn(&self) -> usize {
        self.player_idx
    }

    /// The player with index `p`, 0 or 1.
    pub closed spec fn player(&self, p: int) -> Player {
        self.players[p]
    }

    /// Whether the turn is that of one of the two players.
    pub open spec fn well_formed(&self) -> bool {
        self.current_turn() < 2
    }

    /// Whether the game is over: one of the two grids is full.
    pub open spec fn complete(&self) -> bool {
        self.player(0).full() || self.player(1).full()
    }

    /// A new game: two players with empty grids, and the first one to move.
    pub fn new() -> (game: Self)
        ensures
            game.well_formed(),
            game.current_turn() == 0,
            !game.complete(),
            forall|p: int, c: int|
                0 <= p < 2 && 0 <= c < 3 ==> #[trigger] game.player(p).column(c) == empty_column(),
            forall|p: int| 0 <= p < 2 ==> game.player(p).name@ == Seq::<char>::empty(),
            forall|p: int| 0 <= p < 2 ==> game.player(p).well_formed(),
    {
        Self { players: [Player::new(), Player::new()], player_idx: 0 }
    }

    /// Whether the game is over: one of the two grids is full.
    pub fn is_complete(&self) -> (complete: bool)
        ensures
            complete == self.complete(),
    {
        self.players[0].array_full() || self.players[1].array_full()
    }

    /// The player whose turn it is, to look at and to change.
    pub fn get_current_player(&mut self) -> (player: Option<&mut Player>)
        ensures
            player is Some <==> old(self).well_formed(),
            player is None ==> *final(self) == *old(self),
            player is Some ==> {
                let turn = old(self).current_turn() as int;
                &&& *player.unwrap() == old(self).player(turn)
                &&& final(self).player(turn) == *final(player.unwrap())
                &&& final(self).player(1 - turn) == old(self).player(1 - turn)
                &&& final(self).current_turn() == old(self).current_turn()
            },
    {
        if self.player_idx < 2 {
            Some(&mut self.players[self.player_idx])
        } else {
            None
        }
    }

    /// The index of the player whose turn it is not.
    pub fn get_other_player_idx(&self) -> (other: usize)
        requires
            self.well_formed(),
        ensures
            other == other_turn(self.current_turn()),
    {
        (self.player_idx + 1) % 2
    }

    /// Hands the turn to the other player.
    pub fn swap_current_player(&mut self)
        requires
            old(self).well_formed(),
        ensures
            final(self).well_formed(),
            final(self).current_turn() == other_turn(old(self).current_turn()),
            forall|p: int| final(self).player(p) == old(self).player(p),
    {
        self.player_idx = self.get_other_player_idx();
    }

    /// Ends the turn: the other player moves next.
    pub fn end_turn(&mut self)
        requires
            old(self).well_formed(),
        ensures
            final(self).well_formed(),
            final(self).current_turn() == other_turn(old(self).current_turn()),
            forall|p: int| final(self).player(p) == old(self).player(p),
    {
        self.swap_current_player();
    }
}

} // verus!
