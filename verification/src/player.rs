//! A player's identity and resources.

use vstd::prelude::*;

verus! {

/// Stones in each player's pool when a game begins.
pub const STARTING_STONES: u8 = 12;

/// The two sides of a game.
#[derive(Debug, Clone, Copy, PartialEq, Eq, Structural)]
pub enum PlayerID {
    One,
    Two,
}

impl PlayerID {
    /// The other side.
    pub open spec fn opponent(self) -> PlayerID {
        match self {
            PlayerID::One => PlayerID::Two,
            PlayerID::Two => PlayerID::One,
        }
    }
}

/// Mathematical model of a [`Player`].
pub struct PlayerView {
    pub id: PlayerID,
    /// Stones available to play.
    pub stones: nat,
    /// Whether the single king is still in hand.
    pub king: bool,
    /// Stones captured from this player's cells, held in reserve.
    pub graveyard: nat,
}

impl PlayerView {
    /// A player as the game begins.
    pub open spec fn fresh(id: PlayerID) -> PlayerView {
        PlayerView { id, stones: STARTING_STONES as nat, king: true, graveyard: 0 }
    }

    /// The player after paying `n` stones out of the pool. A pool that is
    /// emptied exactly is refilled with the whole graveyard, which is then
    /// empty.
    pub open spec fn pay(self, n: nat) -> PlayerView
        recommends
            n <= self.stones,
    {
        if self.stones == n {
            PlayerView { stones: self.graveyard, graveyard: 0, ..self }
        } else {
            PlayerView { stones: (self.stones - n) as nat, ..self }
        }
    }
}

/// One side's resources: the stones it may still play, whether its king is
/// still in hand, and the reserve of its captured stones.
#[derive(Debug, Clone)]
pub struct Player {
    id: PlayerID,
    stones: u8,
    king: bool,
    graveyard: u8,
}

impl View for Player {
    type V = PlayerView;

    closed spec fn view(&self) -> PlayerView {
        PlayerView {
            id: self.id,
            stones: self.stones as nat,
            king: self.king,
            graveyard: self.graveyard as nat,
        }
    }
}

impl Player {
    /// A player with a full pool, the king in hand and an empty graveyard.
    pub fn new(id: PlayerID) -> (player: Self)
        ensures
            player@ == PlayerView::fresh(id),
    {
        Player { id, stones: STARTING_STONES, king: true, graveyard: 0 }
    }

    pub fn id(&self) -> (id: PlayerID)
        ensures
            id == self@.id,
    {
        self.id
    }

    pub fn stones(&self) -> (stones: u8)
        ensures
            stones == self@.stones,
    {
        self.stones
    }

    pub fn king(&self) -> (king: bool)
        ensures
            king == self@.king,
    {
        self.king
    }

    pub fn graveyard(&self) -> (graveyard: u8)
        ensures
            graveyard == self@.graveyard,
    {
        self.graveyard
    }

    /// Adds `stones` to the pool.
    pub fn add_stones(&mut self, stones: u8)
        requires
            old(self)@.stones + stones <= u8::MAX,
        ensures
            final(self)@ == (PlayerView { stones: old(self)@.stones + stones as nat, ..old(self)@ }),
    {
        self.stones += stones;
    }

    /// Takes exactly `stones` out of the pool. If that empties the pool, the
    /// graveyard is moved into it.
    pub fn remove_stones(&mut self, stones: u8)
        requires
            stones <= old(self)@.stones,
        ensures
            final(self)@ == old(self)@.pay(stones as nat),
    {
        self.stones -= stones;
        if self.stones == 0 {
            self.stones = self.graveyard;
            self.clear_graveyard()
        }
    }

    /// Adds `stones` to the reserve of captured stones.
    pub fn add_to_graveyard(&mut self, stones: u8)
        requires
            old(self)@.graveyard + stones <= u8::MAX,
        ensures
            final(self)@ == (PlayerView {
                graveyard: old(self)@.graveyard + stones as nat,
                ..old(self)@
            }),
    {
        self.graveyard += stones;
    }

    /// Empties the reserve of captured stones.
    pub fn clear_graveyard(&mut self)
        ensures
            final(self)@ == (PlayerView { graveyard: 0, ..old(self)@ }),
    {
        self.graveyard = 0;
    }

    /// Spends the king; it never comes back.
    pub fn play_king(&mut self)
        ensures
            final(self)@ == (PlayerView { king: false, ..old(self)@ }),
    {
        self.king = false;
    }
}

} // verus!
