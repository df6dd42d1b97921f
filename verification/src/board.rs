//! The eleven cells of the board and the lines of three that score.

use crate::player::PlayerID;
use vstd::prelude::*;

verus! {

/// Number of cells on the board.
pub const BOARD_SIZE: usize = 11;

/// The names of the eleven cells, in board order.
#[derive(Debug, Clone, Copy, PartialEq, Eq, Structural)]
pub enum Coord {
    A1,
    B1,
    B2,
    B3,
    C1,
    C2,
    C3,
    D1,
    D2,
    D3,
    E3,
}

impl Coord {
    /// Position of the cell in board order.
    pub open spec fn index(self) -> int {
        match self {
            Coord::A1 => 0,
            Coord::B1 => 1,
            Coord::B2 => 2,
            Coord::B3 => 3,
            Coord::C1 => 4,
            Coord::C2 => 5,
            Coord::C3 => 6,
            Coord::D1 => 7,
            Coord::D2 => 8,
            Coord::D3 => 9,
            Coord::E3 => 10,
        }
    }

    /// The cell at position `i` in board order.
    pub open spec fn at(i: int) -> Coord
        recommends
            0 <= i < BOARD_SIZE,
    {
        if i == 0 {
            Coord::A1
        } else if i == 1 {
            Coord::B1
        } else if i == 2 {
            Coord::B2
        } else if i == 3 {
            Coord::B3
        } else if i == 4 {
            Coord::C1
        } else if i == 5 {
            Coord::C2
        } else if i == 6 {
            Coord::C3
        } else if i == 7 {
            Coord::D1
        } else if i == 8 {
            Coord::D2
        } else if i == 9 {
            Coord::D3
        } else {
            Coord::E3
        }
    }

    fn position(self) -> (i: usize)
        ensures
            i == self.index(),
            i < BOARD_SIZE,
            Coord::at(i as int) == self,
    {
        match self {
            Coord::A1 => 0,
            Coord::B1 => 1,
            Coord::B2 => 2,
            Coord::B3 => 3,
            Coord::C1 => 4,
            Coord::C2 => 5,
            Coord::C3 => 6,
            Coord::D1 => 7,
            Coord::D2 => 8,
            Coord::D3 => 9,
            Coord::E3 => 10,
        }
    }
}

/// Mathematical model of a [`Hex`]: what one cell of the board holds.
pub struct HexView {
    pub coord: Coord,
    /// Height of the pile of stones on the cell.
    pub stone: nat,
    /// Whether a king stands on the cell.
    pub king: bool,
    /// The player who last played on the cell, if anyone has.
    pub player: Option<PlayerID>,
}

impl HexView {
    /// The cell `coord` before anyone has played on it.
    pub open spec fn empty(coord: Coord) -> HexView {
        HexView { coord, stone: 0, king: false, player: None }
    }

    /// The cell after `player` has put one more stone on it.
    pub open spec fn with_stone(self, player: PlayerID) -> HexView {
        HexView { stone: self.stone + 1, player: Some(player), ..self }
    }

    /// The cell after `player` has put a king on it.
    pub open spec fn with_king(self, player: PlayerID) -> HexView {
        HexView { king: true, player: Some(player), ..self }
    }

    /// A cell has an owner exactly when something stands on it.
    pub open spec fn consistent(self) -> bool {
        self.player is None <==> self.stone == 0 && !self.king
    }
}

/// One cell of the board.
#[derive(Debug, Clone, PartialEq, Eq)]
pub struct Hex {
    coord: Coord,
    stone: u8,
    king: bool,
    player: Option<PlayerID>,
}

impl View for Hex {
    type V = HexView;

    closed spec fn view(&self) -> HexView {
        HexView {
            coord: self.coord,
            stone: self.stone as nat,
            king: self.king,
            player: self.player,
        }
    }
}

impl Hex {
    /// An empty, unowned cell.
    pub fn new(coord: Coord) -> (hex: Self)
        ensures
            hex@ == HexView::empty(coord),
    {
        Hex { coord, stone: 0, king: false, player: None }
    }

    pub fn coord(&self) -> (coord: Coord)
        ensures
            coord == self@.coord,
    {
        self.coord
    }

    pub fn stone(&self) -> (stone: u8)
        ensures
            stone == self@.stone,
    {
        self.stone
    }

    pub fn king(&self) -> (king: bool)
        ensures
            king == self@.king,
    {
        self.king
    }

    pub fn player(&self) -> (player: Option<PlayerID>)
        ensures
            player == self@.player,
    {
        self.player
    }

    /// Puts one more stone on the pile.
    pub fn increment_stone(&mut self)
        requires
            old(self)@.stone < u8::MAX,
        ensures
            final(self)@ == (HexView { stone: old(self)@.stone + 1, ..old(self)@ }),
    {
        self.stone += 1;
    }

    /// Marks the cell as holding a king.
    pub fn set_king(&mut self)
        ensures
            final(self)@ == (HexView { king: true, ..old(self)@ }),
    {
        self.king = true;
    }

    /// Hands the cell to `player`.
    pub fn set_player(&mut self, player: PlayerID)
        ensures
            final(self)@ == (HexView { player: Some(player), ..old(self)@ }),
    {
        self.player = Some(player);
    }

    /// `player` puts a stone on the cell and takes it over.
    pub fn play_stone(&mut self, player: PlayerID)
        requires
            old(self)@.stone < u8::MAX,
        ensures
            final(self)@ == old(self)@.with_stone(player),
    {
        self.increment_stone();
        self.set_player(player);
    }

    /// `player` puts a king on the cell and takes it over.
    pub fn play_king(&mut self, player: PlayerID)
        ensures
            final(self)@ == old(self)@.with_king(player),
    {
        self.set_king();
        self.set_player(player);
    }
}

/// Mathematical model of a [`Triple`]: a line of three cells and the player
/// who owns all of them.
pub struct TripleView {
    pub a: Coord,
    pub b: Coord,
    pub c: Coord,
    pub player: PlayerID,
}

/// A scoring line: three cells in a row that one player owns.
#[derive(Debug, Clone, Copy, PartialEq, Eq, Structural)]
pub struct Triple {
    a: Coord,
    b: Coord,
    c: Coord,
    player: PlayerID,
}

impl View for Triple {
    type V = TripleView;

    closed spec fn view(&self) -> TripleView {
        TripleView { a: self.a, b: self.b, c: self.c, player: self.player }
    }
}

impl Triple {
    /// The owner of the three cells.
    pub fn player(&self) -> (player: PlayerID)
        ensures
            player == self@.player,
    {
        self.player
    }

    /// The three cells of the line.
    pub fn coords(&self) -> (coords: (Coord, Coord, Coord))
        ensures
            coords == (self@.a, self@.b, self@.c),
    {
        (self.a, self.b, self.c)
    }

    /// Two triples are equal exactly when their models are.
    pub proof fn lemma_view_injective(x: Triple, y: Triple)
        ensures
            (x == y) == (x@ == y@),
    {
    }
}

/// The eleven lines of three cells that score, in the order in which they are
/// examined. They are fixed by the shape of the board.
pub open spec fn lines() -> Seq<(Coord, Coord, Coord)> {
    seq![
        (Coord::A1, Coord::B1, Coord::C1),
        (Coord::B1, Coord::C1, Coord::D1),
        (Coord::B1, Coord::B2, Coord::B3),
        (Coord::C1, Coord::C2, Coord::C3),
        (Coord::D1, Coord::D2, Coord::D3),
        (Coord::B2, Coord::C2, Coord::D2),
        (Coord::B3, Coord::C3, Coord::D3),
        (Coord::C3, Coord::D3, Coord::E3),
        (Coord::A1, Coord::B2, Coord::C3),
        (Coord::B1, Coord::C2, Coord::D3),
        (Coord::C1, Coord::D2, Coord::E3),
    ]
}

/// Whether the three cells all have an owner, and the same one.
pub open spec fn same_owner(cells: Seq<HexView>, a: Coord, b: Coord, c: Coord) -> bool {
    &&& cells[a.index()].player is Some
    &&& cells[a.index()].player == cells[b.index()].player
    &&& cells[b.index()].player == cells[c.index()].player
}

/// The triple that `line` scores on the given cells, if one player owns all
/// three of its cells.
pub open spec fn claim(cells: Seq<HexView>, line: (Coord, Coord, Coord)) -> Option<TripleView> {
    if same_owner(cells, line.0, line.1, line.2) {
        Some(
            TripleView {
                a: line.0,
                b: line.1,
                c: line.2,
                player: cells[line.0.index()].player.unwrap(),
            },
        )
    } else {
        None
    }
}

/// The cells of a board on which nobody has played.
pub open spec fn empty_cells() -> Seq<HexView> {
    Seq::new(BOARD_SIZE as nat, |i: int| HexView::empty(Coord::at(i)))
}

/// Every line that scores on the given cells, in the order of [`lines`].
pub open spec fn scoring(cells: Seq<HexView>) -> Seq<TripleView> {
    lines().filter_map(|line: (Coord, Coord, Coord)| claim(cells, line))
}

/// The eleven cells of the game.
#[derive(Debug, Clone)]
pub struct Board {
    hexes: Vec<Hex>,
}

impl View for Board {
    type V = Seq<HexView>;

    closed spec fn view(&self) -> Seq<HexView> {
        self.hexes@.map_values(|hex: Hex| hex@)
    }
}

impl Board {
    /// The board holds the eleven cells in board order.
    pub open spec fn wf(&self) -> bool {
        &&& self@.len() == BOARD_SIZE
        &&& forall|i: int| 0 <= i < BOARD_SIZE ==> (#[trigger] self@[i]).coord == Coord::at(i)
    }

    /// What the cell `coord` holds.
    pub open spec fn cell(&self, coord: Coord) -> HexView {
        self@[coord.index()]
    }

    /// A board on which nobody has played.
    pub fn new() -> (board: Self)
        ensures
            board.wf(),
            board@ == empty_cells(),
    {
        let board = Board {
            hexes: vec![
                Hex::new(Coord::A1),
                Hex::new(Coord::B1),
                Hex::new(Coord::B2),
                Hex::new(Coord::B3),
                Hex::new(Coord::C1),
                Hex::new(Coord::C2),
                Hex::new(Coord::C3),
                Hex::new(Coord::D1),
                Hex::new(Coord::D2),
                Hex::new(Coord::D3),
                Hex::new(Coord::E3),
            ],
        };
        assert(board@ =~= empty_cells());
        board
    }

    /// All cells, in board order.
    pub fn hexes(&self) -> (hexes: &Vec<Hex>)
        ensures
            hexes@.len() == self@.len(),
            forall|i: int| 0 <= i < hexes@.len() ==> (#[trigger] hexes@[i])@ == self@[i],
    {
        &self.hexes
    }

    /// The cell named `coord`.
    pub fn hex(&self, coord: Coord) -> (hex: &Hex)
        requires
            self.wf(),
        ensures
            hex@ == self.cell(coord),
    {
        &self.hexes[coord.position()]
    }

    /// The cell named `coord`, for changing in place.
    pub fn hex_mut(&mut self, coord: Coord) -> (hex: &mut Hex)
        requires
            old(self).wf(),
        ensures
            hex@ == old(self).cell(coord),
            final(self)@ == old(self)@.update(coord.index(), final(hex)@),
    {
        let i: usize = coord.position();
        &mut self.hexes[i]
    }

    /// `player` puts a stone on the cell `coord` and takes it over. Whether
    /// the rules allow the move is for the caller to decide.
    pub fn play_stone(&mut self, coord: Coord, player: PlayerID)
        requires
            old(self).wf(),
            old(self).cell(coord).stone < u8::MAX,
        ensures
            final(self).wf(),
            final(self)@ == old(self)@.update(
                coord.index(),
                old(self).cell(coord).with_stone(player),
            ),
    {
        let hex = self.hex_mut(coord);
        hex.play_stone(player);
    }

    /// `player` puts a king on the cell `coord` and takes it over. Whether
    /// the rules allow the move is for the caller to decide.
    pub fn play_king(&mut self, coord: Coord, player: PlayerID)
        requires
            old(self).wf(),
        ensures
            final(self).wf(),
            final(self)@ == old(self)@.update(coord.index(), old(self).cell(coord).with_king(player)),
    {
        let hex = self.hex_mut(coord);
        hex.play_king(player);
    }

    /// Whether the three cells all have an owner, and the same one.
    pub fn same_player(&self, coord1: Coord, coord2: Coord, coord3: Coord) -> (same: bool)
        requires
            self.wf(),
        ensures
            same == same_owner(self@, coord1, coord2, coord3),
    {
        let hex1 = self.hex(coord1);
        let hex2 = self.hex(coord2);
        let hex3 = self.hex(coord3);

        if let Some(player1) = hex1.player {
            if let Some(player2) = hex2.player {
                if let Some(player3) = hex3.player {
                    if player1 == player2 && player2 == player3 {
                        return true;
                    }
                }
            }
        }
        false
    }

    /// Every line of three that one player owns, in the order of [`lines`].
    /// The board is left as it was.
    pub fn score(&mut self) -> (triples: Vec<Triple>)
        requires
            old(self).wf(),
        ensures
            *final(self) == *old(self),
            triples@.len() == scoring(old(self)@).len(),
            forall|i: int|
                0 <= i < triples@.len() ==> (#[trigger] triples@[i])@ == scoring(old(self)@)[i],
    {
        let triples = vec![
            (Coord::A1, Coord::B1, Coord::C1),
            (Coord::B1, Coord::C1, Coord::D1),
            (Coord::B1, Coord::B2, Coord::B3),
            (Coord::C1, Coord::C2, Coord::C3),
            (Coord::D1, Coord::D2, Coord::D3),
            (Coord::B2, Coord::C2, Coord::D2),
            (Coord::B3, Coord::C3, Coord::D3),
            (Coord::C3, Coord::D3, Coord::E3),
            (Coord::A1, Coord::B2, Coord::C3),
            (Coord::B1, Coord::C2, Coord::D3),
            (Coord::C1, Coord::D2, Coord::E3),
        ];
        assert(triples@ == lines());

        let mut triples_acc: Vec<Triple> = Vec::new();
        let ghost found = |line: (Coord, Coord, Coord)| claim(self@, line);

        let mut i: usize = 0;
        while i < triples.len()
            invariant
                i <= triples.len(),
                triples@ == lines(),
                self.wf(),
                *self == *old(self),
                found == |line: (Coord, Coord, Coord)| claim(self@, line),
                triples_acc@.map_values(|triple: Triple| triple@) == lines().take(i as int).filter_map(
                    found,
                ),
            decreases triples.len() - i,
        {
            let (coord1, coord2, coord3) = triples[i];
            proof {
                lines().lemma_filter_map_take_succ(found, i as int);
            }
            if self.same_player(coord1, coord2, coord3) {
                if let Some(player) = self.hex(coord1).player {
                    triples_acc.push(Triple { a: coord1, b: coord2, c: coord3, player: player });
                }
            }
            i += 1;
        }
        assert(lines().take(lines().len() as int) == lines());
        assert forall|k: int| 0 <= k < triples_acc@.len() implies (#[trigger] triples_acc@[k])@
            == scoring(self@)[k] by {
            assert(triples_acc@.map_values(|triple: Triple| triple@)[k] == triples_acc@[k]@);
        }

        triples_acc
    }
}

} // verus!
