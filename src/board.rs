use vstd::prelude::*;
use crate::piece::{Piece, PieceType, PIECE_TYPE_COUNT, type_index, type_at, lemma_type_index_inverse};

verus! {

/// Width and height of the square board.
pub const BOARD_WIDTH: usize = 10;

/// Number of cells on the board.
pub const BOARD_SIZE: usize = 100;

/// Whether (x, y) lies on the board.
pub open spec fn on_board(x: int, y: int) -> bool {
    0 <= x < 10 && 0 <= y < 10
}

/// Linear index of (x, y).
pub open spec fn cell_index(x: int, y: int) -> int {
    x + y * 10
}

/// The eight impassable water cells, in two 2x2 lakes.
pub open spec fn is_water(x: int, y: int) -> bool {
    (y == 4 || y == 5) && (x == 2 || x == 3 || x == 6 || x == 7)
}

/// Whether a cell holds the piece with identity `id`.
pub open spec fn holds_id(c: Option<Piece>, id: u128) -> bool {
    match c {
        Some(p) => p.id == id,
        None => false,
    }
}

/// Whether a cell holds a piece of type `t`.
pub open spec fn holds_type(c: Option<Piece>, t: PieceType) -> bool {
    match c {
        Some(p) => p.piece_type == t,
        None => false,
    }
}

/// Index of the first cell at or after `i` that holds `id`.
pub open spec fn find_from(cells: Seq<Option<Piece>>, id: u128, i: int) -> Option<int>
    decreases cells.len() - i,
{
    if i < 0 || i >= cells.len() {
        None
    } else if holds_id(cells[i], id) {
        Some(i)
    } else {
        find_from(cells, id, i + 1)
    }
}

/// Coordinates of the first cell that holds `id`, in linear order.
pub open spec fn spec_find(cells: Seq<Option<Piece>>, id: u128) -> Option<(usize, usize)> {
    match find_from(cells, id, 0) {
        Some(i) => Some(((i % 10) as usize, (i / 10) as usize)),
        None => None,
    }
}

/// Number of cells that hold a piece of type `t`.
pub open spec fn count_type(cells: Seq<Option<Piece>>, t: PieceType) -> nat
    decreases cells.len(),
{
    if cells.len() == 0 {
        0
    } else {
        count_type(cells.drop_last(), t) + if holds_type(cells.last(), t) {
            1nat
        } else {
            0nat
        }
    }
}

/// No two cells hold pieces with the same identity.
pub open spec fn ids_unique(cells: Seq<Option<Piece>>) -> bool {
    forall|i: int, j: int|
        0 <= i < cells.len() && 0 <= j < cells.len() && #[trigger] cells[i] is Some
            && #[trigger] cells[j] is Some && cells[i]->Some_0.id == cells[j]->Some_0.id ==> i
            == j
}

/// Every water cell is empty.
pub open spec fn water_empty(cells: Seq<Option<Piece>>) -> bool {
    forall|x: int, y: int| on_board(x, y) && is_water(x, y) ==> #[trigger] cells[cell_index(x, y)] is None
}

proof fn lemma_find_from_none(cells: Seq<Option<Piece>>, id: u128, i: int)
    requires
        0 <= i,
        forall|j: int| i <= j < cells.len() ==> !holds_id(#[trigger] cells[j], id),
    ensures
        find_from(cells, id, i) is None,
    decreases cells.len() - i,
{
    if i < cells.len() {
        lemma_find_from_none(cells, id, i + 1);
    }
}

proof fn lemma_find_from_unique(cells: Seq<Option<Piece>>, id: u128, i: int, k: int)
    requires
        0 <= i <= k < cells.len(),
        holds_id(cells[k], id),
        forall|j: int| i <= j < cells.len() && j != k ==> !holds_id(#[trigger] cells[j], id),
    ensures
        find_from(cells, id, i) == Some(k),
    decreases k - i,
{
    if i < k {
        lemma_find_from_unique(cells, id, i + 1, k);
    }
}

pub proof fn lemma_find_from_some(cells: Seq<Option<Piece>>, id: u128, i: int)
    requires
        0 <= i,
        find_from(cells, id, i) is Some,
    ensures
        ({
            let k = find_from(cells, id, i)->Some_0;
            i <= k < cells.len() && holds_id(cells[k], id)
        }),
    decreases cells.len() - i,
{
    if i < cells.len() && !holds_id(cells[i], id) {
        lemma_find_from_some(cells, id, i + 1);
    }
}

/// Where exactly one cell holds `id`, `find` names that cell; where none does,
/// `find` reports nothing.
pub proof fn lemma_find_located(cells: Seq<Option<Piece>>, id: u128, x: int, y: int)
    requires
        cells.len() == 100,
        on_board(x, y),
        holds_id(cells[cell_index(x, y)], id),
        forall|j: int| 0 <= j < 100 && j != cell_index(x, y) ==> !holds_id(#[trigger] cells[j], id),
    ensures
        spec_find(cells, id) == Some((x as usize, y as usize)),
{
    lemma_find_from_unique(cells, id, 0, cell_index(x, y));
}

pub proof fn lemma_find_absent(cells: Seq<Option<Piece>>, id: u128)
    requires
        forall|j: int| 0 <= j < cells.len() ==> !holds_id(#[trigger] cells[j], id),
    ensures
        spec_find(cells, id) is None,
{
    lemma_find_from_none(cells, id, 0);
}

/// The 10x10 board, a cell at `x + y * 10` for each (x, y).
#[derive(Clone, Copy, Debug, PartialEq, Eq)]
pub struct Board(pub [Option<Piece>; 100]);

impl Board {
    pub open spec fn cells(&self) -> Seq<Option<Piece>> {
        self.0@
    }

    /// An empty board.
    pub fn new() -> (r: Board)
        ensures
            r.cells().len() == 100,
            forall|i: int| 0 <= i < 100 ==> (#[trigger] r.cells()[i]) is None,
    {
        Board([None; 100])
    }

    /// The cell at (x, y); `None` off the board.
    pub fn get(&self, x: usize, y: usize) -> (r: Option<&Option<Piece>>)
        ensures
            on_board(x as int, y as int) ==> r == Some(&self.cells()[cell_index(x as int, y as int)]),
            !on_board(x as int, y as int) ==> r is None,
    {
        if x < BOARD_WIDTH && y < BOARD_WIDTH {
            Some(&self.0[x + y * BOARD_WIDTH])
        } else {
            None
        }
    }

    /// Puts `piece` in the cell at (x, y), replacing what was there.
    pub fn set(&mut self, x: usize, y: usize, piece: Option<Piece>)
        requires
            on_board(x as int, y as int),
        ensures
            final(self).cells() == old(self).cells().update(cell_index(x as int, y as int), piece),
    {
        self.0[x + y * BOARD_WIDTH] = piece;
    }

    /// Coordinates of the first cell, in linear order, that holds the piece `id`.
    pub fn find(&self, id: u128) -> (r: Option<(usize, usize)>)
        ensures
            r == spec_find(self.cells(), id),
            r matches Some((x, y)) ==> on_board(x as int, y as int) && holds_id(
                self.cells()[cell_index(x as int, y as int)],
                id,
            ),
            r is None ==> forall|j: int| 0 <= j < 100 ==> !holds_id(#[trigger] self.cells()[j], id),
    {
        let mut i: usize = 0;
        while i < BOARD_SIZE
            invariant
                i <= BOARD_SIZE,
                self.cells().len() == 100,
                find_from(self.cells(), id, 0) == find_from(self.cells(), id, i as int),
                forall|j: int| 0 <= j < i ==> !holds_id(#[trigger] self.cells()[j], id),
            decreases BOARD_SIZE - i,
        {
            let found = match &self.0[i] {
                Some(p) => p.id == id,
                None => false,
            };
            if found {
                return Some((i % BOARD_WIDTH, i / BOARD_WIDTH));
            }
            i = i + 1;
        }
        proof {
            lemma_find_from_none(self.cells(), id, 100);
        }
        None
    }

    /// How many pieces of each type stand on the board, at `PieceType::index`.
    pub fn count(&self) -> (r: Vec<usize>)
        ensures
            r@.len() == PIECE_TYPE_COUNT,
            forall|t: PieceType| #[trigger] r@[type_index(t)] as nat == count_type(self.cells(), t),
    {
        let mut counts: Vec<usize> = vec![0; PIECE_TYPE_COUNT];
        let mut i: usize = 0;
        proof {
            assert(self.cells().take(0) =~= Seq::<Option<Piece>>::empty());
        }
        while i < BOARD_SIZE
            invariant
                i <= BOARD_SIZE,
                self.cells().len() == 100,
                counts@.len() == PIECE_TYPE_COUNT,
                forall|k: int|
                    0 <= k < PIECE_TYPE_COUNT ==> #[trigger] counts@[k] as nat == count_type(
                        self.cells().take(i as int),
                        type_at(k),
                    ),
                forall|k: int| 0 <= k < PIECE_TYPE_COUNT ==> #[trigger] counts@[k] <= i,
            decreases BOARD_SIZE - i,
        {
            let ghost before = counts@;
            proof {
                assert(self.cells().take(i + 1).drop_last() =~= self.cells().take(i as int));
            }
            match &self.0[i] {
                Some(p) => {
                    let k = p.piece_type.index();
                    counts.set(k, counts[k] + 1);
                    proof {
                        assert forall|j: int| 0 <= j < PIECE_TYPE_COUNT implies #[trigger] counts@[j] as nat
                            == count_type(self.cells().take(i + 1), type_at(j)) by {
                            lemma_type_index_inverse(p.piece_type);
                            lemma_type_at_index(j);
                        }
                    }
                },
                None => {},
            }
            i = i + 1;
        }
        proof {
            assert(self.cells().take(100) =~= self.cells());
            assert forall|t: PieceType| #[trigger] counts@[type_index(t)] as nat == count_type(self.cells(), t) by {
                lemma_type_index_inverse(t);
            }
        }
        counts
    }

    /// How many pieces of type `t` stand on the board.
    pub fn count_of(&self, t: PieceType) -> (r: usize)
        ensures
            r as nat == count_type(self.cells(), t),
    {
        let counts = self.count();
        counts[t.index()]
    }
}

proof fn lemma_type_at_index(j: int)
    requires
        0 <= j < PIECE_TYPE_COUNT,
    ensures
        type_index(type_at(j)) == j,
{
}

/// The cell that `find` names lies on the board and holds `id`.
pub proof fn lemma_find_in_bounds(cells: Seq<Option<Piece>>, id: u128)
    requires
        cells.len() == 100,
    ensures
        spec_find(cells, id) matches Some((u, v)) ==> on_board(u as int, v as int)
            && holds_id(cells[cell_index(u as int, v as int)], id),
{
    if spec_find(cells, id) is Some {
        lemma_find_from_some(cells, id, 0);
    }
}

} // verus!
