use vstd::prelude::*;
use crate::piece::{
    Piece, PieceType, Side, PIECE_TYPE_COUNT, type_index, type_at, spec_starting_count,
    lemma_type_index_inverse,
};
use crate::board::{Board, BOARD_SIZE, holds_id};

verus! {

/// Number of pieces in a setup roster.
pub const ROSTER_SIZE: usize = 40;

/// Why a setup was refused.
#[derive(Clone, Copy, Debug, PartialEq, Eq, Structural)]
pub enum InitSetupError {
    /// The access token holds no side in this game.
    InvalidAccess,
    /// The roster does not hold each type exactly as often as a side starts with.
    IncorrectPieceCount,
    /// The identities drawn for the new pieces were not fresh.
    UnknownFail,
    /// No game has this id.
    GameDoesNotExist,
}

/// How often `t` occurs in `s`.
pub open spec fn count_rank(s: Seq<PieceType>, t: PieceType) -> nat
    decreases s.len(),
{
    if s.len() == 0 {
        0
    } else {
        count_rank(s.drop_last(), t) + if s.last() == t {
            1nat
        } else {
            0nat
        }
    }
}

/// A roster is valid when every type occurs exactly as often as a side starts
/// with it.
pub open spec fn roster_valid(s: Seq<PieceType>) -> bool {
    forall|t: PieceType| #[trigger] count_rank(s, t) == spec_starting_count(t)
}

/// Checks that the roster holds each type exactly as often as a side starts with.
pub fn validate_roster(pieces: &[PieceType; 40]) -> (r: Result<(), InitSetupError>)
    ensures
        r is Ok <==> roster_valid(pieces@),
        r is Err ==> r == Err::<(), InitSetupError>(InitSetupError::IncorrectPieceCount),
{
    let mut counts: Vec<usize> = vec![0; PIECE_TYPE_COUNT];
    let mut i: usize = 0;
    proof {
        assert(pieces@.take(0) =~= Seq::<PieceType>::empty());
    }
    while i < ROSTER_SIZE
        invariant
            i <= ROSTER_SIZE,
            pieces@.len() == 40,
            counts@.len() == PIECE_TYPE_COUNT,
            forall|k: int|
                0 <= k < PIECE_TYPE_COUNT ==> #[trigger] counts@[k] as nat == count_rank(
                    pieces@.take(i as int),
                    type_at(k),
                ),
            forall|k: int| 0 <= k < PIECE_TYPE_COUNT ==> #[trigger] counts@[k] <= i,
        decreases ROSTER_SIZE - i,
    {
        proof {
            assert(pieces@.take(i + 1).drop_last() =~= pieces@.take(i as int));
        }
        let t = pieces[i];
        let k = t.index();
        counts.set(k, counts[k] + 1);
        proof {
            lemma_type_index_inverse(t);
            assert forall|j: int| 0 <= j < PIECE_TYPE_COUNT implies #[trigger] counts@[j] as nat
                == count_rank(pieces@.take(i + 1), type_at(j)) by {
                if type_at(j) == t {
                    assert(type_index(type_at(j)) == j);
                }
            }
        }
        i = i + 1;
    }
    proof {
        assert(pieces@.take(40) =~= pieces@);
    }
    let mut j: usize = 0;
    while j < PIECE_TYPE_COUNT
        invariant
            j <= PIECE_TYPE_COUNT,
            counts@.len() == PIECE_TYPE_COUNT,
            forall|k: int|
                0 <= k < PIECE_TYPE_COUNT ==> #[trigger] counts@[k] as nat == count_rank(
                    pieces@,
                    type_at(k),
                ),
            forall|k: int| 0 <= k < j ==> #[trigger] counts@[k] as nat == spec_starting_count(type_at(k)),
        decreases PIECE_TYPE_COUNT - j,
    {
        let t = PieceType::from_index(j);
        if counts[j] != t.starting_count() {
            proof {
                assert(count_rank(pieces@, t) != spec_starting_count(t));
            }
            return Err(InitSetupError::IncorrectPieceCount);
        }
        j = j + 1;
    }
    proof {
        assert forall|t: PieceType| #[trigger] count_rank(pieces@, t) == spec_starting_count(t) by {
            lemma_type_index_inverse(t);
            assert(counts@[type_index(t)] as nat == spec_starting_count(type_at(type_index(t))));
        }
    }
    Ok(())
}

/// The board cell that receives roster entry `i`: the primary side fills
/// cells 60..99 in roster order, the other side cells 39..0, mirrored.
pub open spec fn setup_cell(primary: bool, i: int) -> int {
    if primary {
        60 + i
    } else {
        39 - i
    }
}

/// Roster entry placed in cell `j`, if any.
pub open spec fn setup_entry(primary: bool, j: int) -> int {
    if primary {
        j - 60
    } else {
        39 - j
    }
}

/// The cells after `side` places `pieces` with identities `ids`.
pub open spec fn spec_place(
    cells: Seq<Option<Piece>>,
    side: Side,
    primary: bool,
    pieces: Seq<PieceType>,
    ids: Seq<u128>,
) -> Seq<Option<Piece>> {
    Seq::new(
        cells.len(),
        |j: int|
            {
                let e = setup_entry(primary, j);
                if 0 <= e < 40 {
                    Some(Piece { id: ids[e], owner: side, piece_type: pieces[e] })
                } else {
                    cells[j]
                }
            },
    )
}

/// The identities are pairwise distinct and none is held by a piece on the board.
pub open spec fn ids_fresh(cells: Seq<Option<Piece>>, ids: Seq<u128>) -> bool {
    &&& forall|i: int, j: int| 0 <= i < j < ids.len() ==> #[trigger] ids[i] != #[trigger] ids[j]
    &&& forall|i: int, c: int|
        0 <= i < ids.len() && 0 <= c < cells.len() ==> !holds_id(#[trigger] cells[c], #[trigger] ids[i])
}

/// Whether `ids` may name new pieces on `board`.
pub fn check_ids_fresh(board: &Board, ids: &Vec<u128>) -> (r: bool)
    ensures
        r == ids_fresh(board.cells(), ids@),
{
    let n = ids.len();
    let mut i: usize = 0;
    while i < n
        invariant
            i <= n,
            n == ids@.len(),
            board.cells().len() == 100,
            forall|a: int, b: int| 0 <= a < i && a < b < n ==> #[trigger] ids@[a] != #[trigger] ids@[b],
            forall|a: int, c: int|
                0 <= a < i && 0 <= c < 100 ==> !holds_id(#[trigger] board.cells()[c], #[trigger] ids@[a]),
        decreases n - i,
    {
        let id = ids[i];
        let mut j: usize = i + 1;
        while j < n
            invariant
                i < j <= n,
                n == ids@.len(),
                id == ids@[i as int],
                forall|b: int| i < b < j ==> id != #[trigger] ids@[b],
            decreases n - j,
        {
            if ids[j] == id {
                return false;
            }
            j = j + 1;
        }
        let mut c: usize = 0;
        while c < BOARD_SIZE
            invariant
                c <= BOARD_SIZE,
                i < n,
                n == ids@.len(),
                board.cells().len() == 100,
                id == ids@[i as int],
                forall|d: int| 0 <= d < c ==> !holds_id(#[trigger] board.cells()[d], id),
            decreases BOARD_SIZE - c,
        {
            let taken = match &board.0[c] {
                Some(p) => p.id == id,
                None => false,
            };
            if taken {
                assert(holds_id(board.cells()[c as int], ids@[i as int]));
                return false;
            }
            c = c + 1;
        }
        i = i + 1;
    }
    true
}

/// Writes the roster of `side` into its home rows; every piece gets the
/// identity at the same position of `ids`.
pub fn place_roster(
    board: &mut Board,
    side: Side,
    primary: bool,
    pieces: &[PieceType; 40],
    ids: &Vec<u128>,
)
    requires
        ids@.len() == ROSTER_SIZE,
    ensures
        final(board).cells() == spec_place(old(board).cells(), side, primary, pieces@, ids@),
        forall|i: int|
            0 <= i < ROSTER_SIZE ==> #[trigger] final(board).cells()[setup_cell(primary, i)] == Some(
                Piece { id: ids@[i], owner: side, piece_type: pieces@[i] },
            ),
{
    let mut i: usize = 0;
    while i < ROSTER_SIZE
        invariant
            i <= ROSTER_SIZE,
            ids@.len() == ROSTER_SIZE,
            pieces@.len() == ROSTER_SIZE,
            board.cells().len() == 100,
            forall|j: int|
                0 <= j < 100 ==> #[trigger] board.cells()[j] == {
                    let e = setup_entry(primary, j);
                    if 0 <= e < i {
                        Some(Piece { id: ids@[e], owner: side, piece_type: pieces@[e] })
                    } else {
                        old(board).cells()[j]
                    }
                },
        decreases ROSTER_SIZE - i,
    {
        let index = if primary {
            60 + i
        } else {
            39 - i
        };
        board.0[index] = Some(Piece { id: ids[i], owner: side, piece_type: pieces[i] });
        i = i + 1;
    }
    proof {
        assert(board.cells() =~= spec_place(old(board).cells(), side, primary, pieces@, ids@));
        assert forall|i: int| 0 <= i < ROSTER_SIZE implies #[trigger] board.cells()[setup_cell(primary, i)] == Some(
            Piece { id: ids@[i], owner: side, piece_type: pieces@[i] },
        ) by {
            assert(setup_entry(primary, setup_cell(primary, i)) == i);
        }
    }
}

} // verus!
