use vstd::prelude::*;
use crate::piece::{Piece, PieceType, spec_triumphs};
use crate::board::{
    Board, BOARD_WIDTH, on_board, cell_index, is_water, holds_id, find_from, spec_find,
    ids_unique, lemma_find_located, lemma_find_absent, lemma_find_from_some,
};

verus! {

/// What a legal move did.
#[derive(Clone, Copy, Debug, PartialEq, Eq, Structural)]
pub enum MoveResponse {
    /// The piece moved to an empty cell.
    Success,
    /// The piece defeated the defender (given here) and took its cell.
    AttackSuccess(Piece),
    /// The attacking piece (given here) lost and left the board.
    AttackFailure(Piece),
    /// Equal ranks met: the defender and the attacker, in that order, both
    /// leave the board.
    AttackFailureMutual(Piece, Piece),
}

/// Why a move was refused. A refused move never changes the board.
#[derive(Clone, Copy, Debug, PartialEq, Eq, Structural)]
pub enum MoveError {
    InvalidLocation,
    NoMoveNeeded,
    OutsideOfMoveRange(usize, usize),
    PieceDoesNotExist(u128),
    FriendlyFire,
    Immovable,
    PieceNotFound(usize, usize),
}

pub type MoveResult = Result<MoveResponse, MoveError>;

/// Whether `k` lies strictly between `a` and `b`.
pub open spec fn strictly_between(a: int, k: int, b: int) -> bool {
    (a < k < b) || (b < k < a)
}

/// Exactly one orthogonal step from (u, v) to (x, y).
pub open spec fn is_unit_step(u: int, v: int, x: int, y: int) -> bool {
    (x == u && (y == v + 1 || y == v - 1)) || (y == v && (x == u + 1 || x == u - 1))
}

/// Every cell strictly between (u, v) and (x, y), on their shared row or
/// column, is empty land.
pub open spec fn path_clear(cells: Seq<Option<Piece>>, u: int, v: int, x: int, y: int) -> bool {
    &&& (u == x ==> forall|k: int|
        strictly_between(v, k, y) ==> #[trigger] cells[cell_index(x, k)] is None && !is_water(
            x,
            k,
        ))
    &&& (u != x && v == y ==> forall|k: int|
        strictly_between(u, k, x) ==> #[trigger] cells[cell_index(k, y)] is None && !is_water(
            k,
            y,
        ))
}

/// Whether a piece of type `t` at (u, v) can reach (x, y) on `cells`: one
/// orthogonal step, or for a Scout any distance along a row or column over
/// empty land.
pub open spec fn in_move_range(
    cells: Seq<Option<Piece>>,
    t: PieceType,
    u: int,
    v: int,
    x: int,
    y: int,
) -> bool {
    on_board(x, y) && if t == PieceType::Scout {
        (u == x || v == y) && path_clear(cells, u, v, x, y)
    } else {
        is_unit_step(u, v, x, y)
    }
}

/// Outcome of the piece `p` reaching a cell that holds `target`.
pub open spec fn spec_arrive(p: Piece, target: Option<Piece>) -> MoveResult {
    match target {
        None => Ok(MoveResponse::Success),
        Some(d) => spec_attack(p, d),
    }
}

/// Outcome of the piece `p` attacking the piece `d`.
pub open spec fn spec_attack(p: Piece, d: Piece) -> MoveResult {
    if d.owner == p.owner {
        Err(MoveError::FriendlyFire)
    } else if d.piece_type == p.piece_type {
        Ok(MoveResponse::AttackFailureMutual(d, p))
    } else if spec_triumphs(p.piece_type, d.piece_type) {
        Ok(MoveResponse::AttackSuccess(d))
    } else {
        Ok(MoveResponse::AttackFailure(p))
    }
}

/// Outcome of moving the piece `p`, which stands at (u, v), to (x, y).
pub open spec fn spec_move_of(
    cells: Seq<Option<Piece>>,
    p: Piece,
    u: usize,
    v: usize,
    x: usize,
    y: usize,
) -> MoveResult {
    if p.piece_type == PieceType::Bomb || p.piece_type == PieceType::Flag {
        Err(MoveError::Immovable)
    } else if x == u && y == v {
        Err(MoveError::NoMoveNeeded)
    } else if is_water(x as int, y as int) {
        Err(MoveError::InvalidLocation)
    } else if !in_move_range(cells, p.piece_type, u as int, v as int, x as int, y as int) {
        Err(MoveError::OutsideOfMoveRange(x, y))
    } else {
        spec_arrive(p, cells[cell_index(x as int, y as int)])
    }
}

/// Outcome of moving the piece at (u, v) to (x, y); the checks come in order
/// and the first that fails gives the error.
pub open spec fn spec_valid_move(
    cells: Seq<Option<Piece>>,
    u: usize,
    v: usize,
    x: usize,
    y: usize,
) -> MoveResult {
    if !on_board(u as int, v as int) {
        Err(MoveError::OutsideOfMoveRange(u, v))
    } else {
        match cells[cell_index(u as int, v as int)] {
            None => Err(MoveError::PieceNotFound(u, v)),
            Some(p) => spec_move_of(cells, p, u, v, x, y),
        }
    }
}

/// Outcome of moving the piece `id`, wherever it stands, to (x, y).
pub open spec fn spec_valid_move_from_id(
    cells: Seq<Option<Piece>>,
    id: u128,
    x: usize,
    y: usize,
) -> MoveResult {
    match spec_find(cells, id) {
        None => Err(MoveError::PieceDoesNotExist(id)),
        Some((u, v)) => spec_valid_move(cells, u, v, x, y),
    }
}

/// The cells after an accepted move from `src` to `dest`: the winner of the
/// destination stands there, the source is left empty.
pub open spec fn spec_apply(
    cells: Seq<Option<Piece>>,
    src: int,
    dest: int,
    outcome: MoveResponse,
) -> Seq<Option<Piece>> {
    match outcome {
        MoveResponse::Success => cells.update(dest, cells[src]).update(src, None),
        MoveResponse::AttackSuccess(_) => cells.update(dest, cells[src]).update(src, None),
        MoveResponse::AttackFailure(_) => cells.update(src, None),
        MoveResponse::AttackFailureMutual(_, _) => cells.update(dest, None).update(src, None),
    }
}

/// The cells after an attempt to move the piece `id` to (x, y).
pub open spec fn spec_after_move(
    cells: Seq<Option<Piece>>,
    id: u128,
    x: usize,
    y: usize,
) -> Seq<Option<Piece>> {
    match spec_find(cells, id) {
        Some((u, v)) => match spec_valid_move(cells, u, v, x, y) {
            Ok(o) => spec_apply(cells, cell_index(u as int, v as int), cell_index(x as int, y as int), o),
            Err(_) => cells,
        },
        None => cells,
    }
}

/// Whether (x, y) is one of the water cells.
pub fn is_water_cell(x: usize, y: usize) -> (r: bool)
    ensures
        r == is_water(x as int, y as int),
{
    (y == 4 || y == 5) && (x == 2 || x == 3 || x == 6 || x == 7)
}

/// Whether every cell strictly between (u, v) and (x, y), which share a row
/// or a column, is empty land.
fn scout_path_clear(board: &Board, u: usize, v: usize, x: usize, y: usize) -> (r: bool)
    requires
        on_board(u as int, v as int),
        on_board(x as int, y as int),
        u == x || v == y,
    ensures
        r == path_clear(board.cells(), u as int, v as int, x as int, y as int),
{
    if u == x {
        let lo = if v < y { v } else { y };
        let hi = if v < y { y } else { v };
        let mut k: usize = lo + 1;
        while k < hi
            invariant
                lo < k <= hi || (k == lo + 1 && hi <= lo + 1),
                lo == (if v < y { v } else { y }),
                hi == (if v < y { y } else { v }),
                on_board(x as int, hi as int),
                u == x,
                forall|j: int|
                    lo < j < k ==> #[trigger] board.cells()[cell_index(x as int, j)] is None
                        && !is_water(x as int, j),
            decreases hi - k,
        {
            if board.0[x + k * BOARD_WIDTH].is_some() || is_water_cell(x, k) {
                assert(strictly_between(v as int, k as int, y as int));
                assert(!(board.cells()[cell_index(x as int, k as int)] is None && !is_water(
                    x as int,
                    k as int,
                )));
                return false;
            }
            k = k + 1;
        }
        true
    } else {
        let lo = if u < x { u } else { x };
        let hi = if u < x { x } else { u };
        let mut k: usize = lo + 1;
        while k < hi
            invariant
                lo < k <= hi || (k == lo + 1 && hi <= lo + 1),
                lo == (if u < x { u } else { x }),
                hi == (if u < x { x } else { u }),
                on_board(hi as int, y as int),
                v == y,
                u != x,
                forall|j: int|
                    lo < j < k ==> #[trigger] board.cells()[cell_index(j, y as int)] is None
                        && !is_water(j, y as int),
            decreases hi - k,
        {
            if board.0[k + y * BOARD_WIDTH].is_some() || is_water_cell(k, y) {
                assert(strictly_between(u as int, k as int, x as int));
                assert(!(board.cells()[cell_index(k as int, y as int)] is None && !is_water(
                    k as int,
                    y as int,
                )));
                return false;
            }
            k = k + 1;
        }
        true
    }
}

/// Checks the move of the piece at (u, v) to (x, y) and says what it would do,
/// without changing the board.
pub fn valid_move(board: &Board, u: usize, v: usize, x: usize, y: usize) -> (r: MoveResult)
    ensures
        r == spec_valid_move(board.cells(), u, v, x, y),
{
    let piece = match board.get(u, v) {
        None => return Err(MoveError::OutsideOfMoveRange(u, v)),
        Some(None) => return Err(MoveError::PieceNotFound(u, v)),
        Some(Some(p)) => *p,
    };
    if !piece.piece_type.is_movable() {
        return Err(MoveError::Immovable);
    }
    if x == u && y == v {
        return Err(MoveError::NoMoveNeeded);
    }
    if is_water_cell(x, y) {
        return Err(MoveError::InvalidLocation);
    }
    if x >= BOARD_WIDTH || y >= BOARD_WIDTH {
        return Err(MoveError::OutsideOfMoveRange(x, y));
    }
    let in_range = if piece.piece_type == PieceType::Scout {
        (u == x || v == y) && scout_path_clear(board, u, v, x, y)
    } else {
        (x == u && (y == v + 1 || y + 1 == v)) || (y == v && (x == u + 1 || x + 1 == u))
    };
    if !in_range {
        return Err(MoveError::OutsideOfMoveRange(x, y));
    }
    match &board.0[x + y * BOARD_WIDTH] {
        None => Ok(MoveResponse::Success),
        Some(other) => {
            if other.owner == piece.owner {
                Err(MoveError::FriendlyFire)
            } else if other.piece_type == piece.piece_type {
                Ok(MoveResponse::AttackFailureMutual(*other, piece))
            } else if piece.piece_type.triumphs(&other.piece_type) {
                Ok(MoveResponse::AttackSuccess(*other))
            } else {
                Ok(MoveResponse::AttackFailure(piece))
            }
        },
    }
}

/// Checks the move of the piece `id`, wherever it stands, to (x, y).
pub fn valid_move_from_id(board: &Board, id: u128, x: usize, y: usize) -> (r: MoveResult)
    ensures
        r == spec_valid_move_from_id(board.cells(), id, x, y),
{
    match board.find(id) {
        None => Err(MoveError::PieceDoesNotExist(id)),
        Some((u, v)) => valid_move(board, u, v, x, y),
    }
}

/// Moves the piece `id` to (x, y) if the rules allow it, resolving combat.
/// On equal ranks both pieces leave the board. A refused move leaves the
/// board as it was.
pub fn move_piece(board: &mut Board, id: u128, x: usize, y: usize) -> (r: MoveResult)
    ensures
        r == spec_valid_move_from_id(old(board).cells(), id, x, y),
        final(board).cells() == spec_after_move(old(board).cells(), id, x, y),
{
    let (u, v) = match board.find(id) {
        None => return Err(MoveError::PieceDoesNotExist(id)),
        Some(pos) => pos,
    };
    let res = valid_move(board, u, v, x, y);
    match res {
        Err(e) => Err(e),
        Ok(outcome) => {
            let mover = board.0[u + v * BOARD_WIDTH];
            match outcome {
                MoveResponse::Success | MoveResponse::AttackSuccess(_) => {
                    board.set(x, y, mover);
                    board.set(u, v, None);
                },
                MoveResponse::AttackFailure(_) => {
                    board.set(u, v, None);
                },
                MoveResponse::AttackFailureMutual(_, _) => {
                    board.set(x, y, None);
                    board.set(u, v, None);
                },
            }
            Ok(outcome)
        },
    }
}

/// Manhattan distance between (u, v) and (x, y).
pub open spec fn manhattan(u: int, v: int, x: int, y: int) -> int {
    (if x >= u { x - u } else { u - x }) + (if y >= v { y - v } else { v - y })
}

/// A legal move of any piece but a Scout goes one cell along a row or a
/// column: its Manhattan distance is exactly 1 and it has no diagonal part.
pub proof fn lemma_single_step(cells: Seq<Option<Piece>>, u: usize, v: usize, x: usize, y: usize)
    requires
        spec_valid_move(cells, u, v, x, y) is Ok,
        cells[cell_index(u as int, v as int)]->Some_0.piece_type != PieceType::Scout,
    ensures
        manhattan(u as int, v as int, x as int, y as int) == 1,
        x == u || y == v,
{
}

/// A legal Scout move stays on its row or column, ends on land, and every
/// cell strictly between its ends is empty land; so the destination is empty
/// or the first occupied cell along the way.
pub proof fn lemma_scout_path(cells: Seq<Option<Piece>>, u: usize, v: usize, x: usize, y: usize)
    requires
        spec_valid_move(cells, u, v, x, y) is Ok,
        cells[cell_index(u as int, v as int)]->Some_0.piece_type == PieceType::Scout,
    ensures
        u == x || v == y,
        on_board(x as int, y as int),
        !is_water(x as int, y as int),
        u == x ==> forall|k: int|
            strictly_between(v as int, k, y as int) ==> #[trigger] cells[cell_index(x as int, k)] is None
                && !is_water(x as int, k),
        v == y ==> forall|k: int|
            strictly_between(u as int, k, x as int) ==> #[trigger] cells[cell_index(k, y as int)] is None
                && !is_water(k, y as int),
{
    if u != x && v == y {
        assert forall|k: int| strictly_between(u as int, k, x as int) implies #[trigger] cells[cell_index(k, y as int)] is None
            && !is_water(k, y as int) by {}
    }
    if u == x && v == y {
        assert(false);
    }
}

/// After an accepted move, looking the piece up again finds it at the
/// destination when it won or moved freely, and finds nothing when it lost
/// (alone or together with an equal defender). Identities on the board are
/// taken to be unique.
pub proof fn lemma_move_then_find(cells: Seq<Option<Piece>>, id: u128, x: usize, y: usize)
    requires
        cells.len() == 100,
        ids_unique(cells),
        spec_valid_move_from_id(cells, id, x, y) is Ok,
    ensures
        ({
            let after = spec_after_move(cells, id, x, y);
            match spec_valid_move_from_id(cells, id, x, y) {
                Ok(MoveResponse::Success) => spec_find(after, id) == Some((x, y)),
                Ok(MoveResponse::AttackSuccess(_)) => spec_find(after, id) == Some((x, y)),
                Ok(MoveResponse::AttackFailure(_)) => spec_find(after, id) is None,
                Ok(MoveResponse::AttackFailureMutual(_, _)) => spec_find(after, id) is None,
                Err(_) => true,
            }
        }),
{
    lemma_find_from_some(cells, id, 0);
    let i = find_from(cells, id, 0)->Some_0;
    let u = (i % 10) as usize;
    let v = (i / 10) as usize;
    assert(cell_index(u as int, v as int) == i);
    assert forall|j: int| 0 <= j < 100 && j != i implies !holds_id(#[trigger] cells[j], id) by {
        if holds_id(cells[j], id) {
            assert(cells[i] is Some && cells[j] is Some);
        }
    }
    let dest = cell_index(x as int, y as int);
    let after = spec_after_move(cells, id, x, y);
    match spec_valid_move(cells, u, v, x, y) {
        Ok(MoveResponse::Success) | Ok(MoveResponse::AttackSuccess(_)) => {
            assert(dest != i);
            assert(after == cells.update(dest, cells[i]).update(i, None));
            assert(holds_id(after[dest], id));
            assert forall|j: int| 0 <= j < 100 && j != dest implies !holds_id(#[trigger] after[j], id) by {}
            lemma_find_located(after, id, x as int, y as int);
        },
        Ok(MoveResponse::AttackFailure(_)) => {
            assert forall|j: int| 0 <= j < after.len() implies !holds_id(#[trigger] after[j], id) by {}
            lemma_find_absent(after, id);
        },
        Ok(MoveResponse::AttackFailureMutual(_, _)) => {
            assert forall|j: int| 0 <= j < after.len() implies !holds_id(#[trigger] after[j], id) by {}
            lemma_find_absent(after, id);
        },
        Err(_) => {},
    }
}

} // verus!
