use vstd::prelude::*;
use vstd::string::StringSliceAdditionalSpecFns;

verus! {

/// One of the two teams; also says whose turn it is.
#[derive(Clone, Copy, Debug, PartialEq, Eq, Structural, Hash)]
pub enum Side {
    Red,
    Blue,
}

pub open spec fn other_side(s: Side) -> Side {
    match s {
        Side::Red => Side::Blue,
        Side::Blue => Side::Red,
    }
}

impl Side {
    /// The opposing side.
    pub fn not(self) -> (r: Side)
        ensures
            r == other_side(self),
            r != self,
    {
        match self {
            Side::Red => Side::Blue,
            Side::Blue => Side::Red,
        }
    }
}

/// The rank of a piece, from weakest to strongest, with `Unknown` below all.
#[derive(Clone, Copy, Debug, PartialEq, Eq, Structural, Hash)]
pub enum PieceType {
    Unknown,
    Flag,
    Spy,
    Scout,
    Miner,
    Sergeant,
    Lieutenant,
    Captain,
    Major,
    Colonel,
    General,
    Marshal,
    Bomb,
}

/// The number of piece types, `Unknown` included.
pub const PIECE_TYPE_COUNT: usize = 13;

/// Numeric strength of a rank: `Flag` is 0, `Bomb` is 11, `Unknown` is -1.
pub open spec fn rank_value(t: PieceType) -> int {
    match t {
        PieceType::Unknown => -1,
        PieceType::Flag => 0,
        PieceType::Spy => 1,
        PieceType::Scout => 2,
        PieceType::Miner => 3,
        PieceType::Sergeant => 4,
        PieceType::Lieutenant => 5,
        PieceType::Captain => 6,
        PieceType::Major => 7,
        PieceType::Colonel => 8,
        PieceType::General => 9,
        PieceType::Marshal => 10,
        PieceType::Bomb => 11,
    }
}

/// Position of a type in `0..PIECE_TYPE_COUNT`, used to index per-type tallies.
pub open spec fn type_index(t: PieceType) -> int {
    rank_value(t) + 1
}

/// The type at a tally position; inverse of `type_index`.
pub open spec fn type_at(i: int) -> PieceType {
    if i <= 0 {
        PieceType::Unknown
    } else if i == 1 {
        PieceType::Flag
    } else if i == 2 {
        PieceType::Spy
    } else if i == 3 {
        PieceType::Scout
    } else if i == 4 {
        PieceType::Miner
    } else if i == 5 {
        PieceType::Sergeant
    } else if i == 6 {
        PieceType::Lieutenant
    } else if i == 7 {
        PieceType::Captain
    } else if i == 8 {
        PieceType::Major
    } else if i == 9 {
        PieceType::Colonel
    } else if i == 10 {
        PieceType::General
    } else if i == 11 {
        PieceType::Marshal
    } else {
        PieceType::Bomb
    }
}

pub proof fn lemma_type_index_inverse(t: PieceType)
    ensures
        0 <= type_index(t) < PIECE_TYPE_COUNT,
        type_at(type_index(t)) == t,
{
}

/// The two rank pairs whose outcome is the reverse of the numeric order.
pub open spec fn is_inversion(a: PieceType, b: PieceType) -> bool {
    (a == PieceType::Miner && b == PieceType::Bomb) || (a == PieceType::Bomb && b
        == PieceType::Miner) || (a == PieceType::Spy && b == PieceType::Marshal) || (a
        == PieceType::Marshal && b == PieceType::Spy)
}

/// Whether an attacker of rank `a` defeats a defender of rank `b`: the higher
/// rank wins, except that a Miner defeats a Bomb and a Spy defeats a Marshal
/// (and not the other way round). Equal ranks never triumph.
pub open spec fn spec_triumphs(a: PieceType, b: PieceType) -> bool {
    if is_inversion(a, b) {
        (a == PieceType::Miner || a == PieceType::Spy)
    } else {
        rank_value(a) > rank_value(b)
    }
}

/// How many pieces of a type each side starts with (40 in all).
pub open spec fn spec_starting_count(t: PieceType) -> nat {
    match t {
        PieceType::Bomb => 6,
        PieceType::Marshal => 1,
        PieceType::General => 1,
        PieceType::Colonel => 2,
        PieceType::Major => 3,
        PieceType::Captain => 4,
        PieceType::Lieutenant => 4,
        PieceType::Sergeant => 4,
        PieceType::Miner => 5,
        PieceType::Scout => 8,
        PieceType::Spy => 1,
        PieceType::Flag => 1,
        PieceType::Unknown => 0,
    }
}

impl PieceType {
    /// Numeric strength of the rank (`Unknown` is -1).
    pub fn rank(&self) -> (r: i8)
        ensures
            r as int == rank_value(*self),
    {
        match self {
            PieceType::Unknown => -1,
            PieceType::Flag => 0,
            PieceType::Spy => 1,
            PieceType::Scout => 2,
            PieceType::Miner => 3,
            PieceType::Sergeant => 4,
            PieceType::Lieutenant => 5,
            PieceType::Captain => 6,
            PieceType::Major => 7,
            PieceType::Colonel => 8,
            PieceType::General => 9,
            PieceType::Marshal => 10,
            PieceType::Bomb => 11,
        }
    }

    /// Position of the type in a per-type tally.
    pub fn index(&self) -> (r: usize)
        ensures
            r as int == type_index(*self),
            r < PIECE_TYPE_COUNT,
    {
        (self.rank() + 1) as usize
    }

    /// The type at a tally position.
    pub fn from_index(i: usize) -> (r: PieceType)
        requires
            i < PIECE_TYPE_COUNT,
        ensures
            r == type_at(i as int),
            type_index(r) == i,
    {
        if i == 0 {
            PieceType::Unknown
        } else if i == 1 {
            PieceType::Flag
        } else if i == 2 {
            PieceType::Spy
        } else if i == 3 {
            PieceType::Scout
        } else if i == 4 {
            PieceType::Miner
        } else if i == 5 {
            PieceType::Sergeant
        } else if i == 6 {
            PieceType::Lieutenant
        } else if i == 7 {
            PieceType::Captain
        } else if i == 8 {
            PieceType::Major
        } else if i == 9 {
            PieceType::Colonel
        } else if i == 10 {
            PieceType::General
        } else if i == 11 {
            PieceType::Marshal
        } else {
            PieceType::Bomb
        }
    }

    /// Whether a piece of this rank, attacking, defeats a piece of rank `other`.
    pub fn triumphs(&self, other: &Self) -> (r: bool)
        ensures
            r == spec_triumphs(*self, *other),
    {
        match self {
            PieceType::Miner => {
                if *other == PieceType::Bomb {
                    return true;
                }
            },
            PieceType::Spy => {
                if *other == PieceType::Marshal {
                    return true;
                }
            },
            PieceType::Bomb => {
                if *other == PieceType::Miner {
                    return false;
                }
            },
            PieceType::Marshal => {
                if *other == PieceType::Spy {
                    return false;
                }
            },
            _ => {},
        }
        self.rank() > other.rank()
    }

    /// How many pieces of this type a side places at setup.
    pub fn starting_count(&self) -> (r: usize)
        ensures
            r as nat == spec_starting_count(*self),
    {
        match self {
            PieceType::Bomb => 6,
            PieceType::Marshal => 1,
            PieceType::General => 1,
            PieceType::Colonel => 2,
            PieceType::Major => 3,
            PieceType::Captain => 4,
            PieceType::Lieutenant => 4,
            PieceType::Sergeant => 4,
            PieceType::Miner => 5,
            PieceType::Scout => 8,
            PieceType::Spy => 1,
            PieceType::Flag => 1,
            PieceType::Unknown => 0,
        }
    }

    /// Bombs and the Flag never move.
    pub fn is_movable(&self) -> (r: bool)
        ensures
            r == (*self != PieceType::Bomb && *self != PieceType::Flag),
    {
        match self {
            PieceType::Bomb => false,
            PieceType::Flag => false,
            _ => true,
        }
    }
}

/// Outside the two inverted pairs, the stronger rank wins.
pub proof fn lemma_triumphs_by_rank(a: PieceType, b: PieceType)
    requires
        !is_inversion(a, b),
    ensures
        spec_triumphs(a, b) == (rank_value(a) > rank_value(b)),
{
}

/// A Miner defeats a Bomb and a Spy defeats a Marshal, never the reverse.
pub proof fn lemma_inverted_pairs()
    ensures
        spec_triumphs(PieceType::Miner, PieceType::Bomb),
        !spec_triumphs(PieceType::Bomb, PieceType::Miner),
        spec_triumphs(PieceType::Spy, PieceType::Marshal),
        !spec_triumphs(PieceType::Marshal, PieceType::Spy),
{
}

/// A piece on the board: a stable identity, an owner and a rank.
#[derive(Clone, Copy, Debug, PartialEq, Eq, Structural)]
pub struct Piece {
    pub id: u128,
    pub owner: Side,
    pub piece_type: PieceType,
}

/// The side whose lower-case name is spelled by the bytes `b`.
pub open spec fn side_named(b: Seq<u8>) -> Option<Side> {
    if b == seq![114u8, 101u8, 100u8] {
        Some(Side::Red)
    } else if b == seq![98u8, 108u8, 117u8, 101u8] {
        Some(Side::Blue)
    } else {
        None
    }
}

impl Side {
    /// The side named `name`: "red" or "blue".
    pub fn from_name(name: &str) -> (r: Option<Side>)
        ensures
            r == side_named(name.spec_bytes()),
    {
        let b = name.as_bytes();
        if b.len() == 3 && b[0] == 114u8 && b[1] == 101u8 && b[2] == 100u8 {
            proof {
                assert(b@ =~= seq![114u8, 101u8, 100u8]);
            }
            Some(Side::Red)
        } else if b.len() == 4 && b[0] == 98u8 && b[1] == 108u8 && b[2] == 117u8 && b[3] == 101u8 {
            proof {
                assert(b@ =~= seq![98u8, 108u8, 117u8, 101u8]);
            }
            Some(Side::Blue)
        } else {
            None
        }
    }
}

/// A side read from a request path segment.
#[derive(Clone, Copy, Debug, PartialEq, Eq, Structural)]
pub struct SideGard(pub Side);

impl SideGard {
    /// Reads a side named "red" or "blue"; any other segment is handed back
    /// as the error.
    pub fn from_param(param: &str) -> (r: Result<SideGard, &str>)
        ensures
            side_named(param.spec_bytes()) matches Some(s) ==> r == Ok::<SideGard, &str>(SideGard(s)),
            side_named(param.spec_bytes()) is None ==> r == Err::<SideGard, &str>(param),
    {
        match Side::from_name(param) {
            Some(side) => Ok(SideGard(side)),
            None => Err(param),
        }
    }
}

} // verus!
