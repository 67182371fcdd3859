use vstd::prelude::*;
use vstd::string::StrSliceExecFns;

use crate::config::{parse_usize, usize_of};

verus! {

/// A move from an origin cell to a destination cell: a quiet move or a capture.
#[derive(Clone, Copy, Debug, PartialEq, Eq, Structural, PartialOrd, Ord, Hash)]
pub enum Move {
    Straight(usize, usize),
    Diagonal(usize, usize),
}

impl Move {
    /// The cell the moving piece starts from.
    pub fn origin(&self) -> (r: usize)
        ensures
            r == match *self {
                Move::Straight(o, _) => o,
                Move::Diagonal(o, _) => o,
            },
    {
        match *self {
            Move::Straight(o, _) => o,
            Move::Diagonal(o, _) => o,
        }
    }

    /// The cell the moving piece ends on.
    pub fn dest(&self) -> (r: usize)
        ensures
            r == match *self {
                Move::Straight(_, d) => d,
                Move::Diagonal(_, d) => d,
            },
    {
        match *self {
            Move::Straight(_, d) => d,
            Move::Diagonal(_, d) => d,
        }
    }
}

/// Why a line of move notation was not accepted.
#[derive(Clone, Copy, Debug, PartialEq, Eq, Structural)]
pub enum MoveInputError {
    /// The line is not two fields separated by a single `-`.
    ImproperlyFormatted,
    /// One of the two fields is not a cell number.
    Unparsable,
}

impl MoveInputError {
    /// The message shown to the person who typed the move.
    pub fn message(&self) -> (r: &'static str)
        ensures
            *self == MoveInputError::ImproperlyFormatted ==> r@ == "improperly formatted move"@,
            *self == MoveInputError::Unparsable ==> r@ == "couldn't parse your move"@,
    {
        match self {
            MoveInputError::ImproperlyFormatted => "improperly formatted move",
            MoveInputError::Unparsable => "couldn't parse your move",
        }
    }
}

/// The number of `-` characters in `s`.
pub open spec fn dash_count(s: Seq<char>) -> nat
    decreases s.len(),
{
    if s.len() == 0 {
        0
    } else {
        dash_count(s.drop_last()) + if s.last() == '-' { 1nat } else { 0nat }
    }
}

/// What a line of move notation `<origin>-<dest>` denotes: the split is at the one
/// `-` at position `k`, and each side must be a cell number.
pub open spec fn parsed_move(s: Seq<char>, k: int) -> Result<(usize, usize), MoveInputError> {
    let a = usize_of(s.subrange(0, k));
    let b = usize_of(s.subrange(k + 1, s.len() as int));
    if a.is_some() && b.is_some() {
        Ok((a.unwrap(), b.unwrap()))
    } else {
        Err(MoveInputError::Unparsable)
    }
}

/// Reads move notation `<origin>-<dest>` into the two cell numbers.
pub fn parse_move(input: &str) -> (r: Result<(usize, usize), MoveInputError>)
    ensures
        dash_count(input@) != 1 ==> r == Err::<(usize, usize), MoveInputError>(
            MoveInputError::ImproperlyFormatted,
        ),
        forall|k: int|
            0 <= k < input@.len() && input@[k] == '-' && dash_count(input@) == 1 ==> r
                == parsed_move(input@, k),
{
    let n = input.unicode_len();
    let mut i: usize = 0;
    let mut count: usize = 0;
    let mut split: usize = 0;
    while i < n
        invariant
            i <= n,
            n == input@.len(),
            count as nat == dash_count(input@.subrange(0, i as int)),
            count <= i,
            count >= 1 ==> split < i && input@[split as int] == '-' && dash_count(
                input@.subrange(0, split as int),
            ) == 0,
        decreases n - i,
    {
        assert(input@.subrange(0, i + 1).drop_last() =~= input@.subrange(0, i as int));
        if input.get_char(i) == '-' {
            if count == 0 {
                split = i;
            }
            count = count + 1;
        }
        i = i + 1;
    }
    assert(input@.subrange(0, n as int) =~= input@);
    if count != 1 {
        return Err(MoveInputError::ImproperlyFormatted);
    }
    proof {
        assert forall|k: int| 0 <= k < input@.len() && input@[k] == '-' implies k == split by {
            lemma_single_dash(input@, split as int, k);
        }
    }
    let a = parse_usize(input.substring_char(0, split));
    let b = parse_usize(input.substring_char(split + 1, n));
    match (a, b) {
        (Some(origin), Some(dest)) => Ok((origin, dest)),
        _ => Err(MoveInputError::Unparsable),
    }
}

/// The dashes of a prefix are counted in the whole.
proof fn lemma_dash_count_prefix(s: Seq<char>, j: int)
    requires
        0 <= j <= s.len(),
    ensures
        dash_count(s.subrange(0, j)) <= dash_count(s),
    decreases s.len() - j,
{
    if j < s.len() {
        lemma_dash_count_prefix(s, j + 1);
        assert(s.subrange(0, j + 1).drop_last() =~= s.subrange(0, j));
    } else {
        assert(s.subrange(0, j) =~= s);
    }
}

/// In a text with a single dash, found at `p` with none before it, no other position holds one.
proof fn lemma_single_dash(s: Seq<char>, p: int, k: int)
    requires
        0 <= p < s.len(),
        0 <= k < s.len(),
        s[p] == '-',
        s[k] == '-',
        dash_count(s) == 1,
        dash_count(s.subrange(0, p)) == 0,
    ensures
        k == p,
{
    if k < p {
        lemma_dash_count_prefix(s.subrange(0, p), k + 1);
        assert(s.subrange(0, p).subrange(0, k + 1) =~= s.subrange(0, k + 1));
        assert(s.subrange(0, k + 1).drop_last() =~= s.subrange(0, k));
    } else if k > p {
        assert(s.subrange(0, p + 1).drop_last() =~= s.subrange(0, p));
        lemma_dash_count_prefix(s.subrange(0, k), p + 1);
        assert(s.subrange(0, k).subrange(0, p + 1) =~= s.subrange(0, p + 1));
        assert(s.subrange(0, k + 1).drop_last() =~= s.subrange(0, k));
        lemma_dash_count_prefix(s, k + 1);
    }
}

} // verus!
