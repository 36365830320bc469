//! Scramble generation: a randomized move sequence for a puzzle, with a fixed
//! length, only legal moves, and no face turned twice in a row.

use vstd::prelude::*;
use vstd::string::*;

verus! {

/// The puzzles a scramble can be generated for.
#[derive(Clone, Copy, Debug, PartialEq, Eq, Structural)]
pub enum ScrambleKind {
    Three,
}

/// A generated scramble: the puzzle it is for and its move sequence,
/// rendered as space-separated move tokens.
#[derive(Debug)]
pub struct Scramble {
    pub kind: ScrambleKind,
    pub sequence: String,
}

/// The mathematical shadow of a [`Scramble`].
pub ghost struct ScrambleV {
    pub kind: ScrambleKind,
    pub sequence: Seq<char>,
}

impl View for Scramble {
    type V = ScrambleV;

    open spec fn view(&self) -> ScrambleV {
        ScrambleV { kind: self.kind, sequence: self.sequence@ }
    }
}

impl Scramble {
    /// A field-for-field copy of this scramble.
    pub fn duplicate(&self) -> (r: Scramble)
        ensures
            r@ == self@,
    {
        Scramble { kind: self.kind, sequence: self.sequence.clone() }
    }
}

/// The face letter of a move index.
pub open spec fn move_str(m: int) -> Seq<char> {
    if m == 0 {
        seq!['U']
    } else if m == 1 {
        seq!['D']
    } else if m == 2 {
        seq!['R']
    } else if m == 3 {
        seq!['L']
    } else if m == 4 {
        seq!['F']
    } else {
        seq!['B']
    }
}

/// The suffix of a modifier index: plain, prime, or double turn.
pub open spec fn modifier_str(m: int) -> Seq<char> {
    if m == 0 {
        Seq::<char>::empty()
    } else if m == 1 {
        seq!['\'']
    } else {
        seq!['2']
    }
}

/// One rendered move token.
pub open spec fn move_token(p: (u8, u8)) -> Seq<char> {
    move_str(p.0 as int) + modifier_str(p.1 as int)
}

/// The rendered sequence: move tokens joined by single spaces.
pub open spec fn render(pairs: Seq<(u8, u8)>) -> Seq<char>
    decreases pairs.len(),
{
    if pairs.len() == 0 {
        Seq::<char>::empty()
    } else if pairs.len() == 1 {
        move_token(pairs[0])
    } else {
        render(pairs.drop_last()) + seq![' '] + move_token(pairs.last())
    }
}

/// A well-formed choice of moves: the required length, each move a legal face
/// and modifier, and no two consecutive moves on the same face.
pub open spec fn valid_pairs(pairs: Seq<(u8, u8)>, len: int) -> bool {
    &&& pairs.len() == len
    &&& forall|i: int|
        0 <= i < pairs.len() ==> (#[trigger] pairs[i]).0 < 6 && pairs[i].1 < 3
    &&& forall|i: int| 0 < i < pairs.len() ==> (#[trigger] pairs[i]).0 != pairs[i - 1].0
}

/// The text of some well-formed choice of twenty moves.
pub open spec fn valid_scramble_text(s: Seq<char>) -> bool {
    exists|pairs: Seq<(u8, u8)>| #[trigger] valid_pairs(pairs, 20) && s == render(pairs)
}

/// Relies on rand::random_range over `0..n`: the draw lies below `n`.  The
/// range must be non-empty, for random_range panics on an empty one.
#[verifier::external_body]
fn rand_below(n: usize) -> (r: usize)
    requires
        0 < n,
    ensures
        r < n,
{
    rand::random_range(0..n)
}

/// Draws twenty moves, re-mapping each draw after the first onto the five
/// faces other than the previous one, so consecutive faces always differ.
fn pick_moves() -> (pairs: Vec<(u8, u8)>)
    ensures
        valid_pairs(pairs@, 20),
{
    let mut pairs: Vec<(u8, u8)> = Vec::new();
    let mut i: usize = 0;
    while i < 20
        invariant
            i <= 20,
            pairs@.len() == i,
            forall|j: int| 0 <= j < i ==> (#[trigger] pairs@[j]).0 < 6 && pairs@[j].1 < 3,
            forall|j: int| 0 < j < i ==> (#[trigger] pairs@[j]).0 != pairs@[j - 1].0,
        decreases 20 - i,
    {
        let mv: u8 = if i == 0 {
            rand_below(6) as u8
        } else {
            let last = pairs[i - 1].0;
            let r = rand_below(5) as u8;
            if r >= last {
                r + 1
            } else {
                r
            }
        };
        let md: u8 = rand_below(3) as u8;
        pairs.push((mv, md));
        i = i + 1;
    }
    pairs
}

/// Renders the chosen moves as space-separated tokens.
fn render_pairs(pairs: &Vec<(u8, u8)>) -> (s: String)
    requires
        forall|j: int| 0 <= j < pairs@.len() ==> (#[trigger] pairs@[j]).0 < 6 && pairs@[j].1 < 3,
    ensures
        s@ == render(pairs@),
{
    let mut s = String::new();
    let mut i: usize = 0;
    while i < pairs.len()
        invariant
            i <= pairs.len(),
            s@ == render(pairs@.take(i as int)),
            forall|j: int|
                0 <= j < pairs@.len() ==> (#[trigger] pairs@[j]).0 < 6 && pairs@[j].1 < 3,
        decreases pairs.len() - i,
    {
        proof {
            reveal_strlit(" ");
            reveal_strlit("U");
            reveal_strlit("D");
            reveal_strlit("R");
            reveal_strlit("L");
            reveal_strlit("F");
            reveal_strlit("B");
            reveal_strlit("'");
            reveal_strlit("2");
        }
        if i > 0 {
            s.append(" ");
        }
        let mv = pairs[i].0;
        let md = pairs[i].1;
        if mv == 0 {
            s.append("U");
        } else if mv == 1 {
            s.append("D");
        } else if mv == 2 {
            s.append("R");
        } else if mv == 3 {
            s.append("L");
        } else if mv == 4 {
            s.append("F");
        } else {
            s.append("B");
        }
        if md == 1 {
            s.append("'");
        } else if md == 2 {
            s.append("2");
        }
        proof {
            assert("U"@ =~= seq!['U']);
            assert("D"@ =~= seq!['D']);
            assert("R"@ =~= seq!['R']);
            assert("L"@ =~= seq!['L']);
            assert("F"@ =~= seq!['F']);
            assert("B"@ =~= seq!['B']);
            assert("'"@ =~= seq!['\'']);
            assert("2"@ =~= seq!['2']);
            let p = pairs@.take(i + 1 as int);
            assert(p.drop_last() =~= pairs@.take(i as int));
            assert(p.last() == pairs@[i as int]);
            if i == 0 {
                assert(s@ =~= render(p));
            } else {
                assert(s@ =~= render(p.drop_last()) + seq![' '] + move_token(p.last()));
                assert(s@ =~= render(p));
            }
        }
        i = i + 1;
    }
    proof {
        assert(pairs@.take(pairs@.len() as int) =~= pairs@);
    }
    s
}

/// Generates a scramble for the given puzzle.  The text always renders some
/// well-formed choice of twenty moves, whatever the random draws were.
pub fn generate(kind: ScrambleKind) -> (s: Scramble)
    ensures
        s.kind == kind,
        valid_scramble_text(s.sequence@),
{
    match kind {
        ScrambleKind::Three => {
            let pairs = pick_moves();
            let sequence = render_pairs(&pairs);
            proof {
                assert(valid_pairs(pairs@, 20) && sequence@ == render(pairs@));
            }
            Scramble { kind: ScrambleKind::Three, sequence }
        },
    }
}

/// Generates a batch of scrambles of one kind.
pub fn generate_many(kind: ScrambleKind, count: usize) -> (v: Vec<Scramble>)
    ensures
        v@.len() == count,
        forall|i: int|
            0 <= i < count ==> (#[trigger] v@[i]).kind == kind && valid_scramble_text(
                v@[i].sequence@,
            ),
{
    let mut v: Vec<Scramble> = Vec::new();
    let mut i: usize = 0;
    while i < count
        invariant
            i <= count,
            v@.len() == i,
            forall|j: int|
                0 <= j < i ==> (#[trigger] v@[j]).kind == kind && valid_scramble_text(
                    v@[j].sequence@,
                ),
        decreases count - i,
    {
        v.push(generate(kind));
        i = i + 1;
    }
    v
}

} // verus!
