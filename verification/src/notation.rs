//! Moves, squares and piece kinds as text.
//!
//! An ordinary move is the piece's letter, the origin and the target
//! (`pe2e4`); a promotion is origin, target, `=` and the new piece's letter
//! (`e7e8=q`); a capture en passant is the origin alone; castling is `ks` or
//! `qs`.
use vstd::prelude::*;
use vstd::string::{StrSliceExecFns, StringExecFns, StringSliceAdditionalSpecFns};
use crate::fen::{ParseError, spec_square, square_at};
use crate::moves::Move;
use crate::piece::PieceKind;
use crate::square::Square;

verus! {

/// The piece kind that the letter `c` stands for.
pub open spec fn kind_of(c: u8) -> Option<PieceKind> {
    if c == 'k' as u8 {
        Some(PieceKind::King)
    } else if c == 'q' as u8 {
        Some(PieceKind::Queen)
    } else if c == 'r' as u8 {
        Some(PieceKind::Rook)
    } else if c == 'b' as u8 {
        Some(PieceKind::Bishop)
    } else if c == 'n' as u8 {
        Some(PieceKind::Knight)
    } else if c == 'p' as u8 {
        Some(PieceKind::Pawn)
    } else {
        None
    }
}

/// The piece kind that `field` names.
pub open spec fn spec_kind(field: Seq<u8>) -> Result<PieceKind, ParseError> {
    if field.len() != 1 {
        Err(ParseError::PieceLength)
    } else {
        match kind_of(field[0]) {
            Some(kind) => Ok(kind),
            None => Err(ParseError::PieceLetter),
        }
    }
}

/// A pawn that goes from `origin` to `target` advances two ranks from its first rank.
pub open spec fn is_double_step(origin: Square, target: Square) -> bool {
    (origin.0 / 8 == 1 && target.0 / 8 == 3) || (origin.0 / 8 == 6 && target.0 / 8 == 4)
}

/// The ordinary move that the five characters of `s` write.
pub open spec fn spec_regular(s: Seq<u8>) -> Result<Move, ParseError> {
    match spec_kind(s.subrange(0, 1)) {
        Err(e) => Err(e),
        Ok(piece_kind) => match spec_square(s.subrange(1, 3)) {
            Err(e) => Err(e),
            Ok(origin) => match spec_square(s.subrange(3, 5)) {
                Err(e) => Err(e),
                Ok(target) => Ok(
                    Move::Regular {
                        origin,
                        target,
                        piece_kind,
                        double_push: piece_kind == PieceKind::Pawn && is_double_step(origin, target),
                    },
                ),
            },
        },
    }
}

/// The promotion that the six characters of `s` write.
pub open spec fn spec_promotion(s: Seq<u8>) -> Result<Move, ParseError> {
    match spec_square(s.subrange(0, 2)) {
        Err(e) => Err(e),
        Ok(origin) => match spec_square(s.subrange(2, 4)) {
            Err(e) => Err(e),
            Ok(target) => match spec_kind(s.subrange(5, 6)) {
                Err(e) => Err(e),
                Ok(promotion_to) => Ok(Move::Promotion { origin, target, promotion_to }),
            },
        },
    }
}

/// The move that the text `s` writes. A text that is a square is a capture
/// en passant from that square; a text of five characters is an ordinary
/// move; one of six characters with `=` as the fifth is a promotion.
pub open spec fn spec_move(s: Seq<u8>) -> Result<Move, ParseError> {
    if s =~= seq!['k' as u8, 's' as u8] {
        Ok(Move::CastleKS)
    } else if s =~= seq!['q' as u8, 's' as u8] {
        Ok(Move::CastleQS)
    } else if spec_square(s) is Ok {
        Ok(Move::EnPassant { origin: spec_square(s)->Ok_0 })
    } else if s.len() == 5 {
        spec_regular(s)
    } else if s.len() == 6 && s[4] == '=' as u8 {
        spec_promotion(s)
    } else {
        Err(ParseError::InvalidMove)
    }
}

/// Reads a piece kind from the character of `text` at `at`.
fn kind_at(text: &Vec<u8>, at: usize) -> (r: Result<PieceKind, ParseError>)
    requires
        at < text.len(),
    ensures
        r == spec_kind(text@.subrange(at as int, at + 1)),
{
    let c = text[at];
    if c == ('k' as u8) {
        Ok(PieceKind::King)
    } else if c == ('q' as u8) {
        Ok(PieceKind::Queen)
    } else if c == ('r' as u8) {
        Ok(PieceKind::Rook)
    } else if c == ('b' as u8) {
        Ok(PieceKind::Bishop)
    } else if c == ('n' as u8) {
        Ok(PieceKind::Knight)
    } else if c == ('p' as u8) {
        Ok(PieceKind::Pawn)
    } else {
        Err(ParseError::PieceLetter)
    }
}

impl PieceKind {
    /// Reads a piece kind from its lower-case letter.
    pub fn from_str(s: &str) -> (r: Result<PieceKind, ParseError>)
        ensures
            r == spec_kind(s.spec_bytes()),
    {
        let text = s.as_bytes_vec();
        if text.len() != 1 {
            Err(ParseError::PieceLength)
        } else {
            proof {
                assert(text@.subrange(0, 1) =~= text@);
            }
            kind_at(&text, 0)
        }
    }
}

impl Move {
    /// Reads a move from its text.
    pub fn from_str(s: &str) -> (r: Result<Move, ParseError>)
        ensures
            r == spec_move(s.spec_bytes()),
    {
        let text = s.as_bytes_vec();
        let n = text.len();
        if n == 2 {
            proof {
                assert(text@.subrange(0, 2) =~= text@);
            }
            if text[0] == ('k' as u8) && text[1] == ('s' as u8) {
                proof {
                    assert(text@ =~= seq!['k' as u8, 's' as u8]);
                }
                return Ok(Move::CastleKS);
            }
            if text[0] == ('q' as u8) && text[1] == ('s' as u8) {
                proof {
                    assert(text@ =~= seq!['q' as u8, 's' as u8]);
                }
                return Ok(Move::CastleQS);
            }
            match square_at(&text, 0) {
                Ok(origin) => {
                    return Ok(Move::EnPassant { origin });
                },
                Err(_) => {
                    return Err(ParseError::InvalidMove);
                },
            }
        }
        if n == 5 {
            let piece_kind = match kind_at(&text, 0) {
                Ok(kind) => kind,
                Err(e) => {
                    return Err(e);
                },
            };
            let origin = match square_at(&text, 1) {
                Ok(square) => square,
                Err(e) => {
                    return Err(e);
                },
            };
            let target = match square_at(&text, 3) {
                Ok(square) => square,
                Err(e) => {
                    return Err(e);
                },
            };
            let double_push = piece_kind == PieceKind::Pawn && ((origin.get_row() == 1
                && target.get_row() == 3) || (origin.get_row() == 6 && target.get_row() == 4));
            Ok(Move::Regular { origin, target, piece_kind, double_push })
        } else if n == 6 && text[4] == ('=' as u8) {
            let origin = match square_at(&text, 0) {
                Ok(square) => square,
                Err(e) => {
                    return Err(e);
                },
            };
            let target = match square_at(&text, 2) {
                Ok(square) => square,
                Err(e) => {
                    return Err(e);
                },
            };
            let promotion_to = match kind_at(&text, 5) {
                Ok(kind) => kind,
                Err(e) => {
                    return Err(e);
                },
            };
            Ok(Move::Promotion { origin, target, promotion_to })
        } else {
            Err(ParseError::InvalidMove)
        }
    }
}

/// The letter of file `file`, from `a` for 0 to `h` for 7.
pub open spec fn file_letter(file: int) -> char {
    if file == 0 {
        'a'
    } else if file == 1 {
        'b'
    } else if file == 2 {
        'c'
    } else if file == 3 {
        'd'
    } else if file == 4 {
        'e'
    } else if file == 5 {
        'f'
    } else if file == 6 {
        'g'
    } else {
        'h'
    }
}

/// The digit of rank `rank`, from `1` for 0 to `8` for 7.
pub open spec fn rank_digit(rank: int) -> char {
    if rank == 0 {
        '1'
    } else if rank == 1 {
        '2'
    } else if rank == 2 {
        '3'
    } else if rank == 3 {
        '4'
    } else if rank == 4 {
        '5'
    } else if rank == 5 {
        '6'
    } else if rank == 6 {
        '7'
    } else {
        '8'
    }
}

/// The text of a square: its file letter and its rank digit.
pub open spec fn square_text(square: Square) -> Seq<char> {
    seq![file_letter(square.0 as int % 8), rank_digit(square.0 as int / 8)]
}

/// The text of a move.
pub open spec fn move_text(m: Move) -> Seq<char> {
    match m {
        Move::Regular { origin, target, piece_kind, .. } => seq![piece_kind.letter()]
            + square_text(origin) + square_text(target),
        Move::Promotion { origin, target, promotion_to } => square_text(origin) + square_text(
            target,
        ) + seq!['=', promotion_to.letter()],
        Move::EnPassant { origin } => square_text(origin),
        Move::CastleKS => seq!['k', 's'],
        Move::CastleQS => seq!['q', 's'],
    }
}

fn file_str(file: u32) -> (r: &'static str)
    requires
        file < 8,
    ensures
        r@ == seq![file_letter(file as int)],
{
    proof {
        reveal_strlit("a");
        reveal_strlit("b");
        reveal_strlit("c");
        reveal_strlit("d");
        reveal_strlit("e");
        reveal_strlit("f");
        reveal_strlit("g");
        reveal_strlit("h");
    }
    let r = if file == 0 {
        "a"
    } else if file == 1 {
        "b"
    } else if file == 2 {
        "c"
    } else if file == 3 {
        "d"
    } else if file == 4 {
        "e"
    } else if file == 5 {
        "f"
    } else if file == 6 {
        "g"
    } else {
        "h"
    };
    assert(r@ =~= seq![file_letter(file as int)]);
    r
}

fn rank_str(rank: u32) -> (r: &'static str)
    requires
        rank < 8,
    ensures
        r@ == seq![rank_digit(rank as int)],
{
    proof {
        reveal_strlit("1");
        reveal_strlit("2");
        reveal_strlit("3");
        reveal_strlit("4");
        reveal_strlit("5");
        reveal_strlit("6");
        reveal_strlit("7");
        reveal_strlit("8");
    }
    let r = if rank == 0 {
        "1"
    } else if rank == 1 {
        "2"
    } else if rank == 2 {
        "3"
    } else if rank == 3 {
        "4"
    } else if rank == 4 {
        "5"
    } else if rank == 5 {
        "6"
    } else if rank == 6 {
        "7"
    } else {
        "8"
    };
    assert(r@ =~= seq![rank_digit(rank as int)]);
    r
}

fn kind_str(kind: PieceKind) -> (r: &'static str)
    ensures
        r@ == seq![kind.letter()],
{
    proof {
        reveal_strlit("k");
        reveal_strlit("q");
        reveal_strlit("r");
        reveal_strlit("b");
        reveal_strlit("n");
        reveal_strlit("p");
    }
    let r = match kind {
        PieceKind::King => "k",
        PieceKind::Queen => "q",
        PieceKind::Rook => "r",
        PieceKind::Bishop => "b",
        PieceKind::Knight => "n",
        PieceKind::Pawn => "p",
    };
    assert(r@ =~= seq![kind.letter()]);
    r
}

impl Square {
    /// The text of the square: `a1` to `h8`.
    pub fn to_string(&self) -> (r: String)
        requires
            self.wf(),
        ensures
            r@ == square_text(*self),
    {
        let mut text = String::from_str(file_str(self.0 % 8));
        text.append(rank_str(self.0 / 8));
        assert(text@ =~= square_text(*self));
        text
    }
}

impl Move {
    /// The text of the move.
    pub fn to_string(&self) -> (r: String)
        requires
            match *self {
                Move::Regular { origin, target, .. } => origin.wf() && target.wf(),
                Move::Promotion { origin, target, .. } => origin.wf() && target.wf(),
                Move::EnPassant { origin } => origin.wf(),
                _ => true,
            },
        ensures
            r@ == move_text(*self),
    {
        match *self {
            Move::Promotion { origin, target, promotion_to } => {
                proof {
                    reveal_strlit("=");
                }
                let mut text = origin.to_string();
                text.append(target.to_string().as_str());
                text.append("=");
                text.append(kind_str(promotion_to));
                assert(text@ =~= move_text(*self));
                text
            },
            Move::CastleKS => {
                proof {
                    reveal_strlit("ks");
                }
                let text = String::from_str("ks");
                assert(text@ =~= move_text(*self));
                text
            },
            Move::CastleQS => {
                proof {
                    reveal_strlit("qs");
                }
                let text = String::from_str("qs");
                assert(text@ =~= move_text(*self));
                text
            },
            Move::Regular { origin, target, piece_kind, .. } => {
                let mut text = String::from_str(kind_str(piece_kind));
                text.append(origin.to_string().as_str());
                text.append(target.to_string().as_str());
                assert(text@ =~= move_text(*self));
                text
            },
            Move::EnPassant { origin } => origin.to_string(),
        }
    }
}

} // verus!
