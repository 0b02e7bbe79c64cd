//! Positions written in Forsyth-Edwards notation:
//! `<placement> <side> <castling> <en passant> <halfmove> <fullmove>`.
use vstd::prelude::*;
use vstd::string::{StrSliceExecFns, StringSliceAdditionalSpecFns};
use crate::attacks::AttackGen;
use crate::bitboard::BitBoard;
use crate::bits::{lemma_single, lemma_single_bit, single};
use crate::board::{Board, BoardPieces, EnPassant, home, Position};
use crate::invariants::lemma_constraints_wf;
use crate::piece::{Piece, PieceKind, Player};
use crate::player_state::{lemma_place_piece, PlayerState};
use crate::sound::lemma_constraints_sound;
use crate::square::Square;

verus! {

/// Why a text is not a position, a square, a piece or a move.
#[derive(Clone, Copy, Debug, PartialEq, Eq, Structural)]
pub enum ParseError {
    /// The text does not have six parts separated by single spaces.
    PartCount,
    /// The placement does not have eight rows separated by `/`.
    RowCount,
    /// A row holds a character that is neither a piece letter nor a digit from 1 to 8.
    InvalidPiece,
    /// A row describes more than eight squares.
    RowOverflow,
    /// The side to move is not one character.
    PlayerLength,
    /// The side to move is neither `w` nor `b`.
    PlayerLetter,
    /// A square is not two characters.
    SquareLength,
    /// The file of a square is not a letter from `a` to `h`.
    SquareFile,
    /// The rank of a square is not a digit from 1 to 8.
    SquareRank,
    /// The halfmove counter is not a number.
    HalfMoves,
    /// The fullmove counter is not a number.
    FullMoves,
    /// The castling part is neither `-` nor made of the letters `KQkq`, each at most once.
    Castling,
    /// A side does not have exactly one king.
    Kings,
    /// The en-passant square does not lie directly behind a pawn of the
    /// side that has just moved, or is not empty.
    EnPassantSquare,
    /// A side has a castling right without its king and that rook on their first squares.
    CastlingRights,
    /// The side that is not to move is in check.
    Check,
    /// A piece kind is not one character.
    PieceLength,
    /// A piece kind is none of the letters `k`, `q`, `r`, `b`, `n`, `p`.
    PieceLetter,
    /// The text has the shape of no move.
    InvalidMove,
}

/// The castling rights that a position is set up with.
#[derive(Clone, Copy, Debug, PartialEq, Eq, Structural)]
pub struct Rights {
    pub white_ks: bool,
    pub white_qs: bool,
    pub black_ks: bool,
    pub black_qs: bool,
}

/// The parts of `s` between the occurrences of `sep`. There is one part
/// more than there are separators; a part can be empty.
pub open spec fn split(s: Seq<u8>, sep: u8) -> Seq<Seq<u8>>
    decreases s.len(),
{
    if s.len() == 0 {
        seq![Seq::empty()]
    } else {
        let before = split(s.drop_last(), sep);
        if s.last() == sep {
            before.push(Seq::empty())
        } else {
            before.drop_last().push(before.last().push(s.last()))
        }
    }
}

/// The contents of each of `parts`.
pub open spec fn contents(parts: Seq<Vec<u8>>) -> Seq<Seq<u8>> {
    Seq::new(parts.len(), |i: int| parts[i]@)
}

proof fn lemma_split_len(s: Seq<u8>, sep: u8)
    ensures
        split(s, sep).len() >= 1,
    decreases s.len(),
{
    if s.len() > 0 {
        lemma_split_len(s.drop_last(), sep);
    }
}

/// The piece that the letter `c` stands for: upper case for White, lower case for Black.
pub open spec fn piece_of(c: u8) -> Option<Piece> {
    if c == 'K' as u8 {
        Some(Piece { piece_kind: PieceKind::King, player: Player::White })
    } else if c == 'Q' as u8 {
        Some(Piece { piece_kind: PieceKind::Queen, player: Player::White })
    } else if c == 'R' as u8 {
        Some(Piece { piece_kind: PieceKind::Rook, player: Player::White })
    } else if c == 'B' as u8 {
        Some(Piece { piece_kind: PieceKind::Bishop, player: Player::White })
    } else if c == 'N' as u8 {
        Some(Piece { piece_kind: PieceKind::Knight, player: Player::White })
    } else if c == 'P' as u8 {
        Some(Piece { piece_kind: PieceKind::Pawn, player: Player::White })
    } else if c == 'k' as u8 {
        Some(Piece { piece_kind: PieceKind::King, player: Player::Black })
    } else if c == 'q' as u8 {
        Some(Piece { piece_kind: PieceKind::Queen, player: Player::Black })
    } else if c == 'r' as u8 {
        Some(Piece { piece_kind: PieceKind::Rook, player: Player::Black })
    } else if c == 'b' as u8 {
        Some(Piece { piece_kind: PieceKind::Bishop, player: Player::Black })
    } else if c == 'n' as u8 {
        Some(Piece { piece_kind: PieceKind::Knight, player: Player::Black })
    } else if c == 'p' as u8 {
        Some(Piece { piece_kind: PieceKind::Pawn, player: Player::Black })
    } else {
        None
    }
}

/// The piece map after the characters of `row` from number `i` on have been
/// read, with `col` squares of the row described so far. The row starts on
/// square `base`. A digit from 1 to 8 skips that many squares; a piece
/// letter puts the piece on the next square.
pub open spec fn spec_place_row(
    pieces: Seq<Option<Piece>>,
    row: Seq<u8>,
    base: int,
    col: int,
    i: int,
) -> Result<Seq<Option<Piece>>, ParseError>
    decreases row.len() - i,
{
    if i < 0 || i >= row.len() {
        Ok(pieces)
    } else if '1' as u8 <= row[i] <= '8' as u8 {
        if col + (row[i] - '0' as u8) > 8 {
            Err(ParseError::RowOverflow)
        } else {
            spec_place_row(pieces, row, base, col + (row[i] - '0' as u8), i + 1)
        }
    } else {
        match piece_of(row[i]) {
            None => Err(ParseError::InvalidPiece),
            Some(piece) => if col >= 8 {
                Err(ParseError::RowOverflow)
            } else {
                spec_place_row(pieces.update(base + col, Some(piece)), row, base, col + 1, i + 1)
            },
        }
    }
}

/// The piece map after the rows from number `r` on have been read. The
/// first row is the eighth rank.
pub open spec fn spec_place_rows(pieces: Seq<Option<Piece>>, rows: Seq<Seq<u8>>, r: int) -> Result<
    Seq<Option<Piece>>,
    ParseError,
>
    decreases 8 - r,
{
    if r < 0 || r >= 8 {
        Ok(pieces)
    } else {
        match spec_place_row(pieces, rows[r], 56 - 8 * r, 0, 0) {
            Err(e) => Err(e),
            Ok(next) => spec_place_rows(next, rows, r + 1),
        }
    }
}

/// The piece map of the empty board.
pub open spec fn empty_map() -> Seq<Option<Piece>> {
    Seq::new(64, |i: int| None)
}

/// The piece map that a placement describes.
pub open spec fn spec_placement(field: Seq<u8>) -> Result<Seq<Option<Piece>>, ParseError> {
    let rows = split(field, '/' as u8);
    if rows.len() != 8 {
        Err(ParseError::RowCount)
    } else {
        spec_place_rows(empty_map(), rows, 0)
    }
}

/// The side that `field` names.
pub open spec fn spec_player(field: Seq<u8>) -> Result<Player, ParseError> {
    if field.len() != 1 {
        Err(ParseError::PlayerLength)
    } else if field[0] == 'w' as u8 {
        Ok(Player::White)
    } else if field[0] == 'b' as u8 {
        Ok(Player::Black)
    } else {
        Err(ParseError::PlayerLetter)
    }
}

/// The square that `field` names: a file letter and a rank digit.
pub open spec fn spec_square(field: Seq<u8>) -> Result<Square, ParseError> {
    if field.len() != 2 {
        Err(ParseError::SquareLength)
    } else if !('a' as u8 <= field[0] <= 'h' as u8) {
        Err(ParseError::SquareFile)
    } else if !('1' as u8 <= field[1] <= '8' as u8) {
        Err(ParseError::SquareRank)
    } else {
        Ok(Square(((field[0] - 'a' as u8) + 8 * (field[1] - '1' as u8)) as u32))
    }
}

/// The en-passant square that `field` names, if it names one: `-` names none.
pub open spec fn spec_ep_square(field: Seq<u8>) -> Result<Option<Square>, ParseError> {
    if field =~= seq!['-' as u8] {
        Ok(None)
    } else {
        match spec_square(field) {
            Ok(square) => Ok(Some(square)),
            Err(e) => Err(e),
        }
    }
}

/// The number that the decimal digits `s` write.
pub open spec fn digits_value(s: Seq<u8>) -> nat
    decreases s.len(),
{
    if s.len() == 0 {
        0
    } else {
        (digits_value(s.drop_last()) * 10 + (s.last() - '0' as u8)) as nat
    }
}

/// Every character of `s` is a decimal digit.
pub open spec fn all_digits(s: Seq<u8>) -> bool {
    forall|i: int| 0 <= i < s.len() ==> '0' as u8 <= #[trigger] s[i] <= '9' as u8
}

/// The digits of a number: all of it but an optional `+` in front.
pub open spec fn number_digits(field: Seq<u8>) -> Seq<u8> {
    if field.len() > 0 && field[0] == '+' as u8 {
        field.skip(1)
    } else {
        field
    }
}

/// The number that `field` writes: decimal digits, at least one, after an
/// optional `+`, with a value that fits in 32 bits.
pub open spec fn spec_number(field: Seq<u8>) -> Option<u32> {
    let digits = number_digits(field);
    if digits.len() > 0 && all_digits(digits) && digits_value(digits) <= u32::MAX {
        Some(digits_value(digits) as u32)
    } else {
        None
    }
}

/// One if `b` holds, zero if not.
pub open spec fn one_if(b: bool) -> int {
    if b {
        1
    } else {
        0
    }
}

/// The castling rights that `field` gives: none for `-`; else a right for
/// each of the letters `KQkq` in it, and nothing else may be in it.
pub open spec fn spec_castling(field: Seq<u8>) -> Result<Rights, ParseError> {
    let rights = Rights {
        white_ks: field.contains('K' as u8),
        white_qs: field.contains('Q' as u8),
        black_ks: field.contains('k' as u8),
        black_qs: field.contains('q' as u8),
    };
    if field =~= seq!['-' as u8] {
        Ok(Rights { white_ks: false, white_qs: false, black_ks: false, black_qs: false })
    } else if one_if(rights.white_ks) + one_if(rights.white_qs) + one_if(rights.black_ks) + one_if(
        rights.black_qs,
    ) != field.len() {
        Err(ParseError::Castling)
    } else {
        Ok(rights)
    }
}

/// The position that the text `s` describes, with the constraints on the
/// side to move computed; or why it describes none. The parts are looked
/// at in the order placement, side, en passant, halfmoves, fullmoves,
/// castling, and the first fault found is the one reported. The fullmove
/// counter is read and not kept.
pub open spec fn spec_fen(s: Seq<u8>) -> Result<Position, ParseError> {
    let parts = split(s, ' ' as u8);
    if parts.len() != 6 {
        Err(ParseError::PartCount)
    } else {
        match spec_placement(parts[0]) {
            Err(e) => Err(e),
            Ok(pieces) => match spec_player(parts[1]) {
                Err(e) => Err(e),
                Ok(player) => match spec_ep_square(parts[3]) {
                    Err(e) => Err(e),
                    Ok(ep) => if spec_number(parts[4]) is None {
                        Err(ParseError::HalfMoves)
                    } else if spec_number(parts[5]) is None {
                        Err(ParseError::FullMoves)
                    } else {
                        match spec_castling(parts[2]) {
                            Err(e) => Err(e),
                            Ok(rights) => spec_assemble(
                                pieces,
                                player,
                                rights,
                                ep,
                                spec_number(parts[4])->0,
                            ),
                        }
                    },
                },
            },
        }
    }
}

/// The pieces of `player` among those on the first `n` squares of `pieces`,
/// as the state of one side.
pub open spec fn placed(pieces: Seq<Option<Piece>>, player: Player, n: int) -> PlayerState
    decreases n,
{
    if n <= 0 {
        PlayerState::spec_blank()
    } else {
        let before = placed(pieces, player, n - 1);
        match pieces[n - 1] {
            Some(piece) => if piece.player == player {
                before.spec_place_piece(piece.piece_kind, Square((n - 1) as u32))
            } else {
                before
            },
            None => before,
        }
    }
}

/// The state of `player` in a position set up from `pieces` with `rights`.
pub open spec fn side_of(pieces: Seq<Option<Piece>>, player: Player, rights: Rights) -> PlayerState {
    PlayerState {
        can_castle_ks: match player {
            Player::White => rights.white_ks,
            Player::Black => rights.black_ks,
        },
        can_castle_qs: match player {
            Player::White => rights.white_qs,
            Player::Black => rights.black_qs,
        },
        ..placed(pieces, player, 64)
    }
}

/// The en-passant state for a capture that lands on `ep`, with `player` to
/// move: the pawn to capture stands one rank nearer to the side to move.
pub open spec fn ep_state(player: Player, ep: Option<Square>) -> EnPassant {
    match ep {
        None => EnPassant::spec_new(),
        Some(square) => EnPassant {
            capture_point: BitBoard(1u64 << square.0),
            pawn: BitBoard(
                match player {
                    Player::White => (1u64 << square.0) >> 8,
                    Player::Black => (1u64 << square.0) << 8,
                },
            ),
        },
    }
}

/// The en-passant square fits the pieces: it is empty, and directly behind
/// it, seen from the side that has just moved, stands a pawn of that side.
pub open spec fn ep_fits(pieces: Seq<Option<Piece>>, player: Player, ep: Option<Square>) -> bool {
    match ep {
        None => true,
        Some(square) => {
            &&& square.wf()
            &&& pieces[square.0 as int] is None
            &&& match player {
                Player::White => square.0 >= 8 && pieces[square.0 - 8] == Some(
                    Piece { piece_kind: PieceKind::Pawn, player: Player::Black },
                ),
                Player::Black => square.0 < 56 && pieces[square.0 + 8] == Some(
                    Piece { piece_kind: PieceKind::Pawn, player: Player::White },
                ),
            }
        },
    }
}

/// The position set up from its parts, before anything is checked or computed.
pub open spec fn spec_raw(
    pieces: Seq<Option<Piece>>,
    player: Player,
    rights: Rights,
    ep: Option<Square>,
    half_moves: u32,
) -> Position {
    Position {
        moving_player: side_of(pieces, player, rights),
        moved_player: side_of(pieces, player.opponent(), rights),
        current_player: player,
        ep_info: ep_state(player, ep),
        pieces,
        half_moves,
    }
}

/// The position set up from its parts, with the constraints on the side to
/// move computed; or why the parts make no position: a side without its
/// one king, an en-passant square or castling rights that do not fit the
/// pieces, or a check to the side that is not to move.
pub open spec fn spec_assemble(
    pieces: Seq<Option<Piece>>,
    player: Player,
    rights: Rights,
    ep: Option<Square>,
    half_moves: u32,
) -> Result<Position, ParseError> {
    let raw = spec_raw(pieces, player, rights, ep, half_moves);
    if !single(raw.moving_player.king.0) || !single(raw.moved_player.king.0) {
        Err(ParseError::Kings)
    } else if !ep_fits(pieces, player, ep) {
        Err(ParseError::EnPassantSquare)
    } else if !raw.castling_wf() {
        Err(ParseError::CastlingRights)
    } else if !raw.guarded() {
        Err(ParseError::Check)
    } else {
        Ok(raw.spec_update_move_constraints())
    }
}

/// Cuts `s` at every occurrence of `sep`.
pub fn split_bytes(s: &Vec<u8>, sep: u8) -> (parts: Vec<Vec<u8>>)
    ensures
        contents(parts@) == split(s@, sep),
{
    let mut parts: Vec<Vec<u8>> = Vec::new();
    let mut current: Vec<u8> = Vec::new();
    let mut i: usize = 0;
    proof {
        assert(s@.take(0) =~= Seq::<u8>::empty());
        assert(contents(parts@).push(current@) =~= split(s@.take(0), sep));
    }
    while i < s.len()
        invariant
            0 <= i <= s.len(),
            contents(parts@).push(current@) == split(s@.take(i as int), sep),
        decreases s.len() - i,
    {
        let ghost before = split(s@.take(i as int), sep);
        proof {
            assert(s@.take(i + 1).drop_last() =~= s@.take(i as int));
            assert(before.last() == current@);
            assert(before.drop_last() =~= contents(parts@));
        }
        if s[i] == sep {
            parts.push(current);
            current = Vec::new();
            proof {
                assert(contents(parts@).push(current@) =~= before.push(Seq::empty()));
            }
        } else {
            current.push(s[i]);
            proof {
                assert(contents(parts@).push(current@) =~= before.drop_last().push(
                    before.last().push(s@[i as int]),
                ));
            }
        }
        i = i + 1;
    }
    proof {
        assert(s@.take(i as int) =~= s@);
    }
    parts.push(current);
    proof {
        assert(contents(parts@) =~= split(s@, sep));
    }
    parts
}

/// The piece that a letter stands for.
pub fn piece_from_letter(c: u8) -> (r: Option<Piece>)
    ensures
        r == piece_of(c),
{
    if c == ('K' as u8) {
        Some(Piece { piece_kind: PieceKind::King, player: Player::White })
    } else if c == ('Q' as u8) {
        Some(Piece { piece_kind: PieceKind::Queen, player: Player::White })
    } else if c == ('R' as u8) {
        Some(Piece { piece_kind: PieceKind::Rook, player: Player::White })
    } else if c == ('B' as u8) {
        Some(Piece { piece_kind: PieceKind::Bishop, player: Player::White })
    } else if c == ('N' as u8) {
        Some(Piece { piece_kind: PieceKind::Knight, player: Player::White })
    } else if c == ('P' as u8) {
        Some(Piece { piece_kind: PieceKind::Pawn, player: Player::White })
    } else if c == ('k' as u8) {
        Some(Piece { piece_kind: PieceKind::King, player: Player::Black })
    } else if c == ('q' as u8) {
        Some(Piece { piece_kind: PieceKind::Queen, player: Player::Black })
    } else if c == ('r' as u8) {
        Some(Piece { piece_kind: PieceKind::Rook, player: Player::Black })
    } else if c == ('b' as u8) {
        Some(Piece { piece_kind: PieceKind::Bishop, player: Player::Black })
    } else if c == ('n' as u8) {
        Some(Piece { piece_kind: PieceKind::Knight, player: Player::Black })
    } else if c == ('p' as u8) {
        Some(Piece { piece_kind: PieceKind::Pawn, player: Player::Black })
    } else {
        None
    }
}

/// Reads one row of a placement into `pieces`, from square `base` on.
fn place_row(pieces: &mut BoardPieces, row: &Vec<u8>, base: usize) -> (r: Result<(), ParseError>)
    requires
        base <= 56,
    ensures
        match r {
            Ok(()) => spec_place_row(old(pieces)@, row@, base as int, 0, 0) == Ok::<
                Seq<Option<Piece>>,
                ParseError,
            >(final(pieces)@),
            Err(e) => spec_place_row(old(pieces)@, row@, base as int, 0, 0) == Err::<
                Seq<Option<Piece>>,
                ParseError,
            >(e),
        },
{
    let mut col: usize = 0;
    let mut i: usize = 0;
    while i < row.len()
        invariant
            0 <= i <= row.len(),
            col <= 8,
            base <= 56,
            spec_place_row(old(pieces)@, row@, base as int, 0, 0) == spec_place_row(
                pieces@,
                row@,
                base as int,
                col as int,
                i as int,
            ),
        decreases row.len() - i,
    {
        let c = row[i];
        if ('1' as u8) <= c && c <= ('8' as u8) {
            col = col + (c - ('0' as u8)) as usize;
            if col > 8 {
                return Err(ParseError::RowOverflow);
            }
        } else {
            match piece_from_letter(c) {
                None => {
                    return Err(ParseError::InvalidPiece);
                },
                Some(piece) => {
                    if col >= 8 {
                        return Err(ParseError::RowOverflow);
                    }
                    pieces.pieces[base + col] = Some(piece);
                    col = col + 1;
                },
            }
        }
        i = i + 1;
    }
    Ok(())
}

impl BoardPieces {
    /// Reads the placement part of a position: eight rows separated by `/`,
    /// from the eighth rank down.
    pub fn from_str(s: &str) -> (r: Result<BoardPieces, ParseError>)
        ensures
            match r {
                Ok(pieces) => spec_placement(s.spec_bytes()) == Ok::<
                    Seq<Option<Piece>>,
                    ParseError,
                >(pieces@),
                Err(e) => spec_placement(s.spec_bytes()) == Err::<Seq<Option<Piece>>, ParseError>(e),
            },
    {
        let bytes = s.as_bytes_vec();
        placement_from_bytes(&bytes)
    }
}

fn placement_from_bytes(field: &Vec<u8>) -> (r: Result<BoardPieces, ParseError>)
    ensures
        match r {
            Ok(pieces) => spec_placement(field@) == Ok::<Seq<Option<Piece>>, ParseError>(pieces@),
            Err(e) => spec_placement(field@) == Err::<Seq<Option<Piece>>, ParseError>(e),
        },
{
    let rows = split_bytes(field, ('/' as u8));
    if rows.len() != 8 {
        return Err(ParseError::RowCount);
    }
    let mut pieces = BoardPieces::empty();
    let ghost blank = pieces@;
    let ghost lines = split(field@, '/' as u8);
    proof {
        assert(blank =~= empty_map());
    }
    let mut r: usize = 0;
    while r < 8
        invariant
            0 <= r <= 8,
            rows.len() == 8,
            blank == empty_map(),
            lines == split(field@, '/' as u8),
            contents(rows@) == lines,
            spec_place_rows(blank, lines, 0) == spec_place_rows(pieces@, lines, r as int),
        decreases 8 - r,
    {
        let ghost before = pieces@;
        assert(lines[r as int] == rows@[r as int]@);
        match place_row(&mut pieces, &rows[r], 56 - 8 * r) {
            Err(e) => {
                assert(spec_place_rows(before, lines, r as int) == Err::<
                    Seq<Option<Piece>>,
                    ParseError,
                >(e));
                return Err(e);
            },
            Ok(()) => {
                assert(spec_place_rows(before, lines, r as int) == spec_place_rows(
                    pieces@,
                    lines,
                    r + 1,
                ));
            },
        }
        r = r + 1;
    }
    Ok(pieces)
}

impl Player {
    /// Reads the side to move: `w` or `b`.
    pub fn from_str(s: &str) -> (r: Result<Player, ParseError>)
        ensures
            r == spec_player(s.spec_bytes()),
    {
        let bytes = s.as_bytes_vec();
        player_from_bytes(&bytes)
    }
}

fn player_from_bytes(field: &Vec<u8>) -> (r: Result<Player, ParseError>)
    ensures
        r == spec_player(field@),
{
    if field.len() != 1 {
        Err(ParseError::PlayerLength)
    } else if field[0] == ('w' as u8) {
        Ok(Player::White)
    } else if field[0] == ('b' as u8) {
        Ok(Player::Black)
    } else {
        Err(ParseError::PlayerLetter)
    }
}

impl Square {
    /// Reads a square: a file letter from `a` to `h` and a rank digit from 1 to 8.
    pub fn from_str(s: &str) -> (r: Result<Square, ParseError>)
        ensures
            r == spec_square(s.spec_bytes()),
            r is Ok ==> r->Ok_0.wf(),
    {
        let bytes = s.as_bytes_vec();
        square_from_bytes(&bytes)
    }
}

/// Reads a square from its two characters.
pub fn square_from_bytes(field: &Vec<u8>) -> (r: Result<Square, ParseError>)
    ensures
        r == spec_square(field@),
        r is Ok ==> r->Ok_0.wf(),
{
    if field.len() != 2 {
        Err(ParseError::SquareLength)
    } else {
        proof {
            assert(field@.subrange(0, 2) =~= field@);
        }
        square_at(field, 0)
    }
}

/// Reads a square from the two characters of `text` that start at `at`.
pub fn square_at(text: &Vec<u8>, at: usize) -> (r: Result<Square, ParseError>)
    requires
        at + 2 <= text.len(),
    ensures
        r == spec_square(text@.subrange(at as int, at + 2)),
        r is Ok ==> r->Ok_0.wf(),
{
    let file = text[at];
    let rank = text[at + 1];
    if !(('a' as u8) <= file && file <= ('h' as u8)) {
        Err(ParseError::SquareFile)
    } else if !(('1' as u8) <= rank && rank <= ('8' as u8)) {
        Err(ParseError::SquareRank)
    } else {
        Ok(Square((file - ('a' as u8)) as u32 + 8 * ((rank - ('1' as u8)) as u32)))
    }
}

/// A longer row of digits writes a number that is no smaller.
proof fn lemma_digits_grow(s: Seq<u8>, n: int)
    requires
        0 <= n <= s.len(),
        all_digits(s),
    ensures
        digits_value(s.take(n)) <= digits_value(s),
    decreases s.len(),
{
    if n < s.len() {
        assert(all_digits(s.drop_last())) by {
            assert forall|i: int| 0 <= i < s.drop_last().len() implies '0' as u8
                <= #[trigger] s.drop_last()[i] <= '9' as u8 by {
                assert(s.drop_last()[i] == s[i]);
            }
        }
        lemma_digits_grow(s.drop_last(), n);
        assert(s.drop_last().take(n) =~= s.take(n));
        assert(s.last() == s[s.len() - 1]);
    } else {
        assert(s.take(n) =~= s);
    }
}

/// Reads a number of at most 32 bits, written in decimal digits after an optional `+`.
pub fn number_from_bytes(field: &Vec<u8>) -> (r: Option<u32>)
    ensures
        r == spec_number(field@),
{
    let start: usize = if field.len() > 0 && field[0] == ('+' as u8) {
        1
    } else {
        0
    };
    let ghost digits = number_digits(field@);
    proof {
        assert(field@.skip(0) =~= field@);
        assert(digits =~= field@.skip(start as int));
    }
    if start >= field.len() {
        return None;
    }
    let mut value: u64 = 0;
    let mut i: usize = start;
    proof {
        assert(digits.take(0) =~= Seq::<u8>::empty());
    }
    while i < field.len()
        invariant
            start <= i <= field.len(),
            digits == number_digits(field@),
            digits == field@.skip(start as int),
            value == digits_value(digits.take(i - start)),
            value <= u32::MAX,
            all_digits(digits.take(i - start)),
        decreases field.len() - i,
    {
        let c = field[i];
        let ghost k = i - start;
        proof {
            assert(digits[k] == c);
            assert(digits.take(k + 1).drop_last() =~= digits.take(k));
            assert(digits.take(k + 1).last() == c);
        }
        if c < ('0' as u8) || c > ('9' as u8) {
            proof {
                assert(!('0' as u8 <= digits[k] <= '9' as u8));
                assert(!all_digits(digits));
            }
            return None;
        }
        value = value * 10 + (c - ('0' as u8)) as u64;
        proof {
            assert forall|j: int| 0 <= j < digits.take(k + 1).len() implies '0' as u8
                <= #[trigger] digits.take(k + 1)[j] <= '9' as u8 by {
                if j < k {
                    assert(digits.take(k)[j] == digits.take(k + 1)[j]);
                }
            }
        }
        if value > u32::MAX as u64 {
            proof {
                if all_digits(digits) {
                    lemma_digits_grow(digits, k + 1);
                }
            }
            return None;
        }
        i = i + 1;
    }
    proof {
        assert(digits.take(i - start) =~= digits);
    }
    Some(value as u32)
}

/// Whether the byte `c` occurs in `field`.
fn contains_byte(field: &Vec<u8>, c: u8) -> (r: bool)
    ensures
        r == field@.contains(c),
{
    let mut i: usize = 0;
    while i < field.len()
        invariant
            0 <= i <= field.len(),
            forall|j: int| 0 <= j < i ==> field@[j] != c,
        decreases field.len() - i,
    {
        if field[i] == c {
            return true;
        }
        i = i + 1;
    }
    false
}

/// Reads the castling part of a position.
pub fn castling_from_bytes(field: &Vec<u8>) -> (r: Result<Rights, ParseError>)
    ensures
        r == spec_castling(field@),
{
    if field.len() == 1 && field[0] == ('-' as u8) {
        proof {
            assert(field@ =~= seq!['-' as u8]);
        }
        return Ok(Rights { white_ks: false, white_qs: false, black_ks: false, black_qs: false });
    }
    let rights = Rights {
        white_ks: contains_byte(field, 'K' as u8),
        white_qs: contains_byte(field, 'Q' as u8),
        black_ks: contains_byte(field, 'k' as u8),
        black_qs: contains_byte(field, 'q' as u8),
    };
    let mut count: usize = 0;
    if rights.white_ks {
        count = count + 1;
    }
    if rights.white_qs {
        count = count + 1;
    }
    if rights.black_ks {
        count = count + 1;
    }
    if rights.black_qs {
        count = count + 1;
    }
    if count != field.len() {
        Err(ParseError::Castling)
    } else {
        Ok(rights)
    }
}

/// What `placed` holds on each square: the pieces of `player` on the
/// squares below `n`, and nothing else.
pub proof fn lemma_placed(pieces: Seq<Option<Piece>>, player: Player, n: int, sq: int)
    requires
        0 <= n <= 64,
        0 <= sq < 64,
        pieces.len() == 64,
    ensures
        match pieces[sq] {
            Some(piece) => if piece.player == player && sq < n {
                placed(pieces, player, n).holds(piece.piece_kind, sq)
            } else {
                placed(pieces, player, n).vacant(sq)
            },
            None => placed(pieces, player, n).vacant(sq),
        },
    decreases n,
{
    if n > 0 {
        lemma_placed(pieces, player, n - 1, sq);
        lemma_placed(pieces, player, n - 1, n - 1);
        let before = placed(pieces, player, n - 1);
        match pieces[n - 1] {
            Some(piece) => {
                if piece.player == player {
                    lemma_place_piece(before, piece.piece_kind, Square((n - 1) as u32), sq);
                }
            },
            None => {},
        }
    } else {
        assert forall|i: int| !crate::bits::bit(0, i) by {
            crate::bits::lemma_bit_consts(0, i);
        }
    }
}

/// Collects the pieces of `player` from the piece map.
fn side_from(pieces: &BoardPieces, player: Player) -> (r: PlayerState)
    ensures
        r == placed(pieces@, player, 64),
{
    let mut state = PlayerState::blank();
    let mut i: usize = 0;
    while i < 64
        invariant
            0 <= i <= 64,
            state == placed(pieces@, player, i as int),
        decreases 64 - i,
    {
        match pieces.pieces[i] {
            Some(piece) => {
                if piece.player == player {
                    state.place_piece(piece.piece_kind, Square(i as u32));
                }
            },
            None => {},
        }
        i = i + 1;
    }
    state
}

/// Whether `player` has a piece of `kind` on square `sq`.
fn has_piece(pieces: &BoardPieces, sq: usize, kind: PieceKind, player: Player) -> (r: bool)
    requires
        sq < 64,
    ensures
        r == (pieces@[sq as int] == Some(Piece { piece_kind: kind, player })),
{
    match pieces.pieces[sq] {
        Some(piece) => piece.piece_kind == kind && piece.player == player,
        None => false,
    }
}

/// Whether the castling rights `ks` and `qs` of `player` fit the pieces.
fn rights_fit(pieces: &BoardPieces, player: Player, ks: bool, qs: bool) -> (r: bool)
    ensures
        r == ((ks ==> pieces@[home(player) + 4] == Some(
            Piece { piece_kind: PieceKind::King, player },
        ) && pieces@[home(player) + 7] == Some(Piece { piece_kind: PieceKind::Rook, player })) && (
        qs ==> pieces@[home(player) + 4] == Some(Piece { piece_kind: PieceKind::King, player })
            && pieces@[home(player)] == Some(Piece { piece_kind: PieceKind::Rook, player }))),
{
    let base: usize = match player {
        Player::White => 0,
        Player::Black => 56,
    };
    let king = has_piece(pieces, base + 4, PieceKind::King, player);
    let right = has_piece(pieces, base + 7, PieceKind::Rook, player);
    let left = has_piece(pieces, base, PieceKind::Rook, player);
    (!ks || (king && right)) && (!qs || (king && left))
}

/// Whether a capture en passant that lands on `ep` fits the pieces.
fn ep_square_fits(pieces: &BoardPieces, player: Player, ep: Option<Square>) -> (r: bool)
    ensures
        r == ep_fits(pieces@, player, ep),
{
    match ep {
        None => true,
        Some(square) => {
            if square.0 >= 64 {
                return false;
            }
            let empty = match pieces.pieces[square.0 as usize] {
                None => true,
                Some(_) => false,
            };
            empty && match player {
                Player::White => square.0 >= 8 && has_piece(
                    pieces,
                    (square.0 - 8) as usize,
                    PieceKind::Pawn,
                    Player::Black,
                ),
                Player::Black => square.0 < 56 && has_piece(
                    pieces,
                    (square.0 + 8) as usize,
                    PieceKind::Pawn,
                    Player::White,
                ),
            }
        },
    }
}

/// A position set up from parts that fit together has well-formed pieces.
proof fn lemma_raw_wf(
    pieces: Seq<Option<Piece>>,
    player: Player,
    rights: Rights,
    ep: Option<Square>,
    half_moves: u32,
)
    requires
        pieces.len() == 64,
        spec_assemble(pieces, player, rights, ep, half_moves) is Ok,
    ensures
        spec_raw(pieces, player, rights, ep, half_moves).wf_placement(),
{
    let raw = spec_raw(pieces, player, rights, ep, half_moves);
    assert forall|sq: int| 0 <= sq < 64 implies #[trigger] raw.agrees_at(sq) by {
        lemma_placed(pieces, player, 64, sq);
        lemma_placed(pieces, player.opponent(), 64, sq);
    }
    match ep {
        None => {},
        Some(square) => {
            lemma_single_bit(square.0 as u64);
            match player {
                Player::White => {
                    lemma_single_bit((square.0 - 8) as u64);
                },
                Player::Black => {
                    lemma_single_bit((square.0 + 8) as u64);
                },
            }
        },
    }
}

/// Collects both sides from the piece map, the side to move first.
fn sides_from(pieces: &BoardPieces, current_player: Player, rights: Rights) -> (r: (
    PlayerState,
    PlayerState,
))
    ensures
        r.0 == side_of(pieces@, current_player, rights),
        r.1 == side_of(pieces@, current_player.opponent(), rights),
{
    let mut white = side_from(pieces, Player::White);
    let mut black = side_from(pieces, Player::Black);
    white.can_castle_ks = rights.white_ks;
    white.can_castle_qs = rights.white_qs;
    black.can_castle_ks = rights.black_ks;
    black.can_castle_qs = rights.black_qs;
    match current_player {
        Player::White => (white, black),
        Player::Black => (black, white),
    }
}

/// The en-passant state for a capture that lands on `ep`.
fn ep_from(current_player: Player, ep: Option<Square>) -> (r: EnPassant)
    requires
        ep is Some ==> ep->0.wf(),
    ensures
        r == ep_state(current_player, ep),
{
    match ep {
        None => EnPassant::new(),
        Some(square) => {
            let capture_point = BitBoard::from(square);
            EnPassant {
                capture_point,
                pawn: match current_player {
                    Player::White => capture_point.move_down(1),
                    Player::Black => capture_point.move_up(1),
                },
            }
        },
    }
}

impl Board {
    /// Sets up a position from its piece map, the side to move, the
    /// castling rights, the square where a capture en passant lands, and the
    /// halfmove counter, and computes the constraints on the side to move.
    /// The parts must fit together: one king a side, an en-passant square
    /// behind a pawn that can have advanced, castling rights only with king
    /// and rook in place.
    pub fn from_parts(
        pieces: BoardPieces,
        current_player: Player,
        rights: Rights,
        ep: Option<Square>,
        half_moves: u32,
    ) -> (r: Result<Board, ParseError>)
        ensures
            match r {
                Ok(board) => spec_assemble(pieces@, current_player, rights, ep, half_moves) == Ok::<
                    Position,
                    ParseError,
                >(board@) && board@.wf() && board@.sound(),
                Err(e) => spec_assemble(pieces@, current_player, rights, ep, half_moves) == Err::<
                    Position,
                    ParseError,
                >(e),
            },
    {
        let ghost raw = spec_raw(pieces@, current_player, rights, ep, half_moves);
        let (moving_player, moved_player) = sides_from(&pieces, current_player, rights);
        if !moving_player.king.is_single_1() || !moved_player.king.is_single_1() {
            return Err(ParseError::Kings);
        }
        if !ep_square_fits(&pieces, current_player, ep) {
            return Err(ParseError::EnPassantSquare);
        }
        let fits = rights_fit(
            &pieces,
            current_player,
            moving_player.can_castle_ks,
            moving_player.can_castle_qs,
        ) && rights_fit(
            &pieces,
            current_player.not(),
            moved_player.can_castle_ks,
            moved_player.can_castle_qs,
        );
        assert(fits == raw.castling_wf());
        if !fits {
            return Err(ParseError::CastlingRights);
        }
        let mut attack_gen = AttackGen {
            attacking_player: moving_player,
            empty_squares: BitBoard(!(moving_player.occupied.0 | moved_player.occupied.0)),
            attacks: BitBoard::empty(),
        };
        proof {
            lemma_single(raw.moving_player.king.0);
            assert(attack_gen == raw.mover_gen());
        }
        attack_gen.gen_attacks(current_player);
        if (attack_gen.attacks.0 & moved_player.king.0) != 0 {
            return Err(ParseError::Check);
        }
        let ep_info = ep_from(current_player, ep);
        let mut board = Board {
            moving_player,
            moved_player,
            current_player,
            ep_info,
            pieces,
            half_moves,
        };
        proof {
            assert(board@ == raw);
            lemma_raw_wf(pieces@, current_player, rights, ep, half_moves);
            lemma_constraints_wf(raw);
            lemma_single(raw.moving_player.king.0);
            lemma_single(raw.moved_player.king.0);
            lemma_constraints_sound(raw);
            raw.lemma_guarded_kept();
        }
        board.update_move_constraints();
        Ok(board)
    }

    /// Reads a position from its text in Forsyth-Edwards notation.
    pub fn from_str(s: &str) -> (r: Result<Board, ParseError>)
        ensures
            match r {
                Ok(board) => spec_fen(s.spec_bytes()) == Ok::<Position, ParseError>(board@)
                    && board@.wf() && board@.sound(),
                Err(e) => spec_fen(s.spec_bytes()) == Err::<Position, ParseError>(e),
            },
    {
        let bytes = s.as_bytes_vec();
        let parts = split_bytes(&bytes, ' ' as u8);
        if parts.len() != 6 {
            return Err(ParseError::PartCount);
        }
        let ghost fields = split(bytes@, ' ' as u8);
        proof {
            assert(fields[0] == parts@[0]@);
            assert(fields[1] == parts@[1]@);
            assert(fields[2] == parts@[2]@);
            assert(fields[3] == parts@[3]@);
            assert(fields[4] == parts@[4]@);
            assert(fields[5] == parts@[5]@);
        }
        let pieces = match placement_from_bytes(&parts[0]) {
            Ok(pieces) => pieces,
            Err(e) => {
                return Err(e);
            },
        };
        let current_player = match player_from_bytes(&parts[1]) {
            Ok(player) => player,
            Err(e) => {
                return Err(e);
            },
        };
        let ep = if parts[3].len() == 1 && parts[3][0] == ('-' as u8) {
            proof {
                assert(parts@[3]@ =~= seq!['-' as u8]);
            }
            None
        } else {
            match square_from_bytes(&parts[3]) {
                Ok(square) => Some(square),
                Err(e) => {
                    return Err(e);
                },
            }
        };
        let half_moves = match number_from_bytes(&parts[4]) {
            Some(n) => n,
            None => {
                return Err(ParseError::HalfMoves);
            },
        };
        if number_from_bytes(&parts[5]).is_none() {
            return Err(ParseError::FullMoves);
        }
        let rights = match castling_from_bytes(&parts[2]) {
            Ok(rights) => rights,
            Err(e) => {
                return Err(e);
            },
        };
        Board::from_parts(pieces, current_player, rights, ep, half_moves)
    }
}

} // verus!
