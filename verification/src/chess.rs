//! A chess state machine, kept as an exercise unrelated to the header
//! chain: board occupancy, per-piece move generation, and a turn-taking
//! transition that either applies a move or leaves the state untouched.

use std::collections::HashMap;
use vstd::prelude::*;

verus! {

/// Rows and columns of playable squares run strictly above this bound.
pub const BOARD_MIN_SIZE: i16 = 0;

/// Rows and columns of playable squares run up to and including this bound.
pub const BOARD_MAX_SIZE: i16 = 8;

/// A square as (row, column); values off the board are representable and
/// simply never pass the board filter.
pub type Position = (i16, i16);

#[derive(Clone, Copy, Debug, PartialEq, Eq, Structural)]
pub enum Color {
    Black,
    White,
}

/// The opposing side.
pub open spec fn other_color(c: Color) -> Color {
    match c {
        Color::Black => Color::White,
        Color::White => Color::Black,
    }
}

/// The row direction a side's pawns advance in: white up the board (towards
/// lower rows), black down it.
pub open spec fn spec_dir(c: Color) -> int {
    match c {
        Color::White => -1,
        Color::Black => 1,
    }
}

impl Color {
    /// Returns the opposing side.
    pub fn get_other_color(&self) -> (r: Color)
        ensures
            r == other_color(*self),
    {
        match self {
            Color::Black => Color::White,
            Color::White => Color::Black,
        }
    }

    /// Returns the row direction this side's pawns advance in.
    pub fn dir(&self) -> (r: i16)
        ensures
            r as int == spec_dir(*self),
    {
        match self {
            Color::White => -1,
            Color::Black => 1,
        }
    }
}

#[derive(Clone, Copy, Debug, PartialEq, Eq, Structural)]
pub enum ChessPiece {
    Pawn(Color),
    Bishop(Color),
    Knight(Color),
    Rook(Color),
    Queen(Color),
    King(Color),
}

/// The side a piece belongs to.
pub open spec fn piece_color(p: ChessPiece) -> Color {
    match p {
        ChessPiece::Pawn(color) => color,
        ChessPiece::Bishop(color) => color,
        ChessPiece::Knight(color) => color,
        ChessPiece::Rook(color) => color,
        ChessPiece::Queen(color) => color,
        ChessPiece::King(color) => color,
    }
}

/// Rook targets from `from`: up to seven squares along its column in either
/// row direction, up to seven squares towards higher columns, and a single
/// square towards the lower columns.
pub open spec fn rook_reach(from: Position, to: Position) -> bool {
    ||| (to.1 == from.1 && (1 <= to.0 - from.0 < 8 || 1 <= from.0 - to.0 < 8))
    ||| (to.0 == from.0 && 1 <= to.1 - from.1 < 8)
    ||| (to.0 == from.0 && to.1 == from.1 - 1)
}

/// Bishop targets from `from`: up to seven squares along each of the four
/// diagonals.
pub open spec fn bishop_reach(from: Position, to: Position) -> bool {
    &&& (to.0 - from.0 == to.1 - from.1 || to.0 - from.0 == from.1 - to.1)
    &&& (1 <= to.0 - from.0 < 8 || 1 <= from.0 - to.0 < 8)
}

/// King targets: the eight squares around `from`.
pub open spec fn king_reach(from: Position, to: Position) -> bool {
    &&& from.0 - 1 <= to.0 <= from.0 + 1
    &&& from.1 - 1 <= to.1 <= from.1 + 1
    &&& !(to.0 == from.0 && to.1 == from.1)
}

/// Knight targets: the eight squares two away along one axis and one along
/// the other.
pub open spec fn knight_reach(from: Position, to: Position) -> bool {
    ||| ((to.0 == from.0 + 2 || to.0 == from.0 - 2) && (to.1 == from.1 + 1 || to.1 == from.1 - 1))
    ||| ((to.0 == from.0 + 1 || to.0 == from.0 - 1) && (to.1 == from.1 + 2 || to.1 == from.1 - 2))
}

/// Pawn targets: one square diagonally ahead towards higher columns, and
/// one square diagonally behind towards lower columns.
pub open spec fn pawn_reach(c: Color, from: Position, to: Position) -> bool {
    ||| (to.0 == from.0 + spec_dir(c) && to.1 == from.1 + 1)
    ||| (to.0 == from.0 - spec_dir(c) && to.1 == from.1 - 1)
}

/// The move pattern of each piece, ignoring the board edge and occupancy.
pub open spec fn piece_reach(piece: ChessPiece, from: Position, to: Position) -> bool {
    match piece {
        ChessPiece::Pawn(color) => pawn_reach(color, from, to),
        ChessPiece::Bishop(_) => bishop_reach(from, to),
        ChessPiece::Knight(_) => knight_reach(from, to),
        ChessPiece::Rook(_) => rook_reach(from, to),
        ChessPiece::Queen(_) => rook_reach(from, to) || bishop_reach(from, to),
        ChessPiece::King(_) => king_reach(from, to),
    }
}

/// A playable square: both coordinates strictly above the lower bound and
/// at most the upper one.
pub open spec fn in_board(p: Position) -> bool {
    BOARD_MIN_SIZE < p.0 <= BOARD_MAX_SIZE && BOARD_MIN_SIZE < p.1 <= BOARD_MAX_SIZE
}

/// A legal target for `piece` standing at `from`: reachable by its move
/// pattern and on the board.
pub open spec fn move_ok(piece: ChessPiece, from: Position, to: Position) -> bool {
    in_board(to) && piece_reach(piece, from, to)
}

impl ChessPiece {
    /// Returns the side this piece belongs to.
    pub fn get_color(&self) -> (r: Color)
        ensures
            r == piece_color(*self),
    {
        match self {
            ChessPiece::Pawn(color) => *color,
            ChessPiece::Bishop(color) => *color,
            ChessPiece::King(color) => *color,
            ChessPiece::Knight(color) => *color,
            ChessPiece::Queen(color) => *color,
            ChessPiece::Rook(color) => *color,
        }
    }

    /// Every legal target for this piece standing at `pos`: its move
    /// pattern clipped to the board. A source square far outside the board
    /// has no targets at all.
    pub fn get_moves(&self, pos: Position) -> (r: Vec<Position>)
        ensures
            forall|p: Position| r@.contains(p) <==> move_ok(*self, pos, p),
    {
        broadcast use vstd::seq_lib::lemma_seq_contains_after_push;
        broadcast use vstd::seq_lib::lemma_seq_concat_contains_all_elements;

        // No move pattern reaches further than seven squares along either
        // axis, so from out here every target misses the board.
        if pos.0 < BOARD_MIN_SIZE - 7 || pos.0 > BOARD_MAX_SIZE + 8 || pos.1 < BOARD_MIN_SIZE - 7
            || pos.1 > BOARD_MAX_SIZE + 8 {
            let empty: Vec<Position> = Vec::new();
            return empty;
        }
        let row = pos.0;
        let col = pos.1;
        let chess_moves: Vec<Position> = match self {
            ChessPiece::Bishop(_) => get_bishop_moves(pos),
            ChessPiece::Rook(_) => get_rook_moves(pos),
            ChessPiece::King(_) => {
                let mut king_moves: Vec<Position> = Vec::new();
                king_moves.push((row + 1, col + 1));
                king_moves.push((row + 1, col));
                king_moves.push((row + 1, col - 1));
                king_moves.push((row, col + 1));
                king_moves.push((row, col - 1));
                king_moves.push((row - 1, col + 1));
                king_moves.push((row - 1, col));
                king_moves.push((row - 1, col - 1));
                proof {
                    assert forall|p: Position| king_moves@.contains(p) <==> king_reach(
                        pos,
                        p,
                    ) by {}
                }
                king_moves
            },
            ChessPiece::Knight(_) => {
                let mut knight_moves: Vec<Position> = Vec::new();
                knight_moves.push((row + 2, col + 1));
                knight_moves.push((row + 2, col - 1));
                knight_moves.push((row - 2, col + 1));
                knight_moves.push((row - 2, col - 1));
                knight_moves.push((row + 1, col + 2));
                knight_moves.push((row + 1, col - 2));
                knight_moves.push((row - 1, col + 2));
                knight_moves.push((row - 1, col - 2));
                proof {
                    assert forall|p: Position| knight_moves@.contains(p) <==> knight_reach(
                        pos,
                        p,
                    ) by {}
                }
                knight_moves
            },
            ChessPiece::Pawn(color) => {
                let d = color.dir();
                let mut pawn_moves: Vec<Position> = Vec::new();
                pawn_moves.push((row + d, col + 1));
                pawn_moves.push((row - d, col - 1));
                pawn_moves
            },
            ChessPiece::Queen(_) => {
                let mut queen_moves = get_rook_moves(pos);
                let mut diagonal_moves = get_bishop_moves(pos);
                queen_moves.append(&mut diagonal_moves);
                queen_moves
            },
        };
        proof {
            assert(forall|p: Position| chess_moves@.contains(p) <==> piece_reach(*self, pos, p));
        }
        let mut moves: Vec<Position> = Vec::new();
        let mut k: usize = 0;
        while k < chess_moves.len()
            invariant
                k <= chess_moves@.len(),
                forall|p: Position| chess_moves@.contains(p) <==> piece_reach(*self, pos, p),
                forall|p: Position|
                    #[trigger] moves@.contains(p) ==> (in_board(p) && chess_moves@.contains(p)),
                forall|j: int|
                    0 <= j < k && in_board(#[trigger] chess_moves@[j]) ==> moves@.contains(
                        chess_moves@[j],
                    ),
            decreases chess_moves@.len() - k,
        {
            broadcast use vstd::seq_lib::lemma_seq_contains_after_push;

            let target = chess_moves[k];
            let target_row = target.0;
            let target_col = target.1;
            if target_row > BOARD_MAX_SIZE || target_col > BOARD_MAX_SIZE
                || target_row <= BOARD_MIN_SIZE || target_col <= BOARD_MIN_SIZE {
                // off the board: dropped
                proof {
                    assert(!in_board(target));
                }
            } else {
                moves.push(target);
                proof {
                    assert(chess_moves@[k as int] == target);
                    assert(moves@[moves@.len() - 1] == target);
                    assert(moves@.contains(target));
                }
            }
            k = k + 1;
        }
        proof {
            assert forall|p: Position| moves@.contains(p) <==> move_ok(*self, pos, p) by {
                if move_ok(*self, pos, p) {
                    assert(chess_moves@.contains(p));
                    let j = choose|j: int|
                        0 <= j < chess_moves@.len() && chess_moves@[j] == p;
                    assert(in_board(chess_moves@[j]));
                    assert(moves@.contains(chess_moves@[j]));
                }
            }
        }
        moves
    }
}

/// The board map's key for a square: each coordinate shifted into the
/// non-negative range and the pair packed injectively, so distinct squares
/// never share a key.
pub open spec fn pos_key(p: Position) -> u64 {
    ((p.0 + 32768) * 65536 + (p.1 + 32768)) as u64
}

/// The key packing is injective: distinct squares never share a board key,
/// so the map over keys faithfully represents a map over squares.
pub proof fn lemma_pos_key_injective(a: Position, b: Position)
    requires
        pos_key(a) == pos_key(b),
    ensures
        a == b,
{
    let ka = (a.0 + 32768) * 65536 + (a.1 + 32768);
    let kb = (b.0 + 32768) * 65536 + (b.1 + 32768);
    assert(0 <= ka < 0x1_0000_0000 && 0 <= kb < 0x1_0000_0000);
    assert(ka == kb);
    assert(a.0 == b.0 && a.1 == b.1) by (nonlinear_arith)
        requires
            ka == kb,
            ka == (a.0 + 32768) * 65536 + (a.1 + 32768),
            kb == (b.0 + 32768) * 65536 + (b.1 + 32768),
            -32768 <= a.0 <= 32767,
            -32768 <= a.1 <= 32767,
            -32768 <= b.0 <= 32767,
            -32768 <= b.1 <= 32767,
    ;
}

fn position_key(p: Position) -> (r: u64)
    ensures
        r == pos_key(p),
{
    let row_part = (p.0 as i64 + 32768) as u64;
    let col_part = (p.1 as i64 + 32768) as u64;
    row_part * 65536 + col_part
}

/// Whether the game still runs or which side took the enemy king.
#[derive(Clone, Copy, Debug, PartialEq, Eq, Structural)]
pub enum ChessGameStatus {
    Finished(Color),
    Running,
}

/// The whole game state: which piece stands on which square, whose turn it
/// is, whether the game has finished, and how many board moves were made.
#[derive(Clone, Debug, PartialEq, Eq)]
pub struct State {
    pub board: HashMap<u64, ChessPiece>,
    pub side_color: Color,
    pub status: ChessGameStatus,
    pub moves: u64,
}

/// A single kind of transition: a named piece moves between two squares.
pub enum Transition {
    Move { chess_piece: ChessPiece, from: Position, to: Position },
}

/// The two states agree on every observable part.
pub open spec fn state_equiv(a: State, b: State) -> bool {
    &&& a.board@ == b.board@
    &&& a.side_color == b.side_color
    &&& a.status == b.status
    &&& a.moves == b.moves
}

/// The validity test a transition must pass: the moving side is to play,
/// the named piece stands on the source square, the target follows the
/// piece's move pattern, and no square the piece could move to holds a
/// piece of its own side.
pub open spec fn move_allowed(s: State, piece: ChessPiece, from: Position, to: Position) -> bool {
    &&& piece_color(piece) == s.side_color
    &&& s.board@.contains_key(pos_key(from))
    &&& s.board@[pos_key(from)] == piece
    &&& move_ok(piece, from, to)
    &&& forall|p: Position|
        move_ok(piece, from, p) && s.board@.contains_key(#[trigger] pos_key(p))
            ==> piece_color(s.board@[pos_key(p)]) != piece_color(piece)
}

/// All rook candidate targets, board edge not yet applied.
pub fn get_rook_moves(pos: Position) -> (r: Vec<Position>)
    requires
        i16::MIN + 7 <= pos.0 <= i16::MAX - 7,
        i16::MIN + 7 <= pos.1 <= i16::MAX - 7,
    ensures
        forall|p: Position| r@.contains(p) <==> rook_reach(pos, p),
{
    broadcast use vstd::seq_lib::lemma_seq_contains_after_push;

    let row = pos.0;
    let col = pos.1;
    let mut rook_moves: Vec<Position> = Vec::new();
    let mut i: i16 = 1;
    while i < 8
        invariant
            1 <= i <= 8,
            i16::MIN + 7 <= row <= i16::MAX - 7,
            i16::MIN + 7 <= col <= i16::MAX - 7,
            forall|p: Position|
                rook_moves@.contains(p) <==> {
                    ||| (p.1 == col && (1 <= p.0 - row < i || 1 <= row - p.0 < i))
                    ||| (p.0 == row && 1 <= p.1 - col < i)
                    ||| (i > 1 && p.0 == row && p.1 == col - 1)
                },
        decreases 8 - i,
    {
        broadcast use vstd::seq_lib::lemma_seq_contains_after_push;

        rook_moves.push((row + i, col));
        rook_moves.push((row - i, col));
        rook_moves.push((row, col + i));
        rook_moves.push((row, col - 1));
        i = i + 1;
    }
    proof {
        assert forall|p: Position| rook_moves@.contains(p) implies rook_reach(pos, p) by {}
        assert forall|p: Position| rook_reach(pos, p) implies rook_moves@.contains(p) by {}
    }
    rook_moves
}

/// All bishop candidate targets, board edge not yet applied.
pub fn get_bishop_moves(pos: Position) -> (r: Vec<Position>)
    requires
        i16::MIN + 7 <= pos.0 <= i16::MAX - 7,
        i16::MIN + 7 <= pos.1 <= i16::MAX - 7,
    ensures
        forall|p: Position| r@.contains(p) <==> bishop_reach(pos, p),
{
    let row = pos.0;
    let col = pos.1;
    let mut bishop_moves: Vec<Position> = Vec::new();
    let mut i: i16 = 1;
    while i < 8
        invariant
            1 <= i <= 8,
            i16::MIN + 7 <= row <= i16::MAX - 7,
            i16::MIN + 7 <= col <= i16::MAX - 7,
            forall|p: Position|
                bishop_moves@.contains(p) <==> {
                    &&& (p.0 - row == p.1 - col || p.0 - row == col - p.1)
                    &&& (1 <= p.0 - row < i || 1 <= row - p.0 < i)
                },
        decreases 8 - i,
    {
        broadcast use vstd::seq_lib::lemma_seq_contains_after_push;

        bishop_moves.push((row + i, col + i));
        bishop_moves.push((row + i, col - i));
        bishop_moves.push((row - i, col + i));
        bishop_moves.push((row - i, col - i));
        i = i + 1;
    }
    bishop_moves
}

/// The standard starting arrangement: black's back rank on row one and its
/// pawns on row two, white's pawns on row seven and its back rank on row
/// eight.
pub open spec fn initial_board() -> Map<u64, ChessPiece> {
    Map::<u64, ChessPiece>::empty()
        .insert(pos_key((1, 1)), ChessPiece::Rook(Color::Black))
        .insert(pos_key((1, 2)), ChessPiece::Knight(Color::Black))
        .insert(pos_key((1, 3)), ChessPiece::Bishop(Color::Black))
        .insert(pos_key((1, 4)), ChessPiece::Queen(Color::Black))
        .insert(pos_key((1, 5)), ChessPiece::King(Color::Black))
        .insert(pos_key((1, 6)), ChessPiece::Bishop(Color::Black))
        .insert(pos_key((1, 7)), ChessPiece::Knight(Color::Black))
        .insert(pos_key((1, 8)), ChessPiece::Rook(Color::Black))
        .insert(pos_key((2, 1)), ChessPiece::Pawn(Color::Black))
        .insert(pos_key((2, 2)), ChessPiece::Pawn(Color::Black))
        .insert(pos_key((2, 3)), ChessPiece::Pawn(Color::Black))
        .insert(pos_key((2, 4)), ChessPiece::Pawn(Color::Black))
        .insert(pos_key((2, 5)), ChessPiece::Pawn(Color::Black))
        .insert(pos_key((2, 6)), ChessPiece::Pawn(Color::Black))
        .insert(pos_key((2, 7)), ChessPiece::Pawn(Color::Black))
        .insert(pos_key((2, 8)), ChessPiece::Pawn(Color::Black))
        .insert(pos_key((7, 1)), ChessPiece::Pawn(Color::White))
        .insert(pos_key((7, 2)), ChessPiece::Pawn(Color::White))
        .insert(pos_key((7, 3)), ChessPiece::Pawn(Color::White))
        .insert(pos_key((7, 4)), ChessPiece::Pawn(Color::White))
        .insert(pos_key((7, 5)), ChessPiece::Pawn(Color::White))
        .insert(pos_key((7, 6)), ChessPiece::Pawn(Color::White))
        .insert(pos_key((7, 7)), ChessPiece::Pawn(Color::White))
        .insert(pos_key((7, 8)), ChessPiece::Pawn(Color::White))
        .insert(pos_key((8, 1)), ChessPiece::Rook(Color::White))
        .insert(pos_key((8, 2)), ChessPiece::Knight(Color::White))
        .insert(pos_key((8, 3)), ChessPiece::Bishop(Color::White))
        .insert(pos_key((8, 4)), ChessPiece::Queen(Color::White))
        .insert(pos_key((8, 5)), ChessPiece::King(Color::White))
        .insert(pos_key((8, 6)), ChessPiece::Bishop(Color::White))
        .insert(pos_key((8, 7)), ChessPiece::Knight(Color::White))
        .insert(pos_key((8, 8)), ChessPiece::Rook(Color::White))
}

impl Default for State {
    /// The starting state: the standard arrangement, no moves made, the
    /// game running, white to play.
    fn default() -> (s: State)
        ensures
            s.board@ == initial_board(),
            s.side_color == Color::White,
            s.status == ChessGameStatus::Running,
            s.moves == 0,
    {
        let mut board: HashMap<u64, ChessPiece> = HashMap::new();
        board.insert(position_key((1, 1)), ChessPiece::Rook(Color::Black));
        board.insert(position_key((1, 2)), ChessPiece::Knight(Color::Black));
        board.insert(position_key((1, 3)), ChessPiece::Bishop(Color::Black));
        board.insert(position_key((1, 4)), ChessPiece::Queen(Color::Black));
        board.insert(position_key((1, 5)), ChessPiece::King(Color::Black));
        board.insert(position_key((1, 6)), ChessPiece::Bishop(Color::Black));
        board.insert(position_key((1, 7)), ChessPiece::Knight(Color::Black));
        board.insert(position_key((1, 8)), ChessPiece::Rook(Color::Black));
        board.insert(position_key((2, 1)), ChessPiece::Pawn(Color::Black));
        board.insert(position_key((2, 2)), ChessPiece::Pawn(Color::Black));
        board.insert(position_key((2, 3)), ChessPiece::Pawn(Color::Black));
        board.insert(position_key((2, 4)), ChessPiece::Pawn(Color::Black));
        board.insert(position_key((2, 5)), ChessPiece::Pawn(Color::Black));
        board.insert(position_key((2, 6)), ChessPiece::Pawn(Color::Black));
        board.insert(position_key((2, 7)), ChessPiece::Pawn(Color::Black));
        board.insert(position_key((2, 8)), ChessPiece::Pawn(Color::Black));
        board.insert(position_key((7, 1)), ChessPiece::Pawn(Color::White));
        board.insert(position_key((7, 2)), ChessPiece::Pawn(Color::White));
        board.insert(position_key((7, 3)), ChessPiece::Pawn(Color::White));
        board.insert(position_key((7, 4)), ChessPiece::Pawn(Color::White));
        board.insert(position_key((7, 5)), ChessPiece::Pawn(Color::White));
        board.insert(position_key((7, 6)), ChessPiece::Pawn(Color::White));
        board.insert(position_key((7, 7)), ChessPiece::Pawn(Color::White));
        board.insert(position_key((7, 8)), ChessPiece::Pawn(Color::White));
        board.insert(position_key((8, 1)), ChessPiece::Rook(Color::White));
        board.insert(position_key((8, 2)), ChessPiece::Knight(Color::White));
        board.insert(position_key((8, 3)), ChessPiece::Bishop(Color::White));
        board.insert(position_key((8, 4)), ChessPiece::Queen(Color::White));
        board.insert(position_key((8, 5)), ChessPiece::King(Color::White));
        board.insert(position_key((8, 6)), ChessPiece::Bishop(Color::White));
        board.insert(position_key((8, 7)), ChessPiece::Knight(Color::White));
        board.insert(position_key((8, 8)), ChessPiece::Rook(Color::White));
        proof {
            assert(board@ =~= initial_board());
        }
        State { board, side_color: Color::White, status: ChessGameStatus::Running, moves: 0 }
    }
}

impl State {
    /// A human-readable name for this state machine.
    pub fn human_name() -> (r: String)
        ensures
            r@ == "Chess State Machine"@,
    {
        broadcast use vstd::string::to_string_from_display_ensures_for_str;

        "Chess State Machine".to_string()
    }

    /// Advances the move counter by one.
    pub fn incre_move(&mut self)
        requires
            old(self).moves < u64::MAX,
        ensures
            final(self).moves == old(self).moves + 1,
            final(self).board@ == old(self).board@,
            final(self).side_color == old(self).side_color,
            final(self).status == old(self).status,
    {
        self.moves = self.moves + 1;
    }

    /// Hands the turn to the side opposing `color`.
    pub fn next_color(&mut self, color: Color)
        ensures
            final(self).side_color == other_color(color),
            final(self).board@ == old(self).board@,
            final(self).status == old(self).status,
            final(self).moves == old(self).moves,
    {
        self.side_color = color.get_other_color();
    }

    /// Moves whatever stands on `from_pos` onto `to_pos`, handing back the
    /// previous occupant of the target square if there was one. In that
    /// case the source square keeps its copy of the piece and the move
    /// counter stays put; only a move onto a free square clears the source
    /// and counts as a move, as does a move from an empty square, which
    /// changes nothing else.
    pub fn board_move(&mut self, from_pos: Position, to_pos: Position) -> (r: Option<ChessPiece>)
        requires
            (!old(self).board@.contains_key(pos_key(from_pos)) || !old(
                self,
            ).board@.contains_key(pos_key(to_pos))) ==> old(self).moves < u64::MAX,
        ensures
            final(self).side_color == old(self).side_color,
            final(self).status == old(self).status,
            ({
                let fk = pos_key(from_pos);
                let tk = pos_key(to_pos);
                if !old(self).board@.contains_key(fk) {
                    &&& final(self).board@ == old(self).board@
                    &&& final(self).moves == old(self).moves + 1
                    &&& r is None
                } else if old(self).board@.contains_key(tk) {
                    &&& final(self).board@ == old(self).board@.insert(
                        tk,
                        old(self).board@[fk],
                    )
                    &&& final(self).moves == old(self).moves
                    &&& r == Some(old(self).board@[tk])
                } else {
                    &&& final(self).board@ == old(self).board@.insert(
                        tk,
                        old(self).board@[fk],
                    ).remove(fk)
                    &&& final(self).moves == old(self).moves + 1
                    &&& r is None
                }
            }),
    {
        let from_key = position_key(from_pos);
        let to_key = position_key(to_pos);
        let mut source_piece: Option<ChessPiece> = None;
        match self.board.get(&from_key) {
            Some(element) => {
                source_piece = Some(*element);
            },
            None => {},
        }
        if let Some(piece) = source_piece {
            let option = self.board.insert(to_key, piece);
            if option.is_some() {
                return option;
            }
            self.board.remove(&from_key);
        }
        self.incre_move();
        None
    }

    /// An unchanged copy of the state.
    fn duplicate(&self) -> (r: State)
        ensures
            state_equiv(r, *self),
    {
        State {
            board: self.board.clone(),
            side_color: self.side_color,
            status: self.status,
            moves: self.moves,
        }
    }

    /// Applies the transition if it passes every check of `move_allowed`,
    /// and otherwise returns the state unchanged. An applied move flips the
    /// turn; capturing the enemy king finishes the game in the moving
    /// side's favour.
    #[verifier::loop_isolation(false)]
    pub fn next_state(starting_state: &State, t: &Transition) -> (r: State)
        requires
            ({
                match *t {
                    Transition::Move { chess_piece, from, to } => (move_allowed(
                        *starting_state,
                        chess_piece,
                        from,
                        to,
                    ) && !starting_state.board@.contains_key(pos_key(to)))
                        ==> starting_state.moves < u64::MAX,
                }
            }),
        ensures
            ({
                match *t {
                    Transition::Move { chess_piece, from, to } => {
                        let fk = pos_key(from);
                        let tk = pos_key(to);
                        let side = piece_color(chess_piece);
                        if !move_allowed(*starting_state, chess_piece, from, to) {
                            state_equiv(r, *starting_state)
                        } else {
                            &&& r.side_color == other_color(side)
                            &&& if starting_state.board@.contains_key(tk) {
                                &&& r.board@ == starting_state.board@.insert(tk, chess_piece)
                                &&& r.moves == starting_state.moves
                                &&& r.status == (if starting_state.board@[tk]
                                    == ChessPiece::King(other_color(side)) {
                                    ChessGameStatus::Finished(side)
                                } else {
                                    starting_state.status
                                })
                            } else {
                                &&& r.board@ == starting_state.board@.insert(
                                    tk,
                                    chess_piece,
                                ).remove(fk)
                                &&& r.moves == starting_state.moves + 1
                                &&& r.status == starting_state.status
                            }
                        }
                    },
                }
            }),
    {
        let mut updated_state = starting_state.duplicate();
        match t {
            Transition::Move { chess_piece, from, to } => {
                let piece = *chess_piece;
                let from_pos = *from;
                let to_pos = *to;
                let chess_piece_color = piece.get_color();
                let enemy_color = chess_piece_color.get_other_color();

                if chess_piece_color != starting_state.side_color {
                    return updated_state;
                }
                let from_key = position_key(from_pos);
                let mut piece_at_source = false;
                match starting_state.board.get(&from_key) {
                    Some(found) => {
                        if *found == piece {
                            piece_at_source = true;
                        }
                    },
                    None => {},
                }
                if !piece_at_source {
                    return updated_state;
                }
                let possible_moves = piece.get_moves(from_pos);

                let mut target_listed = false;
                let mut k: usize = 0;
                while k < possible_moves.len()
                    invariant
                        k <= possible_moves@.len(),
                        target_listed ==> possible_moves@.contains(to_pos),
                        !target_listed ==> forall|j: int|
                            0 <= j < k ==> #[trigger] possible_moves@[j] != to_pos,
                    decreases possible_moves@.len() - k,
                {
                    let candidate = possible_moves[k];
                    if candidate.0 == to_pos.0 && candidate.1 == to_pos.1 {
                        proof {
                            assert(possible_moves@[k as int] == to_pos);
                        }
                        target_listed = true;
                    }
                    k = k + 1;
                }
                if !target_listed {
                    proof {
                        assert forall|j: int|
                            0 <= j < possible_moves@.len() implies #[trigger] possible_moves@[j]
                            != to_pos by {}
                        assert(!possible_moves@.contains(to_pos));
                    }
                    return updated_state;
                }
                let mut k2: usize = 0;
                while k2 < possible_moves.len()
                    invariant
                        k2 <= possible_moves@.len(),
                        forall|p: Position|
                            possible_moves@.contains(p) <==> move_ok(piece, from_pos, p),
                        forall|j: int|
                            0 <= j < k2 ==> (starting_state.board@.contains_key(
                                #[trigger] pos_key(possible_moves@[j]),
                            ) ==> piece_color(
                                starting_state.board@[pos_key(possible_moves@[j])],
                            ) != piece_color(piece)),
                    decreases possible_moves@.len() - k2,
                {
                    let possible_move = possible_moves[k2];
                    let move_key = position_key(possible_move);
                    proof {
                        assert(possible_moves@[k2 as int] == possible_move);
                        assert(move_key == pos_key(possible_move));
                        assert(possible_moves@.contains(possible_move));
                    }
                    match starting_state.board.get(&move_key) {
                        Some(board_chess) => {
                            proof {
                                assert(starting_state.board@.contains_key(move_key));
                                assert(starting_state.board@[move_key] == *board_chess);
                            }
                            if board_chess.get_color() == chess_piece_color {
                                // a possible target square holds a piece of
                                // the moving side: the move is refused
                                proof {
                                    assert(move_ok(piece, from_pos, possible_move));
                                    assert(chess_piece_color == piece_color(piece));
                                    assert(piece_color(*board_chess) == chess_piece_color);
                                    assert(starting_state.board@[pos_key(possible_move)]
                                        == *board_chess);
                                    assert(piece_color(
                                        starting_state.board@[pos_key(possible_move)],
                                    ) == piece_color(piece));
                                    assert(!move_allowed(
                                        *starting_state,
                                        piece,
                                        from_pos,
                                        to_pos,
                                    ));
                                }
                                return updated_state;
                            }
                            proof {
                                assert(starting_state.board@.contains_key(
                                    pos_key(possible_moves@[k2 as int]),
                                ) ==> piece_color(
                                    starting_state.board@[pos_key(possible_moves@[k2 as int])],
                                ) != piece_color(piece));
                            }
                        },
                        None => {
                            proof {
                                assert(!starting_state.board@.contains_key(
                                    pos_key(possible_moves@[k2 as int]),
                                ));
                            }
                        },
                    }
                    k2 = k2 + 1;
                }
                proof {
                    assert forall|p: Position|
                        move_ok(piece, from_pos, p) && starting_state.board@.contains_key(
                            #[trigger] pos_key(p),
                        ) implies piece_color(starting_state.board@[pos_key(p)]) != piece_color(
                        piece,
                    ) by {
                        assert(possible_moves@.contains(p));
                        let j = choose|j: int|
                            0 <= j < possible_moves@.len() && possible_moves@[j] == p;
                        assert(0 <= j < k2 && possible_moves@[j] == p);
                    }
                    assert(move_allowed(*starting_state, piece, from_pos, to_pos));
                }
                let killed = updated_state.board_move(from_pos, to_pos);
                match killed {
                    Some(killed_chess_piece) => {
                        if killed_chess_piece == ChessPiece::King(enemy_color) {
                            updated_state.status = ChessGameStatus::Finished(chess_piece_color);
                        }
                    },
                    None => {},
                }
                updated_state.next_color(chess_piece_color);
                updated_state
            },
        }
    }
}

} // verus!
