//! The trusted boundary to the rules engine (the `chess` crate).
//!
//! Positions (`chess::Board`), moves (`chess::ChessMove`) and games with
//! history (`chess::Game`) are opaque here. What the verified code reads of
//! them is named by uninterpreted spec functions, and each call into the
//! rules engine goes through one trusted wrapper whose contract states, over
//! those names, what the crate's source shows. Everything the engine core
//! decides is verified against these contracts.

use vstd::prelude::*;

verus! {

#[verifier::external_type_specification]
#[verifier::external_body]
pub struct ExBoard(chess::Board);

#[verifier::external_type_specification]
#[verifier::external_body]
pub struct ExChessMove(chess::ChessMove);

#[verifier::external_type_specification]
#[verifier::external_body]
pub struct ExGame(chess::Game);

/// What occupies square `idx` (rank index times eight plus file index) of a
/// board: the piece kind index (pawn 0 through king 5) and whether the piece
/// is white, or nothing for an empty square.
pub uninterp spec fn spec_occupant(b: chess::Board, idx: int) -> Option<(u8, bool)>;

/// Whether White is the side to move on a board.
pub uninterp spec fn spec_white_to_move(b: chess::Board) -> bool;

/// Whether a board is ongoing, that is neither checkmate nor stalemate.
pub uninterp spec fn spec_ongoing(b: chess::Board) -> bool;

/// The legal moves of a board, in the fixed order the rules engine
/// enumerates them.
pub uninterp spec fn spec_moves(b: chess::Board) -> Seq<chess::ChessMove>;

/// The position reached by playing a legal move on a board.
pub uninterp spec fn spec_apply(b: chess::Board, m: chess::ChessMove) -> chess::Board;

/// The current position of a game.
pub uninterp spec fn spec_game_board(g: chess::Game) -> chess::Board;

/// The result of a game, encoded as: 0 White checkmates, 1 White resigns,
/// 2 Black checkmates, 3 Black resigns, 4 stalemate, 5 draw accepted,
/// 6 draw declared; nothing while the game is still running.
pub uninterp spec fn spec_game_result(g: chess::Game) -> Option<u8>;

/// Whether a draw can be declared in a game, by threefold repetition or the
/// fifty-move rule.
pub uninterp spec fn spec_can_draw(g: chess::Game) -> bool;

/// The game state after attempting to declare a draw.
pub uninterp spec fn spec_game_after_draw(g: chess::Game) -> chess::Game;

/// The game state after attempting a move.
pub uninterp spec fn spec_game_after_move(g: chess::Game, m: chess::ChessMove) -> chess::Game;

/// Whether a game accepts a move: the game has no result yet and the move
/// is legal in the current position.
pub uninterp spec fn spec_game_move_ok(g: chess::Game, m: chess::ChessMove) -> bool;

/// Relies on chess::Board::piece_on and chess::Board::color_on (with
/// chess::Square::make_square to form the square): both return Some exactly
/// for an occupied square, and chess::Piece::to_index numbers the six piece
/// kinds from pawn 0 to king 5.
#[verifier::external_body]
pub fn occupant_on(b: &chess::Board, rank_index: u8, file_index: u8) -> (r: Option<(u8, bool)>)
    requires
        rank_index < 8,
        file_index < 8,
    ensures
        r == spec_occupant(*b, rank_index as int * 8 + file_index as int),
        r matches Some(p) ==> p.0 < 6,
{
    let sq = chess::Square::make_square(
        chess::Rank::from_index(rank_index as usize),
        chess::File::from_index(file_index as usize),
    );
    match (b.piece_on(sq), b.color_on(sq)) {
        (Some(p), Some(chess::Color::White)) => Some((p.to_index() as u8, true)),
        (Some(p), Some(chess::Color::Black)) => Some((p.to_index() as u8, false)),
        _ => None,
    }
}

/// Relies on chess::Board::side_to_move.
#[verifier::external_body]
pub fn white_to_move(b: &chess::Board) -> (w: bool)
    ensures
        w == spec_white_to_move(*b),
{
    match b.side_to_move() {
        chess::Color::White => true,
        chess::Color::Black => false,
    }
}

/// Relies on chess::Board::status: Ongoing when legal moves remain,
/// otherwise Checkmate or Stalemate.
#[verifier::external_body]
pub fn board_ongoing(b: &chess::Board) -> (o: bool)
    ensures
        o == spec_ongoing(*b),
{
    match b.status() {
        chess::BoardStatus::Ongoing => true,
        _ => false,
    }
}

/// Relies on chess::MoveGen::new_legal, which enumerates exactly the legal
/// moves of a position in a deterministic order.
#[verifier::external_body]
pub fn legal_moves(b: &chess::Board) -> (v: Vec<chess::ChessMove>)
    ensures
        v@ == spec_moves(*b),
{
    chess::MoveGen::new_legal(b).collect()
}

/// Relies on chess::Board::make_move_new, which returns the position after
/// the given legal move. The move must be legal for this very position:
/// on an illegal one the call can panic (it unwraps the piece on the
/// move's source square).
#[verifier::external_body]
pub fn apply_move(b: &chess::Board, m: &chess::ChessMove) -> (r: chess::Board)
    requires
        spec_moves(*b).contains(*m),
    ensures
        r == spec_apply(*b, *m),
{
    b.make_move_new(*m)
}

/// Relies on chess::Game::new: a fresh game is at the standard starting
/// position, where White is to move, and has no result.
#[verifier::external_body]
pub fn new_game() -> (g: chess::Game)
    ensures
        spec_game_result(g) is None,
        spec_white_to_move(spec_game_board(g)),
{
    chess::Game::new()
}

/// Relies on chess::Game::current_position.
#[verifier::external_body]
pub fn game_board(g: &chess::Game) -> (b: chess::Board)
    ensures
        b == spec_game_board(*g),
{
    g.current_position()
}

/// Relies on chess::Game::result. The source reports no result only while
/// the current position is still ongoing, and the variants are encoded in
/// declaration order as the digits 0 through 6.
#[verifier::external_body]
pub fn game_result_code(g: &chess::Game) -> (r: Option<u8>)
    ensures
        r == spec_game_result(*g),
        r matches Some(c) ==> c <= 6,
        r is None ==> spec_ongoing(spec_game_board(*g)),
{
    match g.result() {
        None => None,
        Some(chess::GameResult::WhiteCheckmates) => Some(0),
        Some(chess::GameResult::WhiteResigns) => Some(1),
        Some(chess::GameResult::BlackCheckmates) => Some(2),
        Some(chess::GameResult::BlackResigns) => Some(3),
        Some(chess::GameResult::Stalemate) => Some(4),
        Some(chess::GameResult::DrawAccepted) => Some(5),
        Some(chess::GameResult::DrawDeclared) => Some(6),
    }
}

/// Relies on chess::Game::can_declare_draw.
#[verifier::external_body]
pub fn game_can_draw(g: &chess::Game) -> (r: bool)
    ensures
        r == spec_can_draw(*g),
{
    g.can_declare_draw()
}

/// Relies on chess::Game::declare_draw: when a draw can be declared it
/// records the declaration and returns true, otherwise it changes nothing;
/// a declaration on a game that had no result makes the result a declared
/// draw (code 6), since the declaration leaves the position itself as it
/// was.
#[verifier::external_body]
pub fn game_declare_draw(g: &mut chess::Game) -> (r: bool)
    ensures
        r == spec_can_draw(*old(g)),
        *final(g) == spec_game_after_draw(*old(g)),
        !spec_can_draw(*old(g)) ==> *final(g) == *old(g),
        spec_can_draw(*old(g)) && spec_game_result(*old(g)) is None ==> spec_game_result(
            *final(g),
        ) == Some(6u8),
{
    g.declare_draw()
}

/// Relies on chess::Game::make_move: it refuses a move when the game
/// already has a result or the move is illegal, leaving the game unchanged;
/// an accepted move advances the current position by exactly that move.
#[verifier::external_body]
pub fn game_make_move(g: &mut chess::Game, m: &chess::ChessMove) -> (r: bool)
    ensures
        r == spec_game_move_ok(*old(g), *m),
        *final(g) == spec_game_after_move(*old(g), *m),
        !r ==> *final(g) == *old(g),
        r ==> spec_game_result(*old(g)) is None,
        r ==> spec_game_board(*final(g)) == spec_apply(spec_game_board(*old(g)), *m),
{
    g.make_move(*m)
}

} // verus!
