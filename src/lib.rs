//! A two-player tic-tac-toe engine: the board, the rules that decide a
//! game, the reading of a player's typed move, the board's text and the
//! turn controller.
mod board;
mod game;
mod input;
mod render;
mod rules;

pub use board::{glyph, next_move, Board, Player};
pub use game::{advance, settle, start, GameState, Report};
pub use input::{get_coord, parse_response, trim_line, InputError, Response};
pub use render::render;
pub use rules::{check_filled, check_winner, full_match};
