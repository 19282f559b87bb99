//! A checkers (draughts) rules engine and game-tree search. Legal moves
//! follow the mandatory-capture rule with multi-jump chains; positions are
//! scored statically and searched by minimax or alpha-beta to a fixed depth.
//! Every executable function states its result over a mathematical model
//! of the board (`board::Grid`), and the modules ending in `_laws` prove
//! properties that relate several functions.
pub mod board;
pub mod cell;
pub mod chain_laws;
pub mod coord;
pub mod evaluate;
pub mod generator;
pub mod move_laws;
pub mod moves;
pub mod player;
pub mod search_laws;
pub mod sizes;
pub mod solution;

pub use board::{initial_board, Board, Row};
pub use cell::{promote, Cell};
pub use coord::{Coord, OutOfBounds, Position};
pub use evaluate::{evaluate, Evaluate};
pub use generator::{available_moves, can_eat, has_moves, moves_for};
pub use moves::{Direction, Move};
pub use player::{Piece, Player};
pub use sizes::Sizes;
pub use solution::{alphabeta, minimax, Solution};
