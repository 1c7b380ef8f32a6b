//! Chess rules and a best-move search, proved against their contracts.
//!
//! A position is an 8x8 array of [`pieces_logic::Piece`]; row 0 is rank 8 and
//! column 0 is file a. Contracts are stated over [`position::grid`], the
//! row-major sequence of the 64 cells.
//!
//! The rules: [`attack`] decides check, [`moves`] generates the moves of each
//! kind of piece, [`rules`] gathers them for a side and tells checkmate,
//! stalemate and insufficient material, [`notation`] reads typed moves.
//! The search: [`zobrist`] hashes positions, [`transposition`] caches results,
//! [`evaluation`] scores positions, [`ordering`] sorts moves and [`search`]
//! picks the best. [`legality`] and [`laws`] hold what is proved of all this.
//!
//! One function is trusted rather than proved: the call into the `rand` crate
//! in [`random`].

pub mod attack;
pub mod chess_board;
pub mod evaluation;
pub mod game;
pub mod laws;
pub mod legality;
pub mod moves;
pub mod notation;
pub mod ordering;
pub mod pieces_logic;
pub mod position;
pub mod random;
pub mod rules;
pub mod search;
pub mod transposition;
pub mod zobrist;
