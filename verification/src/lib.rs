//! A verified core for a turn-based tic-tac-toe service: the game state
//! machine (board, players, magic-square scoring) and the registry that
//! indexes in-progress games by participant name.

pub mod registry;
pub mod ttt;
