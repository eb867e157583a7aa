//! Authoritative core of a multiplayer bingo game.
//!
//! Many clients mark cells on a shared board; a server is the single source
//! of truth, and the game ends when a team satisfies the win condition.
//!
//! - [`teams`]: the teams and sets of teams.
//! - [`bingo`]: the board, its configuration and the rules for marking cells.
//! - [`win`]: which team has won.
//! - [`counting`]: the counts of the win rules as sizes of sets.
//! - [`lockout`]: the lockout rule as an invariant of the board.
//! - [`registry`]: the connected sessions and who is host.
//! - [`protocol`]: the messages between clients and server.
//! - [`server`]: the server's state and how a message changes it.
//! - [`client`]: what a client mirrors of the game, and the host's drafts.
//! - [`sync`]: that clients which follow the server agree with it.
//! - [`prompts`]: dealing the host's list of prompts on a grid.

pub mod bingo;
pub mod client;
pub mod counting;
pub mod lockout;
pub mod prompts;
pub mod protocol;
pub mod registry;
pub mod server;
pub mod sync;
pub mod teams;
pub mod win;
