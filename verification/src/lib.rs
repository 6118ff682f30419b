//! A Connect Four game engine: a bounds-checked grid with eight-way
//! neighbor lookup, directional win detection, and the turn/terminal
//! state machine, together with the move-source abstraction used by
//! automated players.

pub mod board;
pub mod bot_player;
pub mod bot_random;
pub mod c4;
pub mod c4_1p;
pub mod c4_2p;
pub mod direction;
pub mod game_status;
pub mod index_from_rc;
pub mod player;
pub mod token;

pub use board::Board;
pub use bot_player::BotPlayer;
pub use bot_random::RandomPlayer;
pub use c4::ConnectFour;
pub use c4_1p::ConnectFour1p;
pub use c4_2p::ConnectFour2p;
pub use direction::Direction;
pub use game_status::GameStatus;
pub use index_from_rc::index_from_rc;
pub use player::Player;
pub use token::Token;
