//! Decoding of the XML messages exchanged by Parcheesi players and the
//! game administrator: which request came in, the moves a player sends,
//! and the board and dice of a `do-move` request.

pub mod board;
pub mod board_laws;
pub mod deserialize;
pub mod laws;
pub mod message_laws;
pub mod text;
pub mod xml;
