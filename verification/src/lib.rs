//! A quote picker for a game's lore database. The library holds the logic of
//! the tool: the per-category cache of entry counts with its JSON encoding,
//! the construction of the API filter string, and the choice of the text to
//! display; the binary around it does the network and file work.

pub mod codec;
pub mod counts;
pub mod digits;
pub mod query;
pub mod response;
