pub mod cursor;
pub mod listing;
pub mod names;
pub mod session;
