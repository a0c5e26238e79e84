//! Capture of desktop notifications: a line-driven record reassembler, a
//! positional record parser, an age-bounded retention store and the text
//! blocks that mirror the store on disk.

pub mod text;
pub mod extract;
pub mod clock;
pub mod record;
pub mod reassembler;
pub mod sink;
pub mod store;
