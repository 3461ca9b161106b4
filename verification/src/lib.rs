//! Resource acquisition for a Quake-style game engine.
//!
//! A logical asset name ("sound/items/r_item1.wav") is resolved against a
//! prioritized stack of directories and binary archive containers. The crate
//! holds the verified core of that layer: the search-path resolver, the pack
//! (directory-style) container parser, the lump (typed-record) container
//! parser, and the bounded sub-range reader that lets one physical file act
//! as many logical files. File handles and raw disk access stay with the
//! caller; the crate works on plain values and says exactly what it does
//! with them.

pub mod cmdbuf;
pub mod codec;
pub mod command;
pub mod cvar;
pub mod errors;
pub mod fsys;
pub mod pack;
pub mod parms;
pub mod reader;
pub mod try_from_temp;
pub mod util;
pub mod wad;
