//! Streaming byte I/O for environments without `std`, with a tar parser built on top.
use vstd::prelude::*;

pub mod buffered;
pub mod buffers;
pub mod compression;
pub mod cursor;
pub mod gz;
pub mod io;
pub mod streams;
pub mod tar;

verus! {

} // verus!
