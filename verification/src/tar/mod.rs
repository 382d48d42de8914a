//! A streaming tar parser: header blocks, PAX extended attributes and GNU extensions.
pub mod confident;
pub mod errors;
pub mod header;
pub mod inode;
pub mod limited;
pub mod maps;
pub mod parser;
pub mod pax;
pub mod sparse1;
pub mod sparse_format;
pub mod text;
pub mod violations;
