//! Decoder for the binary index files written by the classic `strfile`
//! utility: a fixed six-field header followed by a table of big-endian
//! 32-bit offsets that locate variable-length text records inside a
//! companion text file.
//!
//! Two physical layouts exist. The standard layout packs every field
//! tightly; the padded layout (selected by the version sentinel `1`,
//! produced by 64-bit builds of the tool) follows every field and every
//! offset with four bytes of padding. The decoder dispatches on the
//! sentinel once and reads the whole file with the chosen layout.

pub mod layout;
pub mod index;
pub mod decode;
pub mod laws;

pub use decode::DecodeError;
pub use index::IndexModel;
pub use index::IterModel;
pub use index::StrMap;
pub use index::StrMapIter;
