//! What the library's operations promise, said of their arguments and results alone.
//!
//! Each law takes calls by their arguments and results, and says what the results are in numbers,
//! characters and bytes, whatever the contracts' own vocabulary makes of them.

pub mod fid;
pub mod needle;
pub mod pread;
pub mod reports;
pub mod session;
pub mod store;
pub mod text;
