//! The RDMA read path.

pub mod listener;
pub mod needle_source;
pub mod parse_fid;
pub mod pread;
pub mod read_error;

pub use needle_source::StoreNeedleSource;
pub use parse_fid::{parse_fid, ParseFidError};
