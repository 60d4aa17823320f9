//! The parts of the volume store that the read path speaks of.

pub mod exact_read;
pub mod file_id;
pub mod io_error;
pub mod volume;
