//! The RDMA read path of a SeaweedFS volume server.

pub mod json;
pub mod laws;
pub mod provenance;
pub mod rdma;
pub mod rdma_stats;
pub mod storage;
pub mod text;
pub mod version;
