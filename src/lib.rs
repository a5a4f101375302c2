//! Deployment bookkeeping for a small set of interdependent contracts: an
//! address cache, a library linker and the light client deployment procedure.

pub mod address;
pub mod cache;
pub mod contract;
pub mod deploy;
pub mod link;
