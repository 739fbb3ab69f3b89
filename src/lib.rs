//! Backend selection, device-context bookkeeping, launch planning and kernel
//! dispatch for hashing byte buffers on a GPU.
//!
//! A request runs: select a backend (`backend`), open a device context and
//! upload the input (`device`), plan the launch (`plan`), dispatch the
//! registered algorithm's kernel (`registry`, `dispatch`), download the digest
//! and close the context (`request`).
pub mod backend;
pub mod device;
pub mod dispatch;
pub mod plan;
pub mod registry;
pub mod request;
