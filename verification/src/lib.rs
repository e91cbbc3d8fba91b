//! A lazily growing allocator for fixed-shape descriptor sets.
//!
//! Descriptor sets are handed out one at a time from pools that are created
//! on demand, a full batch at a time. The allocator owns every pool it
//! creates and releases all of them together at teardown. The device calls
//! that create pools, allocate batches and destroy pools live outside this
//! crate; the allocator here is the bookkeeping core that decides when a new
//! pool is needed, which set is handed out next, and which pools must be
//! destroyed, and its contracts pin that behaviour down exactly.

pub mod desc_set_alloc;
pub mod device_select;
