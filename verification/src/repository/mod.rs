//! The history store: records, their stored form, and the ordered log that keeps them.

pub mod clock;
pub mod codec;
pub mod errors;
pub mod laws;
pub mod models;
pub mod order;
pub mod repo;
pub mod tree;

pub use models::ClipboardRecord;
pub use repo::ClipboardRepository;
