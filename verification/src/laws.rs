//! What holds of every creation, attachment, read and write, whatever the
//! kernel replies.

pub mod failures;
pub mod keys;
pub mod ownership;
pub mod runs;
pub mod slot;
