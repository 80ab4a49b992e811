//! Protocol core of a typed handle to one slot of System V shared memory,
//! guarded by a named lock.
//!
//! The library decides and never calls the kernel. Each operation of a
//! handle is a machine: it names the next request, takes the reply, and
//! moves on, until it ends in a result. A driver performs the requests that
//! are the kernel's; those that are the lock's, the library has the lock
//! answer.
//!
//! - [`builder`] gathers what a creation needs, stage by stage.
//! - [`create`] creates a segment or attaches to one.
//! - [`access`] reads and writes the slot under the lock.
//! - [`handle`] is what comes of a creation, and says what a lock must offer.
//! - [`semaphore`] is the lock on a named semaphore.
//! - [`crash`] tells clean failures from dirty ones.
//! - [`laws`] states what holds of every run.

mod abi;
pub mod access;
pub mod builder;
pub mod crash;
pub mod create;
pub mod handle;
pub mod laws;
pub mod semaphore;
pub mod text;

pub use builder::CortexBuilder;
pub use crash::CortexError;
pub use handle::{Cortex, CortexResult, CortexSync};
pub use semaphore::{Semaphore, SemaphorePermission, SemaphoreSettings};
