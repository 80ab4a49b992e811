//! How the slot of a handle is read and written: under the lock, by a copy
//! bit by bit, and never between two locks.
//!
//! Both are runs of one machine. [`Access::step`] takes the reply to the
//! pending request and gives the next state with its request, or the result.

use crate::crash::{CortexError, CortexErrorView};
use crate::handle::{Cortex, CortexResult, CortexSync};
use vstd::prelude::*;

verus! {

/// What the machine asks of the lock or of the mapped memory.
pub enum AccessRequest<T> {
    /// Take the lock for reading, and wait for it.
    ReadLock,
    /// Take the lock for writing, and wait for it.
    WriteLock,
    /// Copy the slot at `addr` bit by bit, and leave it as it is.
    Load { addr: usize },
    /// Copy `data` bit by bit to the slot at `addr`, without dropping what
    /// the slot held.
    Store { addr: usize, data: T },
    /// Release the lock.
    Release,
}

/// What came back.
pub enum AccessReply<T> {
    /// Whether the lock was granted.
    Locked { outcome: CortexResult<()> },
    /// The copy of the slot.
    Loaded { data: T },
    /// The payload is in the slot.
    Stored,
    /// Whether the lock was released.
    Released { outcome: CortexResult<()> },
}

/// A read or a write under way: what it has so far, and, by its variant, the
/// reply that it waits for.
pub enum Access<T> {
    /// A read waits for the lock.
    ReadLocking { addr: usize },
    /// A read waits for the copy of the slot.
    Loading,
    /// A read waits for the release of the lock.
    ReadReleasing { data: T },
    /// A write waits for the lock.
    WriteLocking { addr: usize, data: T },
    /// A write waits for the payload to be stored.
    Storing,
    /// A write waits for the release of the lock.
    WriteReleasing,
}

/// Where a read or a write stands.
#[allow(inconsistent_fields)]
pub enum AccessProgress<T> {
    /// It waits, in `state`, for the reply to `request`.
    Pending { state: Access<T>, request: AccessRequest<T> },
    /// The read has ended.
    Read { result: CortexResult<T> },
    /// The write has ended.
    Written { result: CortexResult<()> },
}

/// What an [`AccessProgress`] stands for.
#[allow(inconsistent_fields)]
pub enum AccessProgressView<T> {
    Pending { state: Access<T>, request: AccessRequest<T> },
    Read { result: Result<T, CortexErrorView> },
    Written { result: Result<(), CortexErrorView> },
}

impl<T> View for AccessProgress<T> {
    type V = AccessProgressView<T>;

    open spec fn view(&self) -> AccessProgressView<T> {
        match *self {
            AccessProgress::Pending { state, request } => AccessProgressView::Pending {
                state,
                request,
            },
            AccessProgress::Read { result: Ok(data) } => AccessProgressView::Read {
                result: Ok(data),
            },
            AccessProgress::Read { result: Err(e) } => AccessProgressView::Read { result: Err(e@) },
            AccessProgress::Written { result: Ok(()) } => AccessProgressView::Written {
                result: Ok(()),
            },
            AccessProgress::Written { result: Err(e) } => AccessProgressView::Written {
                result: Err(e@),
            },
        }
    }
}

/// The failure of a machine that was handed a reply to another request than
/// its own.
pub open spec fn stray_reply() -> CortexErrorView {
    CortexErrorView::clean("Reply does not answer the request"@, 0)
}

/// Where a read of the slot at `addr` stands before its first reply.
pub open spec fn begin_read<T>(addr: usize) -> AccessProgressView<T> {
    AccessProgressView::Pending {
        state: Access::ReadLocking { addr },
        request: AccessRequest::ReadLock,
    }
}

/// Where a write of `data` to the slot at `addr` stands before its first
/// reply.
pub open spec fn begin_write<T>(addr: usize, data: T) -> AccessProgressView<T> {
    AccessProgressView::Pending {
        state: Access::WriteLocking { addr, data },
        request: AccessRequest::WriteLock,
    }
}

/// Where the machine stands after `reply` came in while it was in `state`.
///
/// A failure of the lock ends the run at once, as a clean failure: the slot
/// is not touched without the lock, and a lock that was not granted is not
/// released.
pub open spec fn advance<T>(state: Access<T>, reply: AccessReply<T>) -> AccessProgressView<T> {
    match (state, reply) {
        (Access::ReadLocking { addr }, AccessReply::Locked { outcome }) => match outcome {
            Ok(()) => AccessProgressView::Pending {
                state: Access::Loading,
                request: AccessRequest::Load { addr },
            },
            Err(e) => AccessProgressView::Read { result: Err(e@.as_clean()) },
        },
        (Access::Loading, AccessReply::Loaded { data }) => AccessProgressView::Pending {
            state: Access::ReadReleasing { data },
            request: AccessRequest::Release,
        },
        (Access::ReadReleasing { data }, AccessReply::Released { outcome }) => match outcome {
            Ok(()) => AccessProgressView::Read { result: Ok(data) },
            Err(e) => AccessProgressView::Read { result: Err(e@.as_clean()) },
        },
        (Access::WriteLocking { addr, data }, AccessReply::Locked { outcome }) => match outcome {
            Ok(()) => AccessProgressView::Pending {
                state: Access::Storing,
                request: AccessRequest::Store { addr, data },
            },
            Err(e) => AccessProgressView::Written { result: Err(e@.as_clean()) },
        },
        (Access::Storing, AccessReply::Stored) => AccessProgressView::Pending {
            state: Access::WriteReleasing,
            request: AccessRequest::Release,
        },
        (Access::WriteReleasing, AccessReply::Released { outcome }) => match outcome {
            Ok(()) => AccessProgressView::Written { result: Ok(()) },
            Err(e) => AccessProgressView::Written { result: Err(e@.as_clean()) },
        },
        (Access::ReadLocking { .. }, _) => AccessProgressView::Read { result: Err(stray_reply()) },
        (Access::Loading, _) => AccessProgressView::Read { result: Err(stray_reply()) },
        (Access::ReadReleasing { .. }, _) => AccessProgressView::Read {
            result: Err(stray_reply()),
        },
        _ => AccessProgressView::Written { result: Err(stray_reply()) },
    }
}

/// Where the machine stands after `reply` came in while it stood at `from`.
/// A reply that comes after the end changes nothing.
pub open spec fn after<T>(
    from: AccessProgressView<T>,
    reply: AccessReply<T>,
) -> AccessProgressView<T> {
    match from {
        AccessProgressView::Pending { state, .. } => advance(state, reply),
        _ => from,
    }
}

/// Where the machine stands after the replies `replies` came in, one after
/// the other, from where it stood at `from`.
pub open spec fn run<T>(
    from: AccessProgressView<T>,
    replies: Seq<AccessReply<T>>,
) -> AccessProgressView<T>
    decreases replies.len(),
{
    if replies.len() == 0 {
        from
    } else {
        run(after(from, replies[0]), replies.drop_first())
    }
}

/// The failure of a machine that was handed a reply to another request than
/// its own.
fn stray() -> (e: CortexError)
    ensures
        e@ == stray_reply(),
{
    CortexError::new_clean("Reply does not answer the request", 0)
}

impl<T> Access<T> {
    /// Takes the reply to the pending request and moves on.
    ///
    /// A read takes the lock, copies the slot, releases the lock and gives
    /// the copy. A write takes the lock, copies its payload into the slot and
    /// releases the lock.
    pub fn step(self, reply: AccessReply<T>) -> (next: AccessProgress<T>)
        ensures
            next@ == advance(self, reply),
    {
        match self {
            Access::ReadLocking { addr } => match reply {
                AccessReply::Locked { outcome } => match outcome {
                    Ok(()) => AccessProgress::Pending {
                        state: Access::Loading,
                        request: AccessRequest::Load { addr },
                    },
                    Err(e) => AccessProgress::Read { result: Err(e.into_clean()) },
                },
                _ => AccessProgress::Read { result: Err(stray()) },
            },
            Access::Loading => match reply {
                AccessReply::Loaded { data } => AccessProgress::Pending {
                    state: Access::ReadReleasing { data },
                    request: AccessRequest::Release,
                },
                _ => AccessProgress::Read { result: Err(stray()) },
            },
            Access::ReadReleasing { data } => match reply {
                AccessReply::Released { outcome } => match outcome {
                    Ok(()) => AccessProgress::Read { result: Ok(data) },
                    Err(e) => AccessProgress::Read { result: Err(e.into_clean()) },
                },
                _ => AccessProgress::Read { result: Err(stray()) },
            },
            Access::WriteLocking { addr, data } => match reply {
                AccessReply::Locked { outcome } => match outcome {
                    Ok(()) => AccessProgress::Pending {
                        state: Access::Storing,
                        request: AccessRequest::Store { addr, data },
                    },
                    Err(e) => AccessProgress::Written { result: Err(e.into_clean()) },
                },
                _ => AccessProgress::Written { result: Err(stray()) },
            },
            Access::Storing => match reply {
                AccessReply::Stored => AccessProgress::Pending {
                    state: Access::WriteReleasing,
                    request: AccessRequest::Release,
                },
                _ => AccessProgress::Written { result: Err(stray()) },
            },
            Access::WriteReleasing => match reply {
                AccessReply::Released { outcome } => match outcome {
                    Ok(()) => AccessProgress::Written { result: Ok(()) },
                    Err(e) => AccessProgress::Written { result: Err(e.into_clean()) },
                },
                _ => AccessProgress::Written { result: Err(stray()) },
            },
        }
    }
}

/// Whether `reply` answers `request` as the lock does: it says whether the
/// lock was granted, or released, and a failure of either is clean. A
/// request that is not the lock's is answered by any reply.
pub open spec fn lock_answers<T>(request: AccessRequest<T>, reply: AccessReply<T>) -> bool {
    match request {
        AccessRequest::ReadLock => reply matches AccessReply::Locked { outcome } && (
        outcome matches Err(e) ==> e@ is CleanSystem),
        AccessRequest::WriteLock => reply matches AccessReply::Locked { outcome } && (
        outcome matches Err(e) ==> e@ is CleanSystem),
        AccessRequest::Release => reply matches AccessReply::Released { outcome } && (
        outcome matches Err(e) ==> e@ is CleanSystem),
        _ => true,
    }
}

impl<T> AccessRequest<T> {
    /// Whether the request is the lock's to answer, and not the memory's.
    pub open spec fn is_for_lock(self) -> bool {
        self is ReadLock || self is WriteLock || self is Release
    }
}

impl<T, L: CortexSync> Cortex<T, L> {
    /// Answers `request` where it is the lock's to answer, by the call of
    /// this handle's lock that it names; hands it back where it is the
    /// memory's.
    pub fn answer_lock(&self, request: AccessRequest<T>) -> (r: Result<
        AccessReply<T>,
        AccessRequest<T>,
    >)
        ensures
            r is Ok <==> request.is_for_lock(),
            r matches Ok(reply) ==> lock_answers(request, reply),
            r matches Err(back) ==> back == request,
    {
        match request {
            AccessRequest::ReadLock => Ok(AccessReply::Locked { outcome: self.lock().read_lock() }),
            AccessRequest::WriteLock => Ok(
                AccessReply::Locked { outcome: self.lock().write_lock() },
            ),
            AccessRequest::Release => Ok(AccessReply::Released { outcome: self.lock().release() }),
            _ => Err(request),
        }
    }
}

impl<T, L> Cortex<T, L> {
    /// Begins a read of the slot.
    pub fn read(&self) -> (first: AccessProgress<T>)
        ensures
            first@ == begin_read::<T>(self@.addr),
    {
        AccessProgress::Pending {
            state: Access::ReadLocking { addr: self.addr() },
            request: AccessRequest::ReadLock,
        }
    }

    /// Begins a write of `data` to the slot. What the slot held is not
    /// dropped.
    pub fn write(&self, data: T) -> (first: AccessProgress<T>)
        ensures
            first@ == begin_write(self@.addr, data),
    {
        AccessProgress::Pending {
            state: Access::WriteLocking { addr: self.addr(), data },
            request: AccessRequest::WriteLock,
        }
    }
}

} // verus!
