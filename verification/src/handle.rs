//! The handle to a segment, and what a lock must offer to guard one.

use crate::abi;
use crate::crash::{outcome_view, CortexError, CortexErrorView};
use crate::text::{decimal, labelled};
use core::marker::PhantomData;
use vstd::prelude::*;

verus! {

/// What an operation on a segment or on its lock gives.
pub type CortexResult<T> = Result<T, CortexError>;

/// A named synchronization primitive that can guard a segment. One lock
/// exists per key; instances in several processes share it.
///
/// Between a granted lock and the matching release an instance holds the
/// shared primitive alone. An instance that owns the primitive removes it
/// when it is disposed of; one that does not, leaves it. To release twice is
/// an error of the caller.
///
/// What the methods promise is taken on trust of each implementation.
pub trait CortexSync: Sized {
    /// How a new primitive is to be created.
    type Settings;

    /// Whether this instance is to remove the primitive when it is disposed
    /// of. An implementation that is compiled without being verified writes
    /// this as a method that reports its flag.
    spec fn is_owner(&self) -> bool;

    /// Creates the primitive of the key `cortex_key`. It fails where the
    /// name exists already or the kernel refuses. The instance owns the
    /// primitive.
    fn new(cortex_key: i32, settings: Option<&Self::Settings>) -> (r: CortexResult<Self>)
        ensures
            r matches Ok(lock) ==> lock.is_owner(),
    ;

    /// Attaches to the primitive of the key `cortex_key`, which exists. The
    /// instance does not own the primitive.
    fn attach(cortex_key: i32) -> (r: CortexResult<Self>)
        ensures
            r matches Ok(lock) ==> !lock.is_owner(),
            r matches Err(e) ==> e@ is CleanSystem,
    ;

    /// Blocks until the lock is granted for reading.
    fn read_lock(&self) -> (r: CortexResult<()>)
        ensures
            r matches Err(e) ==> e@ is CleanSystem,
    ;

    /// Blocks until the lock is granted for writing.
    fn write_lock(&self) -> (r: CortexResult<()>)
        ensures
            r matches Err(e) ==> e@ is CleanSystem,
    ;

    /// Releases what the last lock call granted.
    fn release(&self) -> (r: CortexResult<()>)
        ensures
            r matches Err(e) ==> e@ is CleanSystem,
    ;

    /// Takes over the duty to remove the primitive.
    fn force_ownership(&mut self)
        ensures
            final(self).is_owner(),
    ;
}

/// A handle to the segment of one key: the mapping of its single slot of
/// type `T` into this process, and the lock that guards the slot.
#[derive(Debug)]
pub struct Cortex<T, L> {
    key: i32,
    id: i32,
    size: usize,
    is_owner: bool,
    lock: L,
    addr: usize,
    slot: PhantomData<T>,
}

/// What a [`Cortex`] stands for.
pub struct CortexView<L> {
    /// The key that names the segment and, through its name, the lock.
    pub key: i32,
    /// The kernel's identifier of the segment.
    pub id: i32,
    /// The size of the slot in bytes.
    pub size: usize,
    /// Whether this handle is to remove the segment when it is disposed of.
    pub is_owner: bool,
    /// The lock that guards the slot.
    pub lock: L,
    /// The address at which the slot is mapped.
    pub addr: usize,
}

impl<T, L> View for Cortex<T, L> {
    type V = CortexView<L>;

    closed spec fn view(&self) -> CortexView<L> {
        CortexView {
            key: self.key,
            id: self.id,
            size: self.size,
            is_owner: self.is_owner,
            lock: self.lock,
            addr: self.addr,
        }
    }
}

/// The arguments of one call of `shmctl` that marks a segment for removal.
#[derive(Debug, Clone, Copy, PartialEq, Eq, Structural)]
pub struct Removal {
    pub id: i32,
    pub command: i32,
}

/// The command "mark the segment for removal".
pub const REMOVE: i32 = 0;

impl<L> CortexView<L> {
    /// What the disposal of the handle asks of the kernel for the segment:
    /// its removal if and only if the handle owns it.
    pub open spec fn removal(self) -> Option<Removal> {
        if self.is_owner {
            Some(Removal { id: self.id, command: REMOVE })
        } else {
            None
        }
    }
}

/// The label of a removal of the segment `id` that failed.
pub open spec fn removal_failed(id: i32) -> Seq<char> {
    "Error cleaning up shared memory with id: "@ + decimal(id as int)
}

/// What a status of the removal of the segment `id` makes: a dirty failure
/// where the status is -1, since the segment then remains, else success.
pub open spec fn cleared(id: i32, status: i32, os_error: i32) -> Result<(), CortexErrorView> {
    if status == -1 {
        Err(CortexErrorView::dirty(removal_failed(id), os_error))
    } else {
        Ok(())
    }
}

/// The call that marks the segment `id` for removal.
pub fn removal_of(id: i32) -> (removal: Removal)
    ensures
        removal == (Removal { id, command: REMOVE }),
{
    Removal { id, command: abi::ipc_rmid() }
}

/// Whether the removal of the segment `id` succeeded: `status` is what
/// `shmctl` returned, `os_error` the OS error number after the call.
pub fn try_clear_mem(id: i32, status: i32, os_error: i32) -> (r: CortexResult<()>)
    ensures
        outcome_view(r) == cleared(id, status, os_error),
{
    if status == -1 {
        let message = labelled("Error cleaning up shared memory with id: ", id);
        return Err(CortexError::new_dirty(message.as_str(), os_error));
    }
    Ok(())
}

impl<T, L> Cortex<T, L> {
    /// The handle made of these parts.
    pub(crate) fn assemble(
        key: i32,
        id: i32,
        size: usize,
        is_owner: bool,
        lock: L,
        addr: usize,
    ) -> (handle: Self)
        ensures
            handle@ == (CortexView { key, id, size, is_owner, lock, addr }),
    {
        Cortex { key, id, size, is_owner, lock, addr, slot: PhantomData }
    }

    /// The key that names the segment.
    pub fn key(&self) -> (key: i32)
        ensures
            key == self@.key,
    {
        self.key
    }

    /// The kernel's identifier of the segment.
    pub fn id(&self) -> (id: i32)
        ensures
            id == self@.id,
    {
        self.id
    }

    /// The size of the slot in bytes.
    pub fn size(&self) -> (size: usize)
        ensures
            size == self@.size,
    {
        self.size
    }

    /// Whether this handle is to remove the segment when it is disposed of.
    pub fn is_owner(&self) -> (r: bool)
        ensures
            r == self@.is_owner,
    {
        self.is_owner
    }

    /// The lock that guards the slot.
    pub fn lock(&self) -> (lock: &L)
        ensures
            *lock == self@.lock,
    {
        &self.lock
    }

    /// The address at which the slot is mapped.
    pub fn addr(&self) -> (addr: usize)
        ensures
            addr == self@.addr,
    {
        self.addr
    }

    /// What the disposal of this handle asks of the kernel for the segment:
    /// its removal if and only if the handle owns it. A handle that does not
    /// own the segment leaves it to the kernel, which detaches it when the
    /// process ends.
    pub fn dispose(&self) -> (removal: Option<Removal>)
        ensures
            removal == self@.removal(),
    {
        if self.is_owner {
            Some(removal_of(self.id))
        } else {
            None
        }
    }
}

} // verus!
