//! How a handle comes to be: by creating the segment of a key, or by
//! attaching to one that exists.
//!
//! Both are machines. A machine in a state waits for the kernel's reply to
//! one request; [`Creation::step`] takes the reply and gives the next state
//! with its request, or the result.

use crate::abi;
use crate::crash::{CortexError, CortexErrorView};
use crate::handle::{Cortex, CortexResult, CortexSync, CortexView, REMOVE};
use crate::text::{decimal, labelled};
use vstd::prelude::*;

verus! {

/// How often a random key that collided is replaced by a fresh one.
pub const RETRY_LIMIT: u32 = 20;

/// The flags of a segment's creation: create, fail if the key exists, and
/// let everyone read and write.
pub const CREATE_FLAGS: i32 = 0o3666;

/// The flags of a segment's lookup: none but the mode.
pub const LOOKUP_FLAGS: i32 = 0o666;

/// The OS error number "the object exists already".
pub const EXISTS: i32 = 17;

/// The address by which the kernel reports that it mapped nothing.
pub const UNMAPPED: usize = usize::MAX;

/// How the key of a creation was chosen.
pub enum KeyChoice {
    /// The caller named it, and said whether a segment that exists is to be
    /// taken over.
    Explicit { force_ownership: bool },
    /// It was drawn at random, after `retries` earlier draws collided.
    Random { retries: u32 },
}

/// What the machine asks of the kernel, of the random source or of the lock.
pub enum Request<'a, T, L: CortexSync> {
    /// Draw a random key.
    DrawKey,
    /// Call `shmget` with these arguments.
    Segment { key: i32, size: usize, flags: i32 },
    /// Map the segment `id` into this process, at an address of the kernel's
    /// choice.
    MapSegment { id: i32 },
    /// Call `shmctl` on the segment `id` with `command`.
    RemoveSegment { id: i32, command: i32 },
    /// Copy `data` bit by bit to the slot at `addr`, without dropping what
    /// the slot held.
    Store { addr: usize, data: T },
    /// Create the lock of the key `key`.
    CreateLock { key: i32, settings: Option<&'a L::Settings> },
    /// Attach to the lock of the key `key`.
    AttachLock { key: i32 },
    /// Have `lock` take over the duty to remove its primitive.
    OwnLock { lock: L },
}

/// What came back.
#[allow(inconsistent_fields)]
pub enum Reply<L> {
    /// The key that was drawn.
    Key { key: i32 },
    /// What `shmget` returned, and the OS error number after the call.
    Segment { id: i32, os_error: i32 },
    /// The address that `shmat` returned, and the OS error number after the
    /// call.
    Mapped { addr: usize, os_error: i32 },
    /// What `shmctl` returned, and the OS error number after the call.
    Removed { status: i32, os_error: i32 },
    /// The payload is in the slot.
    Stored,
    /// The lock, or why there is none.
    Lock { lock: CortexResult<L> },
    /// The lock, which now removes its primitive when it is disposed of.
    Owned { lock: L },
}

/// A creation or an attachment under way: what it has so far, and, by its
/// variant, the reply that it waits for.
pub enum Creation<'a, T, L: CortexSync> {
    /// Waits for a random key.
    Drawing { data: T, size: usize, settings: Option<&'a L::Settings>, retries: u32 },
    /// Waits for the reply to the creation of the segment.
    Allocating {
        data: T,
        size: usize,
        settings: Option<&'a L::Settings>,
        key: i32,
        choice: KeyChoice,
    },
    /// Waits for the address of the segment that was created.
    Mapping { data: T, size: usize, settings: Option<&'a L::Settings>, key: i32, id: i32 },
    /// Waits for the removal of a segment that could not be mapped.
    Clearing { id: i32, os_error: i32 },
    /// Waits for the payload to be stored.
    Storing { size: usize, settings: Option<&'a L::Settings>, key: i32, id: i32, addr: usize },
    /// Waits for the lock that is created.
    Locking { size: usize, key: i32, id: i32, addr: usize },
    /// Waits for the lock that is attached to.
    Joining { size: usize, key: i32, takes_ownership: bool },
    /// Waits for the reply to the lookup of the segment.
    Locating { size: usize, key: i32, lock: L, takes_ownership: bool },
    /// Waits for the address of the segment that was found.
    Attaching { size: usize, key: i32, id: i32, lock: L, takes_ownership: bool },
    /// Waits for the lock to take its primitive over.
    Claiming { size: usize, key: i32, id: i32, addr: usize },
}

/// Where a creation or an attachment stands.
pub enum Progress<'a, T, L: CortexSync> {
    /// It waits, in `state`, for the reply to `request`.
    Pending { state: Creation<'a, T, L>, request: Request<'a, T, L> },
    /// It has ended.
    Done { result: CortexResult<Cortex<T, L>> },
}

/// What a [`Progress`] stands for.
pub enum ProgressView<'a, T, L: CortexSync> {
    Pending { state: Creation<'a, T, L>, request: Request<'a, T, L> },
    Done { result: Result<CortexView<L>, CortexErrorView> },
}

impl<'a, T, L: CortexSync> View for Progress<'a, T, L> {
    type V = ProgressView<'a, T, L>;

    open spec fn view(&self) -> ProgressView<'a, T, L> {
        match *self {
            Progress::Pending { state, request } => ProgressView::Pending { state, request },
            Progress::Done { result: Ok(handle) } => ProgressView::Done { result: Ok(handle@) },
            Progress::Done { result: Err(e) } => ProgressView::Done { result: Err(e@) },
        }
    }
}

/// The label of a mapping of the new segment `id` that failed.
pub open spec fn mapping_failed(id: i32) -> Seq<char> {
    "Error during shmat for id: "@ + decimal(id as int)
}

/// The label of a lookup of the segment of `key` that failed.
pub open spec fn lookup_failed(key: i32) -> Seq<char> {
    "Error during shmget for key: "@ + decimal(key as int)
}

/// The end of a machine in failure.
pub open spec fn failed<'a, T, L: CortexSync>(e: CortexErrorView) -> ProgressView<'a, T, L> {
    ProgressView::Done { result: Err(e) }
}

/// The end of a machine that was handed a reply to another request than its
/// own. What the kernel holds by then is unknown, so the failure is dirty.
pub open spec fn out_of_order<'a, T, L: CortexSync>() -> ProgressView<'a, T, L> {
    failed(CortexErrorView::dirty("Reply does not answer the request"@, 0))
}

/// Where a creation stands before its first reply: with a key of the
/// caller's it asks for the segment, without one for a random key.
pub open spec fn begin<'a, T, L: CortexSync>(
    init_key: Option<i32>,
    data: T,
    force_ownership: bool,
    settings: Option<&'a L::Settings>,
    size: usize,
) -> ProgressView<'a, T, L> {
    match init_key {
        Some(key) => ProgressView::Pending {
            state: Creation::Allocating {
                data,
                size,
                settings,
                key,
                choice: KeyChoice::Explicit { force_ownership },
            },
            request: Request::Segment { key, size, flags: CREATE_FLAGS },
        },
        None => ProgressView::Pending {
            state: Creation::Drawing { data, size, settings, retries: 0 },
            request: Request::DrawKey,
        },
    }
}

/// Where an attachment to the segment of `key` stands before its first
/// reply: it asks for the lock. A handle that comes of it owns the segment
/// if and only if `takes_ownership` is set.
pub open spec fn join<'a, T, L: CortexSync>(
    key: i32,
    size: usize,
    takes_ownership: bool,
) -> ProgressView<'a, T, L> {
    ProgressView::Pending {
        state: Creation::Joining { size, key, takes_ownership },
        request: Request::AttachLock { key },
    }
}

/// What follows a refusal of the kernel to create the segment of `key`.
///
/// Where the key exists already: a key of the caller's is attached to and
/// taken over if the caller asked for that, and is an error if not; a random
/// key is replaced by a fresh one, [`RETRY_LIMIT`] times at most. Any other
/// refusal is an error. Nothing was allocated, so each error is clean.
pub open spec fn refused<'a, T, L: CortexSync>(
    data: T,
    size: usize,
    settings: Option<&'a L::Settings>,
    key: i32,
    choice: KeyChoice,
    os_error: i32,
) -> ProgressView<'a, T, L> {
    let give_up = failed(CortexErrorView::clean("Error during shmget"@, os_error));
    if os_error != EXISTS {
        give_up
    } else {
        match choice {
            KeyChoice::Explicit { force_ownership } => if force_ownership {
                join(key, size, true)
            } else {
                give_up
            },
            KeyChoice::Random { retries } => if retries < RETRY_LIMIT {
                ProgressView::Pending {
                    state: Creation::Drawing {
                        data,
                        size,
                        settings,
                        retries: (retries + 1) as u32,
                    },
                    request: Request::DrawKey,
                }
            } else {
                give_up
            },
        }
    }
}

/// Where the machine stands after `reply` came in while it was in `state`.
pub open spec fn advance<'a, T, L: CortexSync>(
    state: Creation<'a, T, L>,
    reply: Reply<L>,
) -> ProgressView<'a, T, L> {
    match (state, reply) {
        (Creation::Drawing { data, size, settings, retries }, Reply::Key { key }) => {
            ProgressView::Pending {
                state: Creation::Allocating {
                    data,
                    size,
                    settings,
                    key,
                    choice: KeyChoice::Random { retries },
                },
                request: Request::Segment { key, size, flags: CREATE_FLAGS },
            }
        },
        (
            Creation::Allocating { data, size, settings, key, choice },
            Reply::Segment { id, os_error },
        ) => {
            if id == -1 {
                refused(data, size, settings, key, choice, os_error)
            } else {
                ProgressView::Pending {
                    state: Creation::Mapping { data, size, settings, key, id },
                    request: Request::MapSegment { id },
                }
            }
        },
        (Creation::Mapping { data, size, settings, key, id }, Reply::Mapped { addr, os_error }) => {
            if addr == UNMAPPED {
                ProgressView::Pending {
                    state: Creation::Clearing { id, os_error },
                    request: Request::RemoveSegment { id, command: REMOVE },
                }
            } else {
                ProgressView::Pending {
                    state: Creation::Storing { size, settings, key, id, addr },
                    request: Request::Store { addr, data },
                }
            }
        },
        (Creation::Clearing { id, os_error }, Reply::Removed { .. }) => {
            failed(CortexErrorView::clean(mapping_failed(id), os_error))
        },
        (Creation::Storing { size, settings, key, id, addr }, Reply::Stored) => {
            ProgressView::Pending {
                state: Creation::Locking { size, key, id, addr },
                request: Request::CreateLock { key, settings },
            }
        },
        (Creation::Locking { size, key, id, addr }, Reply::Lock { lock }) => {
            match lock {
                Ok(lock) => ProgressView::Done {
                    result: Ok(CortexView { key, id, size, is_owner: true, lock, addr }),
                },
                Err(e) => failed(e@.as_dirty()),
            }
        },
        (Creation::Joining { size, key, takes_ownership }, Reply::Lock { lock }) => {
            match lock {
                Ok(lock) => ProgressView::Pending {
                    state: Creation::Locating { size, key, lock, takes_ownership },
                    request: Request::Segment { key, size: 0, flags: LOOKUP_FLAGS },
                },
                Err(e) => failed(e@),
            }
        },
        (
            Creation::Locating { size, key, lock, takes_ownership },
            Reply::Segment { id, os_error },
        ) => {
            if id == -1 {
                failed(CortexErrorView::clean(lookup_failed(key), os_error))
            } else {
                ProgressView::Pending {
                    state: Creation::Attaching { size, key, id, lock, takes_ownership },
                    request: Request::MapSegment { id },
                }
            }
        },
        (
            Creation::Attaching { size, key, id, lock, takes_ownership },
            Reply::Mapped { addr, os_error },
        ) => {
            if addr == UNMAPPED {
                failed(CortexErrorView::clean("Error during shmat"@, os_error))
            } else if takes_ownership {
                ProgressView::Pending {
                    state: Creation::Claiming { size, key, id, addr },
                    request: Request::OwnLock { lock },
                }
            } else {
                ProgressView::Done {
                    result: Ok(CortexView { key, id, size, is_owner: false, lock, addr }),
                }
            }
        },
        (Creation::Claiming { size, key, id, addr }, Reply::Owned { lock }) => {
            ProgressView::Done {
                result: Ok(CortexView { key, id, size, is_owner: true, lock, addr }),
            }
        },
        _ => out_of_order(),
    }
}

/// Where the machine stands after the replies `replies` came in, one after
/// the other, from where it stood at `from`. Replies that come after the end
/// change nothing.
pub open spec fn run<'a, T, L: CortexSync>(
    from: ProgressView<'a, T, L>,
    replies: Seq<Reply<L>>,
) -> ProgressView<'a, T, L>
    decreases replies.len(),
{
    if replies.len() == 0 {
        from
    } else {
        run(after(from, replies[0]), replies.drop_first())
    }
}

/// Where the machine stands after `reply` came in while it stood at `from`.
/// A reply that comes after the end changes nothing.
pub open spec fn after<'a, T, L: CortexSync>(
    from: ProgressView<'a, T, L>,
    reply: Reply<L>,
) -> ProgressView<'a, T, L> {
    match from {
        ProgressView::Pending { state, .. } => advance(state, reply),
        ProgressView::Done { .. } => from,
    }
}

/// The end of a machine that was handed a reply to another request than its
/// own.
fn reject<'a, T, L: CortexSync>() -> (next: Progress<'a, T, L>)
    ensures
        next@ == out_of_order::<T, L>(),
{
    Progress::Done { result: Err(CortexError::new_dirty("Reply does not answer the request", 0)) }
}

/// The first step of an attachment to the segment of `key`.
fn start_join<'a, T, L: CortexSync>(key: i32, size: usize, takes_ownership: bool) -> (next:
    Progress<'a, T, L>)
    ensures
        next@ == join::<T, L>(key, size, takes_ownership),
{
    Progress::Pending {
        state: Creation::Joining { size, key, takes_ownership },
        request: Request::AttachLock { key },
    }
}

/// What follows a refusal of the kernel to create the segment of `key`.
fn after_refusal<'a, T, L: CortexSync>(
    data: T,
    size: usize,
    settings: Option<&'a L::Settings>,
    key: i32,
    choice: KeyChoice,
    os_error: i32,
) -> (next: Progress<'a, T, L>)
    ensures
        next@ == refused::<T, L>(data, size, settings, key, choice, os_error),
{
    if os_error == abi::eexist() {
        match choice {
            KeyChoice::Explicit { force_ownership } => {
                if force_ownership {
                    return start_join(key, size, true);
                }
            },
            KeyChoice::Random { retries } => {
                if retries < RETRY_LIMIT {
                    return Progress::Pending {
                        state: Creation::Drawing { data, size, settings, retries: retries + 1 },
                        request: Request::DrawKey,
                    };
                }
            },
        }
    }
    Progress::Done { result: Err(CortexError::new_clean("Error during shmget", os_error)) }
}

impl<'a, T, L: CortexSync> Creation<'a, T, L> {
    /// Takes the reply to the pending request and moves on.
    ///
    /// A creation asks for the segment of its key, to be created and not
    /// merely found; maps it; has the payload stored; and has the lock
    /// created last. The handle that comes of it owns the segment. Where the
    /// segment cannot be mapped it is removed again, as far as the kernel
    /// allows, and the failure is clean; where the lock cannot be created the
    /// segment stays, and the failure is dirty.
    ///
    /// An attachment asks for the lock first, then looks the segment up and
    /// maps it. It stores nothing: the slot keeps what it holds. Where it is
    /// to take the segment over, it has the lock take its primitive over
    /// too, and the handle that comes of it owns the segment; else the handle
    /// does not.
    pub fn step(self, reply: Reply<L>) -> (next: Progress<'a, T, L>)
        ensures
            next@ == advance(self, reply),
    {
        match self {
            Creation::Drawing { data, size, settings, retries } => match reply {
                Reply::Key { key } => Progress::Pending {
                    state: Creation::Allocating {
                        data,
                        size,
                        settings,
                        key,
                        choice: KeyChoice::Random { retries },
                    },
                    request: Request::Segment { key, size, flags: create_flags() },
                },
                _ => reject(),
            },
            Creation::Allocating { data, size, settings, key, choice } => match reply {
                Reply::Segment { id, os_error } => {
                    if id == -1 {
                        after_refusal(data, size, settings, key, choice, os_error)
                    } else {
                        Progress::Pending {
                            state: Creation::Mapping { data, size, settings, key, id },
                            request: Request::MapSegment { id },
                        }
                    }
                },
                _ => reject(),
            },
            Creation::Mapping { data, size, settings, key, id } => match reply {
                Reply::Mapped { addr, os_error } => {
                    if addr == UNMAPPED {
                        Progress::Pending {
                            state: Creation::Clearing { id, os_error },
                            request: Request::RemoveSegment { id, command: abi::ipc_rmid() },
                        }
                    } else {
                        Progress::Pending {
                            state: Creation::Storing { size, settings, key, id, addr },
                            request: Request::Store { addr, data },
                        }
                    }
                },
                _ => reject(),
            },
            Creation::Clearing { id, os_error } => match reply {
                Reply::Removed { .. } => {
                    let message = labelled("Error during shmat for id: ", id);
                    Progress::Done {
                        result: Err(CortexError::new_clean(message.as_str(), os_error)),
                    }
                },
                _ => reject(),
            },
            Creation::Storing { size, settings, key, id, addr } => match reply {
                Reply::Stored => Progress::Pending {
                    state: Creation::Locking { size, key, id, addr },
                    request: Request::CreateLock { key, settings },
                },
                _ => reject(),
            },
            Creation::Locking { size, key, id, addr } => match reply {
                Reply::Lock { lock } => match lock {
                    Ok(lock) => Progress::Done {
                        result: Ok(Cortex::assemble(key, id, size, true, lock, addr)),
                    },
                    Err(e) => Progress::Done { result: Err(e.into_dirty()) },
                },
                _ => reject(),
            },
            Creation::Joining { size, key, takes_ownership } => match reply {
                Reply::Lock { lock } => match lock {
                    Ok(lock) => Progress::Pending {
                        state: Creation::Locating { size, key, lock, takes_ownership },
                        request: Request::Segment { key, size: 0, flags: LOOKUP_FLAGS },
                    },
                    Err(e) => Progress::Done { result: Err(e) },
                },
                _ => reject(),
            },
            Creation::Locating { size, key, lock, takes_ownership } => match reply {
                Reply::Segment { id, os_error } => {
                    if id == -1 {
                        let message = labelled("Error during shmget for key: ", key);
                        Progress::Done {
                            result: Err(CortexError::new_clean(message.as_str(), os_error)),
                        }
                    } else {
                        Progress::Pending {
                            state: Creation::Attaching { size, key, id, lock, takes_ownership },
                            request: Request::MapSegment { id },
                        }
                    }
                },
                _ => reject(),
            },
            Creation::Attaching { size, key, id, lock, takes_ownership } => match reply {
                Reply::Mapped { addr, os_error } => {
                    if addr == UNMAPPED {
                        Progress::Done {
                            result: Err(CortexError::new_clean("Error during shmat", os_error)),
                        }
                    } else if takes_ownership {
                        Progress::Pending {
                            state: Creation::Claiming { size, key, id, addr },
                            request: Request::OwnLock { lock },
                        }
                    } else {
                        Progress::Done {
                            result: Ok(Cortex::assemble(key, id, size, false, lock, addr)),
                        }
                    }
                },
                _ => reject(),
            },
            Creation::Claiming { size, key, id, addr } => match reply {
                Reply::Owned { lock } => Progress::Done {
                    result: Ok(Cortex::assemble(key, id, size, true, lock, addr)),
                },
                _ => reject(),
            },
        }
    }
}

/// Whether `reply` is of the kind that `request` asks for.
pub open spec fn fits<'a, T, L: CortexSync>(request: Request<'a, T, L>, reply: Reply<L>) -> bool {
    match request {
        Request::DrawKey => reply is Key,
        Request::Segment { .. } => reply is Segment,
        Request::MapSegment { .. } => reply is Mapped,
        Request::RemoveSegment { .. } => reply is Removed,
        Request::Store { .. } => reply is Stored,
        Request::CreateLock { .. } => reply is Lock,
        Request::AttachLock { .. } => reply is Lock,
        Request::OwnLock { .. } => reply is Owned,
    }
}

/// Whether `reply` answers `request` as the lock does: a lock that was
/// created owns its primitive, one that was attached to does not, and one
/// that was told to take its primitive over owns it; an attachment to the
/// lock that fails, fails cleanly. A request that is not the lock's is
/// answered by any reply.
pub open spec fn lock_answers<'a, T, L: CortexSync>(
    request: Request<'a, T, L>,
    reply: Reply<L>,
) -> bool {
    match request {
        Request::CreateLock { .. } => reply matches Reply::Lock { lock } && (lock matches Ok(made)
            ==> made.is_owner()),
        Request::AttachLock { .. } => reply matches Reply::Lock { lock } && (lock matches Ok(found)
            ==> !found.is_owner()) && (lock matches Err(e) ==> e@ is CleanSystem),
        Request::OwnLock { .. } => reply matches Reply::Owned { lock } && lock.is_owner(),
        _ => true,
    }
}

impl<'a, T, L: CortexSync> Request<'a, T, L> {
    /// Whether the request is the lock's to answer, and not the kernel's.
    pub open spec fn is_for_lock(self) -> bool {
        self is CreateLock || self is AttachLock || self is OwnLock
    }

    /// Answers the request where it is the lock's to answer, by the call of
    /// the lock that it names; hands it back where it is the kernel's.
    pub fn answer_lock(self) -> (r: Result<Reply<L>, Self>)
        ensures
            r is Ok <==> self.is_for_lock(),
            r matches Ok(reply) ==> lock_answers(self, reply),
            r matches Err(back) ==> back == self,
    {
        match self {
            Request::CreateLock { key, settings } => {
                Ok(Reply::Lock { lock: L::new(key, settings) })
            },
            Request::AttachLock { key } => Ok(Reply::Lock { lock: L::attach(key) }),
            Request::OwnLock { lock } => {
                let mut lock = lock;
                lock.force_ownership();
                Ok(Reply::Owned { lock })
            },
            _ => Err(self),
        }
    }
}

/// The flags of a segment's creation, put together from the kernel's own.
fn create_flags() -> (flags: i32)
    ensures
        flags == CREATE_FLAGS,
{
    assert(0o1000i32 | 0o2000i32 | 0o666i32 == 0o3666i32) by (bit_vector);
    abi::ipc_creat() | abi::ipc_excl() | LOOKUP_FLAGS
}

impl<T, L: CortexSync> Cortex<T, L> {
    /// Begins the creation of a segment that holds `data`, under the key
    /// `init_key` or, without one, under a random key.
    ///
    /// `force_ownership` counts with a key of the caller's only: if its
    /// segment exists already, the creation attaches to it and the handle
    /// takes it over, lock and all; what the slot holds then stays, and
    /// `data` is not stored. It is for the caller to know that the segment
    /// holds a `T`.
    pub fn new<'a>(
        init_key: Option<i32>,
        data: T,
        force_ownership: bool,
        lock_settings: Option<&'a L::Settings>,
    ) -> (first: Progress<'a, T, L>)
        ensures
            first@ == begin::<T, L>(
                init_key,
                data,
                force_ownership,
                lock_settings,
                vstd::layout::size_of::<T>() as usize,
            ),
    {
        let size = core::mem::size_of::<T>();
        match init_key {
            Some(key) => Progress::Pending {
                state: Creation::Allocating {
                    data,
                    size,
                    settings: lock_settings,
                    key,
                    choice: KeyChoice::Explicit { force_ownership },
                },
                request: Request::Segment { key, size, flags: create_flags() },
            },
            None => Progress::Pending {
                state: Creation::Drawing { data, size, settings: lock_settings, retries: 0 },
                request: Request::DrawKey,
            },
        }
    }

    /// Begins the attachment to the segment of `key`, which exists. The
    /// handle that comes of it does not own the segment.
    pub fn attach<'a>(key: i32) -> (first: Progress<'a, T, L>)
        ensures
            first@ == join::<T, L>(key, vstd::layout::size_of::<T>() as usize, false),
    {
        start_join(key, core::mem::size_of::<T>(), false)
    }
}

} // verus!
