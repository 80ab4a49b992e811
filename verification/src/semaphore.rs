//! The lock that the library brings along: one named counting semaphore per
//! key, created with count 1, so that a wait is an exclusive lock and a post
//! its release.
//!
//! This module holds what the lock decides: the kernel name, the arguments
//! of the open call, what each reply of the kernel means, and what its
//! disposal asks of the kernel.

use crate::abi;
use crate::crash::{outcome_view, CortexError, CortexErrorView};
use crate::handle::CortexResult;
use crate::text::{decimal, labelled, lemma_decimal_differs, lemma_decimal_shape};
use vstd::prelude::*;
use vstd::string::*;

verus! {

/// The kernel name of the semaphore that guards the segment of key `key`: a
/// fixed prefix, then the key in decimal.
pub open spec fn name_of(key: i32) -> Seq<char> {
    "cortex_semaphore_"@ + decimal(key as int)
}

/// The kernel name of the semaphore that guards the segment of key
/// `shmem_key`.
pub fn get_name(shmem_key: i32) -> (name: String)
    ensures
        name@ == name_of(shmem_key),
{
    labelled("cortex_semaphore_", shmem_key)
}

/// No kernel name holds a NUL character, so each can be handed to the kernel
/// as a C string.
pub proof fn lemma_name_has_no_nul(key: i32)
    ensures
        forall|i: int| 0 <= i < name_of(key).len() ==> #[trigger] name_of(key)[i] != '\0',
{
    reveal_strlit("cortex_semaphore_");
    lemma_decimal_shape(key as int);
    let prefix = "cortex_semaphore_"@;
    assert forall|i: int| 0 <= i < name_of(key).len() implies #[trigger] name_of(key)[i]
        != '\0' by {
        if i < prefix.len() {
            assert(name_of(key)[i] == prefix[i]);
        } else {
            assert(name_of(key)[i] == decimal(key as int)[i - prefix.len()]);
        }
    }
}

/// Different keys have different kernel names: no two segments share a
/// semaphore.
pub proof fn lemma_names_differ(a: i32, b: i32)
    requires
        a != b,
    ensures
        name_of(a) != name_of(b),
{
    lemma_decimal_differs(a as int, b as int);
    let prefix = "cortex_semaphore_"@;
    if name_of(a) == name_of(b) {
        assert(name_of(a).skip(prefix.len() as int) =~= decimal(a as int));
        assert(name_of(b).skip(prefix.len() as int) =~= decimal(b as int));
    }
}

/// The permissions with which a semaphore is created.
pub enum SemaphorePermission {
    /// Everything for the owner, nothing for anyone else.
    OwnerOnly,
    /// Everything for the owner and the group.
    OwnerAndGroup,
    /// Everything for the owner and the group; read and write for the rest.
    ReadWriteForOthers,
    /// Everything for the owner and the group; read for the rest.
    ReadOnlyForOthers,
    /// Everything for everyone.
    FullAccessForEveryone,
    /// The given mode bits.
    Custom(u32),
}

impl SemaphorePermission {
    /// The mode bits that the permission stands for.
    pub open spec fn mode(self) -> u32 {
        match self {
            SemaphorePermission::OwnerOnly => 0o700,
            SemaphorePermission::OwnerAndGroup => 0o770,
            SemaphorePermission::ReadWriteForOthers => 0o776,
            SemaphorePermission::ReadOnlyForOthers => 0o774,
            SemaphorePermission::FullAccessForEveryone => 0o777,
            SemaphorePermission::Custom(mode) => mode,
        }
    }

    /// The mode bits that the permission stands for.
    pub fn as_mode(&self) -> (mode: u32)
        ensures
            mode == self.mode(),
    {
        proof {
            assert(0o700u32 | 0o070u32 == 0o770u32) by (bit_vector);
            assert(0o770u32 | 0o004u32 == 0o774u32) by (bit_vector);
            assert(0o774u32 | 0o002u32 == 0o776u32) by (bit_vector);
            assert(0o776u32 | 0o001u32 == 0o777u32) by (bit_vector);
        }
        match self {
            SemaphorePermission::OwnerOnly => abi::s_irwxu(),
            SemaphorePermission::OwnerAndGroup => abi::s_irwxu() | abi::s_irwxg(),
            SemaphorePermission::ReadWriteForOthers => {
                abi::s_irwxu() | abi::s_irwxg() | abi::s_iroth() | abi::s_iwoth()
            },
            SemaphorePermission::ReadOnlyForOthers => {
                abi::s_irwxu() | abi::s_irwxg() | abi::s_iroth()
            },
            SemaphorePermission::FullAccessForEveryone => {
                abi::s_irwxu() | abi::s_irwxg() | abi::s_iroth() | abi::s_iwoth() | abi::s_ixoth()
            },
            SemaphorePermission::Custom(mode) => *mode,
        }
    }
}

/// How a semaphore is to be created.
pub struct SemaphoreSettings {
    pub mode: SemaphorePermission,
}

/// The mode bits with which a semaphore is created under `settings`: those
/// that the settings name, and the owner's alone without settings.
pub open spec fn creation_mode(settings: Option<&SemaphoreSettings>) -> u32 {
    match settings {
        Some(settings) => settings.mode.mode(),
        None => SemaphorePermission::OwnerOnly.mode(),
    }
}

/// The arguments of one call of `sem_open`.
pub struct OpenCall {
    pub name: String,
    pub oflag: i32,
    pub mode: u32,
    pub value: u32,
}

/// What an [`OpenCall`] stands for.
pub struct OpenCallView {
    pub name: Seq<char>,
    pub oflag: i32,
    pub mode: u32,
    pub value: u32,
}

impl View for OpenCall {
    type V = OpenCallView;

    open spec fn view(&self) -> OpenCallView {
        OpenCallView { name: self.name@, oflag: self.oflag, mode: self.mode, value: self.value }
    }
}

/// The open flags "create, and fail if the name exists".
pub const CREATE_EXCLUSIVE: i32 = 192;

/// What the disposal of a semaphore asks of the kernel: always to close the
/// descriptor, and to unlink the name where the semaphore owns it.
pub struct Disposal {
    pub close: usize,
    pub unlink: Option<String>,
}

/// What a [`Disposal`] stands for.
pub struct DisposalView {
    pub close: usize,
    pub unlink: Option<Seq<char>>,
}

impl View for Disposal {
    type V = DisposalView;

    open spec fn view(&self) -> DisposalView {
        DisposalView {
            close: self.close,
            unlink: match self.unlink {
                Some(name) => Some(name@),
                None => None,
            },
        }
    }
}

/// A lock that uses a single named semaphore for both read and write
/// access.
#[derive(Debug)]
pub struct Semaphore {
    semaphore: usize,
    name: String,
    is_owner: bool,
}

/// What a [`Semaphore`] stands for.
pub struct SemaphoreView {
    /// The address of the kernel's descriptor.
    pub semaphore: usize,
    /// The kernel name.
    pub name: Seq<char>,
    /// Whether this instance is to remove the name when it is disposed of.
    pub is_owner: bool,
}

impl View for Semaphore {
    type V = SemaphoreView;

    closed spec fn view(&self) -> SemaphoreView {
        SemaphoreView { semaphore: self.semaphore, name: self.name@, is_owner: self.is_owner }
    }
}

impl SemaphoreView {
    /// What the disposal of the semaphore asks of the kernel: to close the
    /// descriptor, and to unlink the name if and only if the instance owns
    /// it.
    pub open spec fn disposal(self) -> DisposalView {
        DisposalView {
            close: self.semaphore,
            unlink: if self.is_owner {
                Some(self.name)
            } else {
                None
            },
        }
    }
}

/// What a reply of `sem_open` for the key `key` makes: a failure where the
/// kernel handed out the null address, else a semaphore with the ownership
/// `is_owner`.
pub open spec fn opened(key: i32, semaphore: usize, os_error: i32, is_owner: bool) -> Result<
    SemaphoreView,
    CortexErrorView,
> {
    if semaphore == 0 {
        Err(CortexErrorView::clean("Error during sem_open"@, os_error))
    } else {
        Ok(SemaphoreView { semaphore, name: name_of(key), is_owner })
    }
}

/// What a status of `sem_wait` or `sem_post` makes: a clean failure labelled
/// `message` where the status is -1, else success.
pub open spec fn settled(status: i32, os_error: i32, message: Seq<char>) -> Result<
    (),
    CortexErrorView,
> {
    if status == -1 {
        Err(CortexErrorView::clean(message, os_error))
    } else {
        Ok(())
    }
}

/// The view of a result that holds a semaphore.
pub open spec fn view_opened(r: CortexResult<Semaphore>) -> Result<SemaphoreView, CortexErrorView> {
    match r {
        Ok(semaphore) => Ok(semaphore@),
        Err(e) => Err(e@),
    }
}

/// What a status of `sem_close` or `sem_unlink` makes: a dirty failure
/// labelled `message` where the status is -1, else success.
pub open spec fn disposed(status: i32, os_error: i32, message: Seq<char>) -> Result<
    (),
    CortexErrorView,
> {
    if status == -1 {
        Err(CortexErrorView::dirty(message, os_error))
    } else {
        Ok(())
    }
}

impl Semaphore {
    /// The call that creates the semaphore of the key `cortex_key`: it opens
    /// the name exclusively, with the mode of `settings` and the count 1.
    pub fn open_exclusive(cortex_key: i32, settings: Option<&SemaphoreSettings>) -> (call: OpenCall)
        ensures
            call@ == (OpenCallView {
                name: name_of(cortex_key),
                oflag: CREATE_EXCLUSIVE,
                mode: creation_mode(settings),
                value: 1,
            }),
    {
        let mode: u32 = match settings {
            Some(settings) => settings.mode.as_mode(),
            None => SemaphorePermission::OwnerOnly.as_mode(),
        };
        assert(128i32 | 64i32 == 192i32) by (bit_vector);
        let oflag: i32 = abi::o_excl() | abi::o_creat();
        OpenCall { name: get_name(cortex_key), oflag, mode, value: 1 }
    }

    /// The call that attaches to the semaphore of the key `cortex_key`: it
    /// opens the name as it is, without flags, mode or count.
    pub fn open_existing(cortex_key: i32) -> (call: OpenCall)
        ensures
            call@ == (OpenCallView { name: name_of(cortex_key), oflag: 0, mode: 0, value: 0 }),
    {
        OpenCall { name: get_name(cortex_key), oflag: 0, mode: 0, value: 0 }
    }

    /// The lock that owns the semaphore of the key `cortex_key`, from the
    /// reply to [`Semaphore::open_exclusive`]: `semaphore` is the address that
    /// the kernel handed out, `os_error` the OS error number after the call.
    pub fn new(cortex_key: i32, semaphore: usize, os_error: i32) -> (r: CortexResult<Self>)
        ensures
            view_opened(r) == opened(cortex_key, semaphore, os_error, true),
    {
        if semaphore == abi::sem_failed() {
            return Err(CortexError::new_clean("Error during sem_open", os_error));
        }
        Ok(Semaphore { semaphore, name: get_name(cortex_key), is_owner: true })
    }

    /// The lock that shares the semaphore of the key `cortex_key`, from the
    /// reply to [`Semaphore::open_existing`].
    pub fn attach(cortex_key: i32, semaphore: usize, os_error: i32) -> (r: CortexResult<Self>)
        ensures
            view_opened(r) == opened(cortex_key, semaphore, os_error, false),
    {
        if semaphore == abi::sem_failed() {
            return Err(CortexError::new_clean("Error during sem_open", os_error));
        }
        Ok(Semaphore { semaphore, name: get_name(cortex_key), is_owner: false })
    }

    /// Whether a wait on the semaphore for reading granted the lock:
    /// `status` is what `sem_wait` returned.
    pub fn read_lock(&self, status: i32, os_error: i32) -> (r: CortexResult<()>)
        ensures
            outcome_view(r) == settled(status, os_error, "Error during sem_wait"@),
    {
        if status == -1 {
            Err(CortexError::new_clean("Error during sem_wait", os_error))
        } else {
            Ok(())
        }
    }

    /// Whether a wait on the semaphore for writing granted the lock. The
    /// semaphore does not tell readers from writers: both are exclusive.
    pub fn write_lock(&self, status: i32, os_error: i32) -> (r: CortexResult<()>)
        ensures
            outcome_view(r) == settled(status, os_error, "Error during sem_wait"@),
    {
        if status == -1 {
            Err(CortexError::new_clean("Error during sem_wait", os_error))
        } else {
            Ok(())
        }
    }

    /// Whether a post on the semaphore released the lock: `status` is what
    /// `sem_post` returned.
    pub fn release(&self, status: i32, os_error: i32) -> (r: CortexResult<()>)
        ensures
            outcome_view(r) == settled(status, os_error, "Error during sem_release"@),
    {
        if status == -1 {
            Err(CortexError::new_clean("Error during sem_release", os_error))
        } else {
            Ok(())
        }
    }

    /// Makes this instance the one that removes the name.
    pub fn force_ownership(&mut self)
        ensures
            final(self)@ == (SemaphoreView { is_owner: true, ..old(self)@ }),
    {
        self.is_owner = true
    }

    /// What the disposal of this instance asks of the kernel: to close the
    /// descriptor, and to unlink the name if and only if the instance owns it.
    pub fn dispose(&self) -> (disposal: Disposal)
        ensures
            disposal@ == self@.disposal(),
    {
        let unlink = if self.is_owner {
            Some(self.name.clone())
        } else {
            None
        };
        Disposal { close: self.semaphore, unlink }
    }

    /// Whether the descriptor was closed: `status` is what `sem_close`
    /// returned. A descriptor that was not closed stays with the kernel, so
    /// the failure is dirty.
    pub fn closed(&self, status: i32, os_error: i32) -> (r: CortexResult<()>)
        ensures
            outcome_view(r) == disposed(status, os_error, "Error during sem_close"@),
    {
        if status == -1 {
            Err(CortexError::new_dirty("Error during sem_close", os_error))
        } else {
            Ok(())
        }
    }

    /// Whether the name was unlinked: `status` is what `sem_unlink`
    /// returned. A name that was not unlinked stays with the kernel, so the
    /// failure is dirty.
    pub fn unlinked(&self, status: i32, os_error: i32) -> (r: CortexResult<()>)
        ensures
            outcome_view(r) == disposed(status, os_error, "Error during sem_unlink"@),
    {
        if status == -1 {
            Err(CortexError::new_dirty("Error during sem_unlink", os_error))
        } else {
            Ok(())
        }
    }

    /// The address of the kernel's descriptor.
    pub fn semaphore(&self) -> (address: usize)
        ensures
            address == self@.semaphore,
    {
        self.semaphore
    }

    /// The kernel name.
    pub fn name(&self) -> (name: &str)
        ensures
            name@ == self@.name,
    {
        self.name.as_str()
    }

    /// Whether this instance is to remove the name when it is disposed of.
    pub fn is_owner(&self) -> (r: bool)
        ensures
            r == self@.is_owner,
    {
        self.is_owner
    }
}

} // verus!
