//! The numbers by which the kernel interface names permissions, flags,
//! commands and errors, taken from `libc` for the x86-64 Linux target.
//!
//! Each function here hands out one constant of `libc`. Verus does not read
//! `libc`: the value that each contract states is taken on trust from its
//! source.

use vstd::prelude::*;

verus! {

/// `libc::S_IRWXU`, the permission bits "read, write, execute" of the owner:
/// octal 700.
#[verifier::external_body]
pub(crate) fn s_irwxu() -> (bits: u32)
    ensures
        bits == 0o700,
{
    libc::S_IRWXU
}

/// `libc::S_IRWXG`, the permission bits "read, write, execute" of the group:
/// octal 070.
#[verifier::external_body]
pub(crate) fn s_irwxg() -> (bits: u32)
    ensures
        bits == 0o070,
{
    libc::S_IRWXG
}

/// `libc::S_IROTH`, the permission bit "read" of everyone else: octal 004.
#[verifier::external_body]
pub(crate) fn s_iroth() -> (bits: u32)
    ensures
        bits == 0o004,
{
    libc::S_IROTH
}

/// `libc::S_IWOTH`, the permission bit "write" of everyone else: octal 002.
#[verifier::external_body]
pub(crate) fn s_iwoth() -> (bits: u32)
    ensures
        bits == 0o002,
{
    libc::S_IWOTH
}

/// `libc::S_IXOTH`, the permission bit "execute" of everyone else: octal 001.
#[verifier::external_body]
pub(crate) fn s_ixoth() -> (bits: u32)
    ensures
        bits == 0o001,
{
    libc::S_IXOTH
}

/// `libc::O_CREAT`, the open flag "create the object if it is missing": 64
/// on x86-64 Linux.
#[verifier::external_body]
pub(crate) fn o_creat() -> (flag: i32)
    ensures
        flag == 64,
{
    libc::O_CREAT
}

/// `libc::O_EXCL`, the open flag "fail if the object exists": 128 on x86-64
/// Linux.
#[verifier::external_body]
pub(crate) fn o_excl() -> (flag: i32)
    ensures
        flag == 128,
{
    libc::O_EXCL
}

/// `libc::IPC_CREAT`, the System V flag "create the object if it is
/// missing": octal 1000.
#[verifier::external_body]
pub(crate) fn ipc_creat() -> (flag: i32)
    ensures
        flag == 0o1000,
{
    libc::IPC_CREAT
}

/// `libc::IPC_EXCL`, the System V flag "fail if the object exists": octal
/// 2000.
#[verifier::external_body]
pub(crate) fn ipc_excl() -> (flag: i32)
    ensures
        flag == 0o2000,
{
    libc::IPC_EXCL
}

/// `libc::IPC_RMID`, the System V command "mark the object for removal": 0.
#[verifier::external_body]
pub(crate) fn ipc_rmid() -> (command: i32)
    ensures
        command == 0,
{
    libc::IPC_RMID
}

/// `libc::EEXIST`, the error number "the object exists already": 17 on
/// Linux.
#[verifier::external_body]
pub(crate) fn eexist() -> (number: i32)
    ensures
        number == 17,
{
    libc::EEXIST
}

/// `libc::SEM_FAILED`, the address by which `sem_open` reports a failure: the
/// null address.
#[verifier::external_body]
pub(crate) fn sem_failed() -> (address: usize)
    ensures
        address == 0,
{
    libc::SEM_FAILED as usize
}

} // verus!
