//! The slot: what is written is what is read, and neither happens without
//! the lock.

use crate::access::{
    begin_read, begin_write, AccessProgressView, AccessReply, AccessRequest,
};
use crate::create::{after, begin, run, Creation, KeyChoice, ProgressView, Reply, Request};
use crate::handle::CortexSync;
use crate::laws::runs::{lemma_run_done, requests};
use crate::access;
use vstd::prelude::*;

verus! {

/// What a kernel that grants every lock replies to `request` while the slot
/// holds `slot`, and what the slot holds then: a load yields what the slot
/// holds, and a store replaces it.
pub open spec fn serve<T>(request: AccessRequest<T>, slot: T) -> (AccessReply<T>, T) {
    match request {
        AccessRequest::ReadLock => (AccessReply::Locked { outcome: Ok(()) }, slot),
        AccessRequest::WriteLock => (AccessReply::Locked { outcome: Ok(()) }, slot),
        AccessRequest::Load { .. } => (AccessReply::Loaded { data: slot }, slot),
        AccessRequest::Store { data, .. } => (AccessReply::Stored, data),
        AccessRequest::Release => (AccessReply::Released { outcome: Ok(()) }, slot),
    }
}

/// Where an access and the slot stand after `steps` of its requests were
/// served.
pub open spec fn served<T>(at: AccessProgressView<T>, slot: T, steps: nat) -> (
    AccessProgressView<T>,
    T,
)
    decreases steps,
{
    if steps == 0 {
        (at, slot)
    } else {
        match at {
            AccessProgressView::Pending { state, request } => {
                let (reply, slot) = serve(request, slot);
                served(access::advance(state, reply), slot, (steps - 1) as nat)
            },
            _ => (at, slot),
        }
    }
}

/// A value that is written through one handle and then read through
/// another, or the same, comes back as it went in, whatever the slot held
/// before and wherever each handle has the slot mapped, as long as the
/// kernel grants the lock and the slot keeps what was stored last.
pub proof fn lemma_write_then_read<T>(writer: usize, reader: usize, data: T, before: T)
    ensures
        ({
            let (written, slot) = served(begin_write(writer, data), before, 3);
            let (read, after) = served(begin_read::<T>(reader), slot, 3);
            &&& written == AccessProgressView::<T>::Written { result: Ok(()) }
            &&& slot == data
            &&& read == AccessProgressView::<T>::Read { result: Ok(data) }
            &&& after == data
        }),
{
    reveal_with_fuel(served, 4);
}

/// A read that succeeds took the lock, loaded the slot under it, and
/// released the lock; what it gives is what was loaded.
pub proof fn lemma_read_gives_what_was_loaded<T>(addr: usize, replies: Seq<AccessReply<T>>)
    ensures
        access::run(begin_read::<T>(addr), replies) matches AccessProgressView::Read {
            result: Ok(data),
        } ==> {
            &&& replies.len() >= 3
            &&& replies[0] matches AccessReply::Locked { outcome: Ok(_) }
            &&& access::after(begin_read::<T>(addr), replies[0]) matches AccessProgressView::Pending {
                request: AccessRequest::Load { addr: from },
                ..
            } && from == addr
            &&& replies[1] == (AccessReply::Loaded { data })
            &&& replies[2] matches AccessReply::Released { outcome: Ok(_) }
        },
{
    reveal_with_fuel(access::run, 4);
    let at0 = begin_read::<T>(addr);
    if replies.len() >= 1 {
        let at1 = access::after(at0, replies[0]);
        let s1 = replies.drop_first();
        if s1.len() >= 1 {
            let at2 = access::after(at1, s1[0]);
            let s2 = s1.drop_first();
            if s2.len() >= 1 {
                let at3 = access::after(at2, s2[0]);
                lemma_access_done(at3, s2.drop_first());
            }
        }
    }
}

/// A write that succeeds took the lock, stored its payload under it at the
/// address of the slot, and released the lock.
pub proof fn lemma_write_stores_under_lock<T>(
    addr: usize,
    data: T,
    replies: Seq<AccessReply<T>>,
)
    ensures
        access::run(begin_write(addr, data), replies) matches AccessProgressView::Written {
            result: Ok(_),
        } ==> {
            &&& replies.len() >= 3
            &&& replies[0] matches AccessReply::Locked { outcome: Ok(_) }
            &&& access::after(begin_write(addr, data), replies[0]) matches AccessProgressView::Pending {
                request: AccessRequest::Store { addr: to, data: stored },
                ..
            } && to == addr && stored == data
            &&& replies[1] is Stored
            &&& replies[2] matches AccessReply::Released { outcome: Ok(_) }
        },
{
    reveal_with_fuel(access::run, 4);
    let at0 = begin_write(addr, data);
    if replies.len() >= 1 {
        let at1 = access::after(at0, replies[0]);
        let s1 = replies.drop_first();
        if s1.len() >= 1 {
            let at2 = access::after(at1, s1[0]);
            let s2 = s1.drop_first();
            if s2.len() >= 1 {
                let at3 = access::after(at2, s2[0]);
                lemma_access_done(at3, s2.drop_first());
            }
        }
    }
}

pub proof fn lemma_access_done<T>(from: AccessProgressView<T>, replies: Seq<AccessReply<T>>)
    requires
        !(from is Pending),
    ensures
        access::run(from, replies) == from,
    decreases replies.len(),
{
    if replies.len() > 0 {
        lemma_access_done(from, replies.drop_first());
    }
}

/// Whether the reply at the index `i` of a run says that `data` was stored
/// at `addr`, as the run had asked.
pub open spec fn stored_at<'a, T, L: CortexSync>(
    from: ProgressView<'a, T, L>,
    replies: Seq<Reply<L>>,
    addr: usize,
    data: T,
    i: int,
) -> bool {
    &&& 0 <= i < replies.len()
    &&& i < requests(from, replies).len()
    &&& requests(from, replies)[i] matches Request::Store { addr: to, data: stored } && to == addr
        && stored == data
    &&& replies[i] is Stored
}

/// Whether, in a run, `data` was stored at `addr` at the run's request.
pub open spec fn stored_in<'a, T, L: CortexSync>(
    from: ProgressView<'a, T, L>,
    replies: Seq<Reply<L>>,
    addr: usize,
    data: T,
) -> bool {
    exists|i: int| stored_at(from, replies, addr, data, i)
}

/// The slot of a handle that comes of a creation without takeover holds the
/// payload that the creation was given: the run had it stored, unchanged, at
/// the address that the handle has.
pub proof fn lemma_created_slot_holds_payload<'a, T, L: CortexSync>(
    init_key: Option<i32>,
    data: T,
    settings: Option<&'a L::Settings>,
    size: usize,
    replies: Seq<Reply<L>>,
)
    ensures
        ({
            let from = begin::<T, L>(init_key, data, false, settings, size);
            run(from, replies) matches ProgressView::Done { result: Ok(handle) } ==> stored_in(
                from,
                replies,
                handle.addr,
                data,
            )
        }),
{
    lemma_storing_run(begin::<T, L>(init_key, data, false, settings, size), replies, data);
}

/// Whether a run stands before the payload `data` is stored, in a creation
/// without takeover.
spec fn carries<'a, T, L: CortexSync>(at: ProgressView<'a, T, L>, data: T) -> bool {
    match at {
        ProgressView::Pending { state: Creation::Drawing { data: d, .. }, .. } => d == data,
        ProgressView::Pending {
            state: Creation::Allocating { data: d, choice, .. },
            ..
        } => d == data && choice != (KeyChoice::Explicit { force_ownership: true }),
        ProgressView::Pending { state: Creation::Mapping { data: d, .. }, .. } => d == data,
        _ => false,
    }
}

/// Whether a run stands after the payload was stored at `addr`.
spec fn addressed<'a, T, L: CortexSync>(at: ProgressView<'a, T, L>, addr: usize) -> bool {
    match at {
        ProgressView::Pending { state: Creation::Locking { addr: a, .. }, .. } => a == addr,
        ProgressView::Done { result: Ok(handle) } => handle.addr == addr,
        ProgressView::Done { result: Err(_) } => true,
        _ => false,
    }
}

/// Whether a run stands where no handle can come of it: it has failed, or
/// it removes the segment that it could not map.
spec fn fruitless<'a, T, L: CortexSync>(at: ProgressView<'a, T, L>) -> bool {
    match at {
        ProgressView::Pending { state: Creation::Clearing { .. }, .. } => true,
        ProgressView::Done { result: Err(_) } => true,
        _ => false,
    }
}

proof fn lemma_fruitless_run<'a, T, L: CortexSync>(
    from: ProgressView<'a, T, L>,
    replies: Seq<Reply<L>>,
)
    requires
        fruitless(from),
    ensures
        fruitless(run(from, replies)),
    decreases replies.len(),
{
    if replies.len() > 0 {
        lemma_fruitless_run(after(from, replies[0]), replies.drop_first());
    }
}

proof fn lemma_addressed_run<'a, T, L: CortexSync>(
    from: ProgressView<'a, T, L>,
    replies: Seq<Reply<L>>,
    addr: usize,
)
    requires
        addressed(from, addr),
    ensures
        addressed(run(from, replies), addr),
    decreases replies.len(),
{
    if replies.len() > 0 {
        lemma_addressed_run(after(from, replies[0]), replies.drop_first(), addr);
    }
}

proof fn lemma_storing_run<'a, T, L: CortexSync>(
    from: ProgressView<'a, T, L>,
    replies: Seq<Reply<L>>,
    data: T,
)
    requires
        carries(from, data),
    ensures
        run(from, replies) matches ProgressView::Done { result: Ok(handle) } ==> stored_in(
            from,
            replies,
            handle.addr,
            data,
        ),
    decreases replies.len(),
{
    if replies.len() > 0 {
        let next = after(from, replies[0]);
        let rest = replies.drop_first();
        match run(from, replies) {
            ProgressView::Done { result: Ok(handle) } => {
                assert(run(from, replies) == run(next, rest));
                if carries(next, data) {
                    lemma_storing_run(next, rest, data);
                    assert(stored_in(next, rest, handle.addr, data));
                    let i = choose|i: int| stored_at(next, rest, handle.addr, data, i);
                    assert(requests(from, replies)[i + 1] == requests(next, rest)[i]);
                    assert(replies[i + 1] == rest[i]);
                    assert(stored_at(from, replies, handle.addr, data, i + 1));
                } else {
                    match next {
                        ProgressView::Pending {
                            state: Creation::Storing { addr, .. },
                            request,
                        } => {
                            assert(rest.len() > 0);
                            let last = after(next, rest[0]);
                            assert(run(next, rest) == run(last, rest.drop_first()));
                            lemma_addressed_run(last, rest.drop_first(), addr);
                            if last is Done {
                                lemma_run_done(last, rest.drop_first());
                            }
                            assert(requests(from, replies)[1] == requests(next, rest)[0]);
                            assert(requests(next, rest)[0] == request);
                            assert(request matches Request::Store { addr: to, data: stored } && to
                                == addr && stored == data);
                            assert(replies[1] == rest[0]);
                            assert(stored_at(from, replies, addr, data, 1));
                        },
                        _ => {
                            lemma_fruitless_run(next, rest);
                        },
                    }
                }
            },
            _ => {},
        }
    }
}

} // verus!
