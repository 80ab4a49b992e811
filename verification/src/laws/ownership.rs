//! Who owns: the handle that created the segment, or took it over, and
//! nobody else; and what a handle that does not own leaves in place.

use crate::create::{
    after, begin, join, lock_answers, run, Creation, KeyChoice, ProgressView, Reply, Request,
    CREATE_FLAGS, EXISTS, LOOKUP_FLAGS, UNMAPPED,
};
use crate::handle::{CortexSync, CortexView};
use crate::laws::runs::{lemma_run_done, requests};
use crate::semaphore::{name_of, opened, settled, DisposalView};
use vstd::prelude::*;

verus! {

/// The size of the slot that a machine in `state` has in mind, where it has
/// one in mind.
pub open spec fn slot_size<'a, T, L: CortexSync>(state: Creation<'a, T, L>) -> Option<usize> {
    match state {
        Creation::Drawing { size, .. } => Some(size),
        Creation::Allocating { size, .. } => Some(size),
        Creation::Mapping { size, .. } => Some(size),
        Creation::Clearing { .. } => None,
        Creation::Storing { size, .. } => Some(size),
        Creation::Locking { size, .. } => Some(size),
        Creation::Joining { size, .. } => Some(size),
        Creation::Locating { size, .. } => Some(size),
        Creation::Attaching { size, .. } => Some(size),
        Creation::Claiming { size, .. } => Some(size),
    }
}

/// Whether a machine in `state` can only end in a handle that owns its
/// segment: every state of a creation, and the states of an attachment that
/// is to take the segment over.
pub open spec fn claims<'a, T, L: CortexSync>(state: Creation<'a, T, L>) -> bool {
    match state {
        Creation::Joining { takes_ownership, .. } => takes_ownership,
        Creation::Locating { takes_ownership, .. } => takes_ownership,
        Creation::Attaching { takes_ownership, .. } => takes_ownership,
        _ => true,
    }
}

/// Whether a machine in `state` attaches to the segment of `key` without
/// taking it over.
pub open spec fn shares<'a, T, L: CortexSync>(state: Creation<'a, T, L>, key: i32) -> bool {
    match state {
        Creation::Joining { takes_ownership, key: k, .. } => !takes_ownership && k == key,
        Creation::Locating { takes_ownership, key: k, .. } => !takes_ownership && k == key,
        Creation::Attaching { takes_ownership, key: k, .. } => !takes_ownership && k == key,
        _ => false,
    }
}

/// Whether a run stands where only a handle that owns its segment, with a
/// slot of `size` bytes, can come of it.
pub open spec fn ends_owning<'a, T, L: CortexSync>(
    at: ProgressView<'a, T, L>,
    size: usize,
) -> bool {
    match at {
        ProgressView::Pending { state, .. } => claims(state) && (slot_size(state) matches Some(s)
            ==> s == size),
        ProgressView::Done { result: Ok(handle) } => handle.is_owner && handle.size == size,
        ProgressView::Done { result: Err(_) } => true,
    }
}

/// Whether a run stands where only a handle to the segment of `key` that
/// does not own it, with a slot of `size` bytes, can come of it.
pub open spec fn ends_sharing<'a, T, L: CortexSync>(
    at: ProgressView<'a, T, L>,
    key: i32,
    size: usize,
) -> bool {
    match at {
        ProgressView::Pending { state, .. } => shares(state, key) && (
        slot_size(state) matches Some(s) ==> s == size),
        ProgressView::Done { result: Ok(handle) } => !handle.is_owner && handle.key == key
            && handle.size == size,
        ProgressView::Done { result: Err(_) } => true,
    }
}

/// A handle that comes of a creation owns its segment, whatever the kernel
/// replied on the way: it is the one that created the segment, or the one
/// that took it over. Its slot has the size that the creation began with.
pub proof fn lemma_creation_owns<'a, T, L: CortexSync>(
    init_key: Option<i32>,
    data: T,
    force_ownership: bool,
    settings: Option<&'a L::Settings>,
    size: usize,
    replies: Seq<Reply<L>>,
)
    ensures
        ({
            let from = begin::<T, L>(init_key, data, force_ownership, settings, size);
            run(from, replies) matches ProgressView::Done { result: Ok(handle) } ==> {
                &&& handle.is_owner
                &&& handle.size == size
                &&& init_key matches Some(key) ==> handle.key == key
            }
        }),
{
    let from = begin::<T, L>(init_key, data, force_ownership, settings, size);
    lemma_owning_run(from, replies, size);
    if let Some(key) = init_key {
        lemma_keyed_run(from, replies, key);
    }
}

/// A handle that comes of an attachment does not own its segment, whatever
/// the kernel replied on the way. It is a handle to the segment of the key
/// that was asked for, and its slot has the size that the attachment began
/// with.
pub proof fn lemma_attachment_never_owns<'a, T, L: CortexSync>(
    key: i32,
    size: usize,
    replies: Seq<Reply<L>>,
)
    ensures
        run(join::<T, L>(key, size, false), replies) matches ProgressView::Done {
            result: Ok(handle),
        } ==> !handle.is_owner && handle.key == key && handle.size == size,
{
    lemma_sharing_run(join::<T, L>(key, size, false), replies, key, size);
}

/// A run that stands where only an owning handle can come of it, stays
/// there.
pub proof fn lemma_owning_run<'a, T, L: CortexSync>(
    from: ProgressView<'a, T, L>,
    replies: Seq<Reply<L>>,
    size: usize,
)
    requires
        ends_owning(from, size),
    ensures
        ends_owning(run(from, replies), size),
    decreases replies.len(),
{
    if replies.len() > 0 {
        lemma_owning_run(after(from, replies[0]), replies.drop_first(), size);
    }
}

/// A run that stands where only a handle that does not own can come of it,
/// stays there.
pub proof fn lemma_sharing_run<'a, T, L: CortexSync>(
    from: ProgressView<'a, T, L>,
    replies: Seq<Reply<L>>,
    key: i32,
    size: usize,
)
    requires
        ends_sharing(from, key, size),
    ensures
        ends_sharing(run(from, replies), key, size),
    decreases replies.len(),
{
    if replies.len() > 0 {
        lemma_sharing_run(after(from, replies[0]), replies.drop_first(), key, size);
    }
}

/// Whether a run stands where only a handle to the segment of `key` can come
/// of it: in a creation or an attachment under that key, and not before a
/// random key is drawn.
spec fn keyed<'a, T, L: CortexSync>(at: ProgressView<'a, T, L>, key: i32) -> bool {
    match at {
        ProgressView::Pending { state: Creation::Drawing { .. }, .. } => false,
        ProgressView::Pending {
            state: Creation::Allocating { key: k, choice, .. },
            ..
        } => k == key && choice is Explicit,
        ProgressView::Pending { state: Creation::Mapping { key: k, .. }, .. } => k == key,
        ProgressView::Pending { state: Creation::Clearing { .. }, .. } => true,
        ProgressView::Pending { state: Creation::Storing { key: k, .. }, .. } => k == key,
        ProgressView::Pending { state: Creation::Locking { key: k, .. }, .. } => k == key,
        ProgressView::Pending { state: Creation::Joining { key: k, .. }, .. } => k == key,
        ProgressView::Pending { state: Creation::Locating { key: k, .. }, .. } => k == key,
        ProgressView::Pending { state: Creation::Attaching { key: k, .. }, .. } => k == key,
        ProgressView::Pending { state: Creation::Claiming { key: k, .. }, .. } => k == key,
        ProgressView::Done { result: Ok(handle) } => handle.key == key,
        ProgressView::Done { result: Err(_) } => true,
    }
}

proof fn lemma_keyed_run<'a, T, L: CortexSync>(
    from: ProgressView<'a, T, L>,
    replies: Seq<Reply<L>>,
    key: i32,
)
    requires
        keyed(from, key),
    ensures
        keyed(run(from, replies), key),
    decreases replies.len(),
{
    if replies.len() > 0 {
        lemma_keyed_run(after(from, replies[0]), replies.drop_first(), key);
    }
}

/// Whether the reply at the index `i` of a run says that the kernel created
/// the segment `id` under `key`, at a request that asked for a new segment
/// and not for one that exists.
pub open spec fn created_at<'a, T, L: CortexSync>(
    from: ProgressView<'a, T, L>,
    replies: Seq<Reply<L>>,
    key: i32,
    id: i32,
    i: int,
) -> bool {
    &&& 0 <= i < replies.len()
    &&& i < requests(from, replies).len()
    &&& requests(from, replies)[i] matches Request::Segment { key: k, flags, .. } && k == key
        && flags == CREATE_FLAGS
    &&& replies[i] matches Reply::Segment { id: granted, .. } && granted == id && id != -1
}

/// Whether, in a run from `from` over `replies`, the kernel created the
/// segment `id` under `key` at the run's request.
pub open spec fn created_in<'a, T, L: CortexSync>(
    from: ProgressView<'a, T, L>,
    replies: Seq<Reply<L>>,
    key: i32,
    id: i32,
) -> bool {
    exists|i: int| created_at(from, replies, key, id, i)
}

/// A handle that comes of a creation without takeover is a handle to a
/// segment that the kernel created in that very run, under the handle's key
/// and at a request that fails where the key exists. So where the kernel
/// keeps that promise, no second owner comes of a creation while the segment
/// exists.
pub proof fn lemma_owner_created_its_segment<'a, T, L: CortexSync>(
    init_key: Option<i32>,
    data: T,
    settings: Option<&'a L::Settings>,
    size: usize,
    replies: Seq<Reply<L>>,
)
    ensures
        ({
            let from = begin::<T, L>(init_key, data, false, settings, size);
            run(from, replies) matches ProgressView::Done { result: Ok(handle) } ==> {
                &&& handle.is_owner
                &&& created_in(from, replies, handle.key, handle.id)
            }
        }),
{
    let from = begin::<T, L>(init_key, data, false, settings, size);
    lemma_owning_run(from, replies, size);
    lemma_creating_run(from, replies);
}

/// Whether a run stands before the segment is created, in a creation without
/// takeover, with the request that fits its state.
spec fn seeks<'a, T, L: CortexSync>(at: ProgressView<'a, T, L>) -> bool {
    match at {
        ProgressView::Pending { state: Creation::Drawing { .. }, request } => request
            is DrawKey,
        ProgressView::Pending {
            state: Creation::Allocating { key, choice, .. },
            request,
        } => {
            &&& choice != (KeyChoice::Explicit { force_ownership: true })
            &&& request matches Request::Segment { key: k, flags, .. }
            &&& k == key
            &&& flags == CREATE_FLAGS
        },
        _ => false,
    }
}

/// Whether a run stands after the segment `id` was created under `key`: a
/// handle that comes of it is a handle to that segment.
spec fn holds<'a, T, L: CortexSync>(at: ProgressView<'a, T, L>, key: i32, id: i32) -> bool {
    match at {
        ProgressView::Pending { state: Creation::Mapping { key: k, id: i, .. }, .. } => k == key
            && i == id,
        ProgressView::Pending { state: Creation::Storing { key: k, id: i, .. }, .. } => k == key
            && i == id,
        ProgressView::Pending { state: Creation::Locking { key: k, id: i, .. }, .. } => k == key
            && i == id,
        ProgressView::Pending { state: Creation::Clearing { .. }, .. } => true,
        ProgressView::Done { result: Ok(handle) } => handle.key == key && handle.id == id,
        ProgressView::Done { result: Err(_) } => true,
        _ => false,
    }
}

proof fn lemma_holding_run<'a, T, L: CortexSync>(
    from: ProgressView<'a, T, L>,
    replies: Seq<Reply<L>>,
    key: i32,
    id: i32,
)
    requires
        holds(from, key, id),
    ensures
        holds(run(from, replies), key, id),
    decreases replies.len(),
{
    if replies.len() > 0 {
        lemma_holding_run(after(from, replies[0]), replies.drop_first(), key, id);
    }
}

proof fn lemma_creating_run<'a, T, L: CortexSync>(
    from: ProgressView<'a, T, L>,
    replies: Seq<Reply<L>>,
)
    requires
        seeks(from),
    ensures
        run(from, replies) matches ProgressView::Done { result: Ok(handle) } ==> created_in(
            from,
            replies,
            handle.key,
            handle.id,
        ),
    decreases replies.len(),
{
    if replies.len() > 0 {
        let next = after(from, replies[0]);
        let rest = replies.drop_first();
        match run(from, replies) {
            ProgressView::Done { result: Ok(handle) } => {
                if seeks(next) {
                    lemma_creating_run(next, rest);
                    let i = choose|i: int| created_at(next, rest, handle.key, handle.id, i);
                    assert(requests(from, replies)[i + 1] == requests(next, rest)[i]);
                    assert(replies[i + 1] == rest[i]);
                    assert(created_at(from, replies, handle.key, handle.id, i + 1));
                } else {
                    match (from, replies[0]) {
                        (
                            ProgressView::Pending { state: Creation::Allocating { key, .. }, .. },
                            Reply::Segment { id, .. },
                        ) => {
                            if id != -1 {
                                lemma_holding_run(next, rest, key, id);
                                assert(created_at(from, replies, key, id, 0));
                            } else {
                                lemma_run_done(next, rest);
                            }
                        },
                        _ => {
                            lemma_run_done(next, rest);
                        },
                    }
                }
            },
            _ => {},
        }
    }
}

/// The replies to a creation under a key that exists already, where the
/// kernel then hands out `lock`, the segment `id`, the address `addr` and the
/// lock `owned` that has taken its primitive over.
pub open spec fn takeover_replies<L>(
    lock: L,
    id: i32,
    looked_up: i32,
    addr: usize,
    mapped: i32,
    owned: L,
) -> Seq<Reply<L>> {
    seq![
        Reply::Segment { id: -1i32, os_error: EXISTS },
        Reply::Lock { lock: Ok(lock) },
        Reply::Segment { id, os_error: looked_up },
        Reply::Mapped { addr, os_error: mapped },
        Reply::Owned { lock: owned },
    ]
}

/// The requests of an attachment to the segment `id` of `key` that takes it
/// over, after the creation of `size` bytes under `key` was refused.
pub open spec fn takeover_requests<'a, T, L: CortexSync>(
    key: i32,
    size: usize,
    lock: L,
    id: i32,
) -> Seq<Request<'a, T, L>> {
    seq![
        Request::Segment { key, size, flags: CREATE_FLAGS },
        Request::AttachLock { key },
        Request::Segment { key, size: 0, flags: LOOKUP_FLAGS },
        Request::MapSegment { id },
        Request::OwnLock { lock },
    ]
}

/// A creation under a key of the caller's that exists already, with the
/// takeover asked for, attaches instead: it asks for the lock, looks the
/// segment up, maps it and has the lock take its primitive over. The handle
/// owns the segment. Nothing is stored and nothing removed on the way: a
/// handle that another process holds to the segment is not touched.
pub proof fn lemma_forced_takeover_owns<'a, T, L: CortexSync>(
    key: i32,
    data: T,
    settings: Option<&'a L::Settings>,
    size: usize,
    lock: L,
    id: i32,
    looked_up: i32,
    addr: usize,
    mapped: i32,
    owned: L,
)
    requires
        id != -1,
        addr != UNMAPPED,
    ensures
        ({
            let from: ProgressView<'a, T, L> = begin(Some(key), data, true, settings, size);
            let replies = takeover_replies(lock, id, looked_up, addr, mapped, owned);
            let taken: ProgressView<'a, T, L> = ProgressView::Done {
                result: Ok(CortexView { key, id, size, is_owner: true, lock: owned, addr }),
            };
            &&& run(from, replies) == taken
            &&& requests(from, replies) == takeover_requests::<T, L>(key, size, lock, id)
        }),
{
    let from: ProgressView<'a, T, L> = begin(Some(key), data, true, settings, size);
    let replies = takeover_replies(lock, id, looked_up, addr, mapped, owned);
    let wanted = takeover_requests::<T, L>(key, size, lock, id);
    let at1 = after(from, replies[0]);
    let at2 = after(at1, replies[1]);
    let at3 = after(at2, replies[2]);
    let at4 = after(at3, replies[3]);
    let at5 = after(at4, replies[4]);
    let s1 = replies.drop_first();
    let s2 = s1.drop_first();
    let s3 = s2.drop_first();
    let s4 = s3.drop_first();
    let s5 = s4.drop_first();
    assert(s5.len() == 0);
    assert(run(at5, s5) == at5);
    assert(run(at4, s4) == at5);
    assert(run(at3, s3) == at5);
    assert(run(at2, s2) == at5);
    assert(run(at1, s1) == at5);
    assert(requests(at5, s5) =~= Seq::empty());
    assert(requests(at4, s4) =~= wanted.skip(4));
    assert(requests(at3, s3) =~= wanted.skip(3));
    assert(requests(at2, s2) =~= wanted.skip(2));
    assert(requests(at1, s1) =~= wanted.skip(1));
    assert(requests(from, replies) =~= wanted);
}

/// Whether every reply of a run that answers a request of the lock's does
/// so as the lock does.
pub open spec fn locks_answer<'a, T, L: CortexSync>(
    from: ProgressView<'a, T, L>,
    replies: Seq<Reply<L>>,
) -> bool {
    forall|i: int|
        0 <= i < replies.len() && i < requests(from, replies).len() ==> lock_answers(
            #[trigger] requests(from, replies)[i],
            replies[i],
        )
}

/// A handle and its lock agree on ownership: in a handle that comes of a
/// creation, the lock owns its primitive as the handle owns the segment,
/// whether both were created or both taken over, as long as the lock
/// answered for itself.
pub proof fn lemma_created_lock_is_owned<'a, T, L: CortexSync>(
    init_key: Option<i32>,
    data: T,
    force_ownership: bool,
    settings: Option<&'a L::Settings>,
    size: usize,
    replies: Seq<Reply<L>>,
)
    requires
        locks_answer(begin::<T, L>(init_key, data, force_ownership, settings, size), replies),
    ensures
        ({
            let from = begin::<T, L>(init_key, data, force_ownership, settings, size);
            run(from, replies) matches ProgressView::Done { result: Ok(handle) } ==> {
                &&& handle.is_owner
                &&& handle.lock.is_owner()
            }
        }),
{
    let from = begin::<T, L>(init_key, data, force_ownership, settings, size);
    lemma_owning_run(from, replies, size);
    lemma_agreeing_run(from, replies);
}

/// A handle and its lock agree on ownership: in a handle that comes of an
/// attachment, neither owns anything, as long as the lock answered for
/// itself.
pub proof fn lemma_attached_lock_is_shared<'a, T, L: CortexSync>(
    key: i32,
    size: usize,
    replies: Seq<Reply<L>>,
) where L::Settings: 'a
    requires
        locks_answer(join::<T, L>(key, size, false), replies),
    ensures
        run(join::<T, L>(key, size, false), replies) matches ProgressView::Done {
            result: Ok(handle),
        } ==> !handle.is_owner && !handle.lock.is_owner(),
{
    let from: ProgressView<'a, T, L> = join(key, size, false);
    lemma_sharing_run(from, replies, key, size);
    lemma_agreeing_run(from, replies);
}

/// Whether a run stands where the lock that it holds, if it holds one, owns
/// its primitive exactly if the handle to come will own the segment, and
/// where the request fits the state.
spec fn agrees<'a, T, L: CortexSync>(at: ProgressView<'a, T, L>) -> bool {
    match at {
        ProgressView::Pending { state: Creation::Locking { .. }, request } => request
            is CreateLock,
        ProgressView::Pending { state: Creation::Joining { .. }, request } => request
            is AttachLock,
        ProgressView::Pending { state: Creation::Claiming { .. }, request } => request
            is OwnLock,
        ProgressView::Pending { state: Creation::Locating { lock, .. }, request } => !lock.is_owner()
            && !request.is_for_lock(),
        ProgressView::Pending { state: Creation::Attaching { lock, .. }, request } => !lock.is_owner()
            && !request.is_for_lock(),
        ProgressView::Pending { request, .. } => !request.is_for_lock(),
        ProgressView::Done { result: Ok(handle) } => handle.lock.is_owner() == handle.is_owner,
        ProgressView::Done { result: Err(_) } => true,
    }
}

proof fn lemma_agreeing_run<'a, T, L: CortexSync>(
    from: ProgressView<'a, T, L>,
    replies: Seq<Reply<L>>,
)
    requires
        agrees(from),
        locks_answer(from, replies),
    ensures
        agrees(run(from, replies)),
    decreases replies.len(),
{
    if replies.len() > 0 {
        let next = after(from, replies[0]);
        let rest = replies.drop_first();
        match from {
            ProgressView::Pending { request, .. } => {
                assert(requests(from, replies)[0] == request);
                assert(lock_answers(request, replies[0]));
                assert forall|i: int|
                    0 <= i < rest.len() && i < requests(next, rest).len() implies lock_answers(
                    #[trigger] requests(next, rest)[i],
                    rest[i],
                ) by {
                    assert(requests(from, replies)[i + 1] == requests(next, rest)[i]);
                    assert(replies[i + 1] == rest[i]);
                }
            },
            ProgressView::Done { .. } => {
                assert(requests(next, rest).len() == 0);
            },
        }
        lemma_agreeing_run(next, rest);
    }
}

/// A handle that came of an attachment asks nothing of the kernel when it
/// is disposed of: the segment stays.
pub proof fn lemma_attached_handle_leaves_segment<'a, T, L: CortexSync>(
    key: i32,
    size: usize,
    replies: Seq<Reply<L>>,
)
    ensures
        run(join::<T, L>(key, size, false), replies) matches ProgressView::Done {
            result: Ok(handle),
        } ==> handle.removal() is None,
{
    lemma_attachment_never_owns::<T, L>(key, size, replies);
}

/// A semaphore that was created asks the kernel, when it is disposed of, to
/// close its descriptor and to unlink the name of its key.
pub proof fn lemma_created_semaphore_removes_name(key: i32, semaphore: usize, os_error: i32)
    ensures
        opened(key, semaphore, os_error, true) matches Ok(lock) ==> lock.disposal() == (
        DisposalView { close: semaphore, unlink: Some(name_of(key)) }),
{
}

/// What the semaphore makes of the kernel's replies is what a lock promises:
/// one that was created owns its name, one that was attached to does not,
/// and a failure to open, to wait or to post is clean.
pub proof fn lemma_semaphore_keeps_the_promises_of_a_lock(
    key: i32,
    semaphore: usize,
    status: i32,
    os_error: i32,
    message: Seq<char>,
)
    ensures
        opened(key, semaphore, os_error, true) matches Ok(lock) ==> lock.is_owner,
        opened(key, semaphore, os_error, false) matches Ok(lock) ==> !lock.is_owner,
        opened(key, semaphore, os_error, true) matches Err(e) ==> e is CleanSystem,
        opened(key, semaphore, os_error, false) matches Err(e) ==> e is CleanSystem,
        settled(status, os_error, message) matches Err(e) ==> e is CleanSystem,
{
}

/// A semaphore that was attached to asks the kernel to close its descriptor
/// when it is disposed of, and no more: the name stays.
pub proof fn lemma_attached_semaphore_keeps_name(key: i32, semaphore: usize, os_error: i32)
    ensures
        opened(key, semaphore, os_error, false) matches Ok(lock) ==> lock.disposal() == (
        DisposalView { close: semaphore, unlink: None }),
{
}

} // verus!
