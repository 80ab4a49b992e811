//! Which failures are clean and which are dirty: a failure is dirty where
//! something stays behind, and only there.

use crate::access::{AccessProgressView, AccessReply};
use crate::access;
use crate::crash::CortexErrorView;
use crate::create::{
    after, begin, fits, join, lock_answers, lookup_failed, run, Creation, ProgressView, Reply,
};
use crate::handle::CortexSync;
use crate::laws::ownership::{ends_sharing, locks_answer};
use crate::laws::runs::{lemma_run_done, lemma_run_push, requests};
use crate::laws::slot::lemma_access_done;
use vstd::prelude::*;

verus! {

/// Whether every reply of a run is of the kind that its request asks for.
pub open spec fn in_order<'a, T, L: CortexSync>(
    from: ProgressView<'a, T, L>,
    replies: Seq<Reply<L>>,
) -> bool {
    forall|i: int|
        0 <= i < replies.len() && i < requests(from, replies).len() ==> fits(
            #[trigger] requests(from, replies)[i],
            replies[i],
        )
}

/// Whether the reply at the index `i` of a run says that the lock, which was
/// asked for, could not be created.
pub open spec fn lock_refused_at<'a, T, L: CortexSync>(
    from: ProgressView<'a, T, L>,
    replies: Seq<Reply<L>>,
    i: int,
) -> bool {
    &&& 0 <= i < replies.len()
    &&& i < requests(from, replies).len()
    &&& requests(from, replies)[i] is CreateLock
    &&& replies[i] matches Reply::Lock { lock } && lock is Err
}

/// Whether, in a run, the lock was asked for and could not be created. The
/// segment exists by then, is mapped, and holds the payload.
pub open spec fn lock_creation_failed<'a, T, L: CortexSync>(
    from: ProgressView<'a, T, L>,
    replies: Seq<Reply<L>>,
) -> bool {
    exists|i: int| lock_refused_at(from, replies, i)
}

/// A creation that fails is dirty if and only if it had created the segment
/// and could then not create the lock: only then does it leave something
/// behind. Every other failure is clean. This holds as long as the replies
/// come in order and the lock answers for itself.
pub proof fn lemma_creation_is_dirty_only_without_lock<'a, T, L: CortexSync>(
    init_key: Option<i32>,
    data: T,
    force_ownership: bool,
    settings: Option<&'a L::Settings>,
    size: usize,
    replies: Seq<Reply<L>>,
)
    requires
        in_order(begin::<T, L>(init_key, data, force_ownership, settings, size), replies),
        locks_answer(begin::<T, L>(init_key, data, force_ownership, settings, size), replies),
    ensures
        ({
            let from = begin::<T, L>(init_key, data, force_ownership, settings, size);
            run(from, replies) matches ProgressView::Done { result: Err(e) } ==> (e is DirtySystem
                <==> lock_creation_failed(from, replies))
        }),
{
    lemma_failing_run(begin::<T, L>(init_key, data, force_ownership, settings, size), replies);
}

/// An attachment that fails is clean: it creates nothing, so it leaves
/// nothing behind. This holds as long as the replies come in order and the
/// lock answers for itself.
pub proof fn lemma_failed_attachment_is_clean<'a, T, L: CortexSync>(
    key: i32,
    size: usize,
    replies: Seq<Reply<L>>,
) where L::Settings: 'a
    requires
        in_order(join::<T, L>(key, size, false), replies),
        locks_answer(join::<T, L>(key, size, false), replies),
    ensures
        run(join::<T, L>(key, size, false), replies) matches ProgressView::Done {
            result: Err(e),
        } ==> e is CleanSystem,
{
    let from: ProgressView<'a, T, L> = join(key, size, false);
    lemma_failing_run(from, replies);
    lemma_sharing_requests(from, replies, key, size);
}

/// An attachment to a key whose segment is gone ends in a clean failure, and
/// so does one whose lock is gone and reports that cleanly: once the owner
/// has removed both, nothing can attach.
pub proof fn lemma_attachment_to_nothing_fails_clean<'a, T, L: CortexSync>(
    key: i32,
    size: usize,
    lock: L,
    os_error: i32,
    refusal: crate::crash::CortexError,
) where L::Settings: 'a
    requires
        refusal@ is CleanSystem,
    ensures
        ({
            let from: ProgressView<'a, T, L> = join(key, size, false);
            let missing: ProgressView<'a, T, L> = ProgressView::Done {
                result: Err(CortexErrorView::clean(lookup_failed(key), os_error)),
            };
            let unlocked: ProgressView<'a, T, L> = ProgressView::Done { result: Err(refusal@) };
            &&& run(
                from,
                seq![Reply::Lock { lock: Ok(lock) }, Reply::Segment { id: -1i32, os_error }],
            ) == missing
            &&& run(from, seq![Reply::Lock { lock: Err(refusal) }]) == unlocked
            &&& unlocked matches ProgressView::Done { result: Err(e) } && e is CleanSystem
        }),
{
    let from: ProgressView<'a, T, L> = join(key, size, false);
    let found: Reply<L> = Reply::Lock { lock: Ok(lock) };
    let gone: Reply<L> = Reply::Segment { id: -1i32, os_error };
    let none: Reply<L> = Reply::Lock { lock: Err(refusal) };
    lemma_run_push(from, Seq::empty(), found);
    lemma_run_push(from, seq![found], gone);
    lemma_run_push(from, Seq::empty(), none);
    assert(Seq::<Reply<L>>::empty().push(found) =~= seq![found]);
    assert(seq![found].push(gone) =~= seq![found, gone]);
    assert(Seq::<Reply<L>>::empty().push(none) =~= seq![none]);
}

/// Whether a run waits in a state for the request that the state is for.
spec fn expects<'a, T, L: CortexSync>(at: ProgressView<'a, T, L>) -> bool {
    match at {
        ProgressView::Pending { state: Creation::Drawing { .. }, request } => request is DrawKey,
        ProgressView::Pending { state: Creation::Allocating { .. }, request } => request
            is Segment,
        ProgressView::Pending { state: Creation::Mapping { .. }, request } => request
            is MapSegment,
        ProgressView::Pending { state: Creation::Clearing { .. }, request } => request
            is RemoveSegment,
        ProgressView::Pending { state: Creation::Storing { .. }, request } => request is Store,
        ProgressView::Pending { state: Creation::Locking { .. }, request } => request
            is CreateLock,
        ProgressView::Pending { state: Creation::Joining { .. }, request } => request
            is AttachLock,
        ProgressView::Pending { state: Creation::Locating { .. }, request } => request
            is Segment,
        ProgressView::Pending { state: Creation::Attaching { .. }, request } => request
            is MapSegment,
        ProgressView::Pending { state: Creation::Claiming { .. }, request } => request
            is OwnLock,
        ProgressView::Done { .. } => true,
    }
}

proof fn lemma_failing_run<'a, T, L: CortexSync>(
    from: ProgressView<'a, T, L>,
    replies: Seq<Reply<L>>,
)
    requires
        from is Pending,
        expects(from),
        in_order(from, replies),
        locks_answer(from, replies),
    ensures
        run(from, replies) matches ProgressView::Done { result: Err(e) } ==> (e is DirtySystem
            <==> lock_creation_failed(from, replies)),
    decreases replies.len(),
{
    if replies.len() > 0 {
        let next = after(from, replies[0]);
        let rest = replies.drop_first();
        let request = from->request;
        assert(requests(from, replies)[0] == request);
        assert(fits(request, replies[0]));
        assert(lock_answers(request, replies[0]));
        assert forall|i: int| 0 <= i < rest.len() && i < requests(next, rest).len() implies fits(
            #[trigger] requests(next, rest)[i],
            rest[i],
        ) && lock_answers(requests(next, rest)[i], rest[i]) by {
            assert(requests(from, replies)[i + 1] == requests(next, rest)[i]);
            assert(replies[i + 1] == rest[i]);
        }
        if next is Pending {
            lemma_failing_run(next, rest);
            if lock_creation_failed(next, rest) {
                let i = choose|i: int| lock_refused_at(next, rest, i);
                assert(requests(from, replies)[i + 1] == requests(next, rest)[i]);
                assert(replies[i + 1] == rest[i]);
                assert(lock_refused_at(from, replies, i + 1));
            }
            if lock_creation_failed(from, replies) {
                let i = choose|i: int| lock_refused_at(from, replies, i);
                assert(i > 0);
                assert(requests(from, replies)[i] == requests(next, rest)[i - 1]);
                assert(replies[i] == rest[i - 1]);
                assert(lock_refused_at(next, rest, i - 1));
            }
        } else {
            lemma_run_done(next, rest);
            assert(requests(next, rest).len() == 0);
            assert(requests(from, replies).len() == 1);
            if lock_creation_failed(from, replies) {
                let i = choose|i: int| lock_refused_at(from, replies, i);
                assert(i == 0);
            }
            if next matches ProgressView::Done { result: Err(e) } && e is DirtySystem {
                assert(lock_refused_at(from, replies, 0));
            }
        }
    }
}

/// An attachment that does not take the segment over never asks for a lock
/// to be created.
proof fn lemma_sharing_requests<'a, T, L: CortexSync>(
    from: ProgressView<'a, T, L>,
    replies: Seq<Reply<L>>,
    key: i32,
    size: usize,
)
    requires
        ends_sharing(from, key, size),
        expects(from),
    ensures
        !lock_creation_failed(from, replies),
    decreases replies.len(),
{
    if replies.len() > 0 {
        let next = after(from, replies[0]);
        let rest = replies.drop_first();
        lemma_sharing_requests(next, rest, key, size);
        if lock_creation_failed(from, replies) {
            let i = choose|i: int| lock_refused_at(from, replies, i);
            if i > 0 {
                assert(requests(from, replies)[i] == requests(next, rest)[i - 1]);
                assert(replies[i] == rest[i - 1]);
                assert(lock_refused_at(next, rest, i - 1));
            }
        }
    }
}

/// A read or a write that fails is clean, whatever was replied: an access
/// creates nothing.
pub proof fn lemma_failed_access_is_clean<T>(
    from: AccessProgressView<T>,
    replies: Seq<AccessReply<T>>,
)
    requires
        from is Pending,
    ensures
        access::run(from, replies) matches AccessProgressView::Read { result: Err(e) } ==> e
            is CleanSystem,
        access::run(from, replies) matches AccessProgressView::Written { result: Err(e) } ==> e
            is CleanSystem,
    decreases replies.len(),
{
    if replies.len() > 0 {
        let next = access::after(from, replies[0]);
        if next is Pending {
            lemma_failed_access_is_clean(next, replies.drop_first());
        } else {
            lemma_access_done(next, replies.drop_first());
        }
    }
}

} // verus!
