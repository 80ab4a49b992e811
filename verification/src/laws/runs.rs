//! Runs of a creation or an attachment: what replies make of a machine, one
//! after the other, and what the machine asks on the way.

use crate::create::{after, run, ProgressView, Reply, Request};
use crate::handle::CortexSync;
use vstd::prelude::*;

verus! {

/// A run takes its replies one by one: the run over `replies` and then
/// `reply` is the run over `replies`, moved on by `reply`.
pub proof fn lemma_run_push<'a, T, L: CortexSync>(
    from: ProgressView<'a, T, L>,
    replies: Seq<Reply<L>>,
    reply: Reply<L>,
)
    ensures
        run(from, replies.push(reply)) == after(run(from, replies), reply),
    decreases replies.len(),
{
    let longer = replies.push(reply);
    if replies.len() == 0 {
        assert(longer.drop_first() =~= Seq::<Reply<L>>::empty());
        assert(run(after(from, reply), longer.drop_first()) == after(from, reply));
    } else {
        assert(longer.drop_first() =~= replies.drop_first().push(reply));
        lemma_run_push(after(from, replies[0]), replies.drop_first(), reply);
    }
}

/// A run that has ended stays where it is.
pub proof fn lemma_run_done<'a, T, L: CortexSync>(
    from: ProgressView<'a, T, L>,
    replies: Seq<Reply<L>>,
)
    requires
        from is Done,
    ensures
        run(from, replies) == from,
    decreases replies.len(),
{
    if replies.len() > 0 {
        lemma_run_done(from, replies.drop_first());
    }
}

/// The requests that a run issues: the one that is pending at `from`, then
/// one for each reply that does not end the run. Where both exist, the
/// reply at an index answers the request at that index.
pub open spec fn requests<'a, T, L: CortexSync>(
    from: ProgressView<'a, T, L>,
    replies: Seq<Reply<L>>,
) -> Seq<Request<'a, T, L>>
    decreases replies.len(),
{
    match from {
        ProgressView::Done { .. } => Seq::empty(),
        ProgressView::Pending { request, .. } => if replies.len() == 0 {
            seq![request]
        } else {
            seq![request] + requests(after(from, replies[0]), replies.drop_first())
        },
    }
}

} // verus!
