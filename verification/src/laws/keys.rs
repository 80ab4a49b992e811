//! Random keys: a creation draws again after a collision, as often as it
//! may, and not once more.

use crate::crash::CortexErrorView;
use crate::create::{
    begin, run, Creation, ProgressView, Reply, Request, EXISTS, RETRY_LIMIT,
};
use crate::handle::CortexSync;
use crate::laws::runs::lemma_run_push;
use vstd::prelude::*;

verus! {

/// The replies of a kernel that holds every key in `keys` already, to a
/// creation that draws these keys one after the other.
pub open spec fn collisions<L>(keys: Seq<i32>) -> Seq<Reply<L>>
    decreases keys.len(),
{
    if keys.len() == 0 {
        Seq::empty()
    } else {
        collisions::<L>(keys.drop_last()).push(Reply::Key { key: keys.last() }).push(
            Reply::Segment { id: -1i32, os_error: EXISTS },
        )
    }
}

/// A creation under a random key draws again after each collision, and gives
/// up, cleanly, when the draw after the last retry collides too: after
/// `RETRY_LIMIT + 1` collisions in a row, and not before.
pub proof fn lemma_random_key_retries<'a, T, L: CortexSync>(
    data: T,
    force_ownership: bool,
    settings: Option<&'a L::Settings>,
    size: usize,
    keys: Seq<i32>,
)
    requires
        keys.len() <= RETRY_LIMIT + 1,
    ensures
        ({
            let from: ProgressView<'a, T, L> = begin(None, data, force_ownership, settings, size);
            let drawing: ProgressView<'a, T, L> = ProgressView::Pending {
                state: Creation::Drawing { data, size, settings, retries: keys.len() as u32 },
                request: Request::DrawKey,
            };
            let given_up: ProgressView<'a, T, L> = ProgressView::Done {
                result: Err(CortexErrorView::clean("Error during shmget"@, EXISTS)),
            };
            run(from, collisions(keys)) == if keys.len() <= RETRY_LIMIT {
                drawing
            } else {
                given_up
            }
        }),
    decreases keys.len(),
{
    let from: ProgressView<'a, T, L> = begin(None, data, force_ownership, settings, size);
    if keys.len() > 0 {
        let before: Seq<Reply<L>> = collisions(keys.drop_last());
        let draw: Reply<L> = Reply::Key { key: keys.last() };
        let collision: Reply<L> = Reply::Segment { id: -1i32, os_error: EXISTS };
        lemma_random_key_retries::<T, L>(data, force_ownership, settings, size, keys.drop_last());
        lemma_run_push(from, before, draw);
        lemma_run_push(from, before.push(draw), collision);
    }
}

/// A creation under a random key goes on with the first key that the kernel
/// accepts: after up to `RETRY_LIMIT` collisions, the segment that the
/// kernel creates under the next key is the one that is mapped.
pub proof fn lemma_random_key_first_free_wins<'a, T, L: CortexSync>(
    data: T,
    force_ownership: bool,
    settings: Option<&'a L::Settings>,
    size: usize,
    keys: Seq<i32>,
    key: i32,
    id: i32,
    os_error: i32,
)
    requires
        keys.len() <= RETRY_LIMIT,
        id != -1,
    ensures
        ({
            let from: ProgressView<'a, T, L> = begin(None, data, force_ownership, settings, size);
            let mapping: ProgressView<'a, T, L> = ProgressView::Pending {
                state: Creation::Mapping { data, size, settings, key, id },
                request: Request::MapSegment { id },
            };
            run(
                from,
                collisions(keys).push(Reply::Key { key }).push(Reply::Segment { id, os_error }),
            ) == mapping
        }),
{
    let from: ProgressView<'a, T, L> = begin(None, data, force_ownership, settings, size);
    let before: Seq<Reply<L>> = collisions(keys);
    let draw: Reply<L> = Reply::Key { key };
    lemma_random_key_retries::<T, L>(data, force_ownership, settings, size, keys);
    lemma_run_push(from, before, draw);
    lemma_run_push(from, before.push(draw), Reply::Segment { id, os_error });
}

} // verus!
