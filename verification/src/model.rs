//! A ghost replay of submission histories against a single batch, and the
//! engine's temporal guarantees proved over it.
//!
//! A history is a sequence of submissions, each a frame number with the
//! records it carried. Replaying a history against a fresh batch yields the
//! batch state after those submissions, and the lemmas here pin down its
//! shape: memory stays bounded by the two most recent frames, the segment
//! below the boundary is exactly the previous frame's records, resubmission
//! within a frame never moves the boundary, replacing a batch discards its
//! past, and a batch that never clears grows by exactly what is submitted.

use vstd::prelude::*;
use crate::batch::{accepts, batch_new_view, submit_spec, BatchView};
use crate::geometry::{GeometryView, Instance};

verus! {

/// One submission of a history: the records one call carried, tagged with its
/// logical frame number.
pub ghost struct Submission {
    pub frame: nat,
    pub items: Seq<Instance>,
}

/// The batch state after a history of submissions has been applied in order.
pub open spec fn replay(pre: BatchView, subs: Seq<Submission>) -> BatchView
    decreases subs.len(),
{
    if subs.len() == 0 {
        pre
    } else {
        submit_spec(replay(pre, subs.drop_last()), subs.last().frame, subs.last().items)
    }
}

/// All records a history submitted for one frame, in submission order.
pub open spec fn frame_items(subs: Seq<Submission>, frame: nat) -> Seq<Instance>
    decreases subs.len(),
{
    if subs.len() == 0 {
        Seq::empty()
    } else {
        frame_items(subs.drop_last(), frame) + (if subs.last().frame == frame {
            subs.last().items
        } else {
            Seq::empty()
        })
    }
}

/// All records a history submitted, in submission order, frames disregarded.
pub open spec fn all_items(subs: Seq<Submission>) -> Seq<Instance>
    decreases subs.len(),
{
    if subs.len() == 0 {
        Seq::empty()
    } else {
        all_items(subs.drop_last()) + subs.last().items
    }
}

/// How many records a history submitted in all.
pub open spec fn total_count(subs: Seq<Submission>) -> nat
    decreases subs.len(),
{
    if subs.len() == 0 {
        0
    } else {
        total_count(subs.drop_last()) + subs.last().items.len()
    }
}

/// A batch observes a monotonic sequence of frame numbers: the design's
/// assumption on every producer.
pub open spec fn monotone(subs: Seq<Submission>) -> bool {
    forall|i: int, j: int|
        0 <= i <= j < subs.len() ==> subs[i].frame <= subs[j].frame
}

/// The most recent frame before `frame` that received a submission in the
/// history, scanning from the end.
pub open spec fn prior_frame(subs: Seq<Submission>, frame: nat) -> Option<nat>
    decreases subs.len(),
{
    if subs.len() == 0 {
        None
    } else if subs.last().frame != frame {
        Some(subs.last().frame)
    } else {
        prior_frame(subs.drop_last(), frame)
    }
}

/// What a clearing batch may hold after a history: the records of the two
/// most recent frames that received submissions, and nothing else.
pub open spec fn two_recent_total(subs: Seq<Submission>) -> nat {
    if subs.len() == 0 {
        0
    } else {
        let k = subs.last().frame;
        match prior_frame(subs, k) {
            None => frame_items(subs, k).len(),
            Some(j) => frame_items(subs, j).len() + frame_items(subs, k).len(),
        }
    }
}

proof fn lemma_prior_frame_ne(subs: Seq<Submission>, frame: nat)
    requires
        prior_frame(subs, frame) is Some,
    ensures
        prior_frame(subs, frame).unwrap() != frame,
    decreases subs.len(),
{
    if subs.len() > 0 && subs.last().frame == frame {
        lemma_prior_frame_ne(subs.drop_last(), frame);
    }
}

proof fn lemma_frame_items_absent(subs: Seq<Submission>, frame: nat)
    requires
        forall|i: int| 0 <= i < subs.len() ==> (#[trigger] subs[i]).frame != frame,
    ensures
        frame_items(subs, frame) == Seq::<Instance>::empty(),
    decreases subs.len(),
{
    if subs.len() > 0 {
        let prefix = subs.drop_last();
        assert forall|i: int| 0 <= i < prefix.len() implies (#[trigger] prefix[i]).frame
            != frame by {
            assert(prefix[i] == subs[i]);
        }
        lemma_frame_items_absent(prefix, frame);
        assert(subs[subs.len() - 1].frame != frame);
        assert(frame_items(subs, frame) =~= Seq::<Instance>::empty());
    }
}

/// The shape of a fresh clearing batch after any monotone history: its last
/// frame is the history's last, and it holds exactly the records of the most
/// recent frame - preceded, once a transition has occurred, by exactly the
/// records of the frame before it, with the boundary between the two.
pub proof fn lemma_replay_shape(pre: BatchView, subs: Seq<Submission>)
    requires
        pre.clear_every_frame,
        pre.initial(),
        monotone(subs),
        subs.len() > 0,
    ensures
        ({
            let post = replay(pre, subs);
            let k = subs.last().frame;
            &&& post.clear_every_frame
            &&& post.drawable == pre.drawable
            &&& post.last_frame == Some(k)
            &&& match prior_frame(subs, k) {
                None => post.instances == frame_items(subs, k) && post.boundary == None::<nat>,
                Some(j) => post.instances == frame_items(subs, j) + frame_items(subs, k)
                    && post.boundary == Some(frame_items(subs, j).len()),
            }
        }),
    decreases subs.len(),
{
    let post = replay(pre, subs);
    let s = subs.last();
    let k = s.frame;
    let prefix = subs.drop_last();
    if prefix.len() == 0 {
        assert(replay(pre, prefix) == pre);
        assert(prior_frame(prefix, k) == None::<nat>);
        assert(prior_frame(subs, k) == None::<nat>);
        assert(frame_items(prefix, k) == Seq::<Instance>::empty());
        assert(frame_items(subs, k) =~= s.items);
        assert(post.instances =~= Seq::<Instance>::empty() + s.items);
        assert(post.instances =~= frame_items(subs, k));
    } else {
        assert forall|i: int, j: int| 0 <= i <= j < prefix.len() implies (#[trigger] prefix[i]).frame
            <= (#[trigger] prefix[j]).frame by {
            assert(prefix[i] == subs[i]);
            assert(prefix[j] == subs[j]);
        }
        lemma_replay_shape(pre, prefix);
        let prev_state = replay(pre, prefix);
        let k0 = prefix.last().frame;
        assert(prefix.last() == subs[subs.len() - 2]);
        assert(k0 <= k);
        if k == k0 {
            // Same frame: no transition, the records are appended.
            assert(prior_frame(subs, k) == prior_frame(prefix, k));
            match prior_frame(prefix, k0) {
                None => {
                    assert(frame_items(subs, k) == frame_items(prefix, k) + s.items);
                    assert(post.instances == frame_items(subs, k));
                },
                Some(j) => {
                    lemma_prior_frame_ne(prefix, k0);
                    assert(frame_items(subs, j) =~= frame_items(prefix, j));
                    assert(post.instances == (frame_items(prefix, j) + frame_items(prefix, k0))
                        + s.items);
                    assert((frame_items(prefix, j) + frame_items(prefix, k0)) + s.items
                        =~= frame_items(subs, j) + (frame_items(prefix, k0) + s.items));
                    assert(frame_items(subs, k) == frame_items(prefix, k0) + s.items);
                },
            }
        } else {
            // A new frame: the transition runs before the records are appended.
            assert(prior_frame(prefix, k) == Some(k0));
            assert(prior_frame(subs, k) == Some(k0));
            assert forall|i: int| 0 <= i < prefix.len() implies (#[trigger] prefix[i]).frame
                != k by {
                assert(prefix[i].frame <= prefix[prefix.len() - 1].frame);
            }
            lemma_frame_items_absent(prefix, k);
            assert(frame_items(subs, k) =~= s.items);
            assert(frame_items(subs, k0) =~= frame_items(prefix, k0));
            match prior_frame(prefix, k0) {
                None => {
                    assert(prev_state.instances == frame_items(prefix, k0));
                    assert(post.instances == frame_items(prefix, k0) + s.items);
                },
                Some(j) => {
                    let a = frame_items(prefix, j);
                    let b = frame_items(prefix, k0);
                    assert(prev_state.instances == a + b);
                    assert(prev_state.boundary == Some(a.len()));
                    assert((a + b).skip(a.len() as int) =~= b);
                    assert(post.instances == b + s.items);
                },
            }
        }
    }
}

/// Bounded memory: after any monotone history, a fresh clearing batch holds
/// no more records than were submitted in the two most recent frames that
/// received submissions.
pub proof fn lemma_bounded_memory(pre: BatchView, subs: Seq<Submission>)
    requires
        pre.clear_every_frame,
        pre.initial(),
        monotone(subs),
    ensures
        replay(pre, subs).instances.len() <= two_recent_total(subs),
{
    if subs.len() > 0 {
        lemma_replay_shape(pre, subs);
    }
}

/// Frame completeness: once a newer frame's first submission has been applied
/// (so the boundary is present), the segment below the boundary is exactly
/// what was submitted for the previous frame that received submissions, in
/// submission order, and the segment above it exactly the newest frame's
/// records.
pub proof fn lemma_frame_completeness(pre: BatchView, subs: Seq<Submission>)
    requires
        pre.clear_every_frame,
        pre.initial(),
        monotone(subs),
        subs.len() > 0,
        prior_frame(subs, subs.last().frame) is Some,
    ensures
        ({
            let post = replay(pre, subs);
            let k = subs.last().frame;
            let j = prior_frame(subs, k).unwrap();
            let stable = frame_items(subs, j);
            &&& post.boundary == Some(stable.len())
            &&& post.instances.take(stable.len() as int) == stable
            &&& post.instances.skip(stable.len() as int) == frame_items(subs, k)
        }),
{
    lemma_replay_shape(pre, subs);
    let post = replay(pre, subs);
    let k = subs.last().frame;
    let j = prior_frame(subs, k).unwrap();
    let stable = frame_items(subs, j);
    assert((stable + frame_items(subs, k)).take(stable.len() as int) =~= stable);
    assert((stable + frame_items(subs, k)).skip(stable.len() as int) =~= frame_items(subs, k));
}

/// No transition on same-frame resubmission: of two submissions with the same
/// acceptable frame number, the second never moves the boundary or the frame
/// mark; its records land after the first's.
pub proof fn lemma_same_frame_resubmission(
    pre: BatchView,
    frame: nat,
    first: Seq<Instance>,
    second: Seq<Instance>,
)
    requires
        accepts(pre, frame),
    ensures
        ({
            let once = submit_spec(pre, frame, first);
            let twice = submit_spec(once, frame, second);
            &&& twice.boundary == once.boundary
            &&& twice.last_frame == once.last_frame
            &&& twice.instances == once.instances + second
        }),
{
}

/// Replace-on-insert: replacing the batch at an identity discards everything
/// the earlier batch there had accumulated; the replacement holds nothing,
/// and a submission after the replacement is the only data it holds.
pub proof fn lemma_replace_on_insert(
    batches: Map<u16, BatchView>,
    batch_id: u16,
    earlier: BatchView,
    prototype: GeometryView,
    frame: nat,
    items: Seq<Instance>,
)
    ensures
        ({
            let once = batches.insert(batch_id, earlier);
            let twice = once.insert(batch_id, batch_new_view(prototype));
            let after = twice.insert(batch_id, submit_spec(twice[batch_id], frame, items));
            &&& twice[batch_id].instances == Seq::<Instance>::empty()
            &&& after[batch_id].instances == items
        }),
{
    let once = batches.insert(batch_id, earlier);
    let twice = once.insert(batch_id, batch_new_view(prototype));
    assert(twice[batch_id] == batch_new_view(prototype));
    assert(Seq::<Instance>::empty() + items =~= items);
}

/// Non-clearing batches grow monotonically: a batch that never clears ends
/// any history - whatever its frame numbers - holding what it held before
/// followed by every record submitted, so its length is the total count.
pub proof fn lemma_persistent_growth(pre: BatchView, subs: Seq<Submission>)
    requires
        !pre.clear_every_frame,
    ensures
        replay(pre, subs) == (BatchView { instances: pre.instances + all_items(subs), ..pre }),
        replay(pre, subs).instances.len() == pre.instances.len() + total_count(subs),
    decreases subs.len(),
{
    if subs.len() == 0 {
        assert(pre.instances + all_items(subs) =~= pre.instances);
        assert(replay(pre, subs) =~= (BatchView {
            instances: pre.instances + all_items(subs),
            ..pre
        }));
    } else {
        let prefix = subs.drop_last();
        lemma_persistent_growth(pre, prefix);
        assert((pre.instances + all_items(prefix)) + subs.last().items =~= pre.instances + (
        all_items(prefix) + subs.last().items));
        assert(replay(pre, subs) =~= (BatchView {
            instances: pre.instances + all_items(subs),
            ..pre
        }));
    }
}

} // verus!
