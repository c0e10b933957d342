//! Which depths are asked for: that of each glyph that is drawn, once and in order.
use vstd::prelude::*;
use crate::prepare::{DepthStep, GlyphTask, Placement, Step};
use crate::run;
use crate::run::{Ending, Progress};

verus! {

/// The requests for depths in a preparation, in order.
pub open spec fn depth_requests(trace: Seq<Progress>) -> Seq<DepthStep>
    decreases trace.len(),
{
    if trace.len() == 0 {
        Seq::empty()
    } else {
        match trace.last().step {
            Step::Depth(asked) => depth_requests(trace.drop_last()).push(asked),
            _ => depth_requests(trace.drop_last()),
        }
    }
}

/// The requests for the depths of the visible glyphs among the first `n`, in order.
pub open spec fn requests_of(tasks: Seq<GlyphTask>, ended: Seq<Ending>, n: int) -> Seq<DepthStep>
    decreases n,
{
    if n <= 0 {
        Seq::empty()
    } else {
        match run::placement_of(tasks[n - 1], ended[n - 1]) {
            Placement::Visible(glyph) => requests_of(tasks, ended, n - 1).push(
                DepthStep { task: tasks[n - 1], glyph },
            ),
            _ => requests_of(tasks, ended, n - 1),
        }
    }
}

proof fn lemma_requests_of_prefix(
    tasks: Seq<GlyphTask>,
    ended: Seq<Ending>,
    longer_tasks: Seq<GlyphTask>,
    longer_ended: Seq<Ending>,
    n: int,
)
    requires
        n <= tasks.len(),
        n <= ended.len(),
        tasks.is_prefix_of(longer_tasks),
        ended.is_prefix_of(longer_ended),
    ensures
        requests_of(tasks, ended, n) == requests_of(longer_tasks, longer_ended, n),
    decreases n,
{
    if n > 0 {
        lemma_requests_of_prefix(tasks, ended, longer_tasks, longer_ended, n - 1);
        assert(tasks[n - 1] == longer_tasks[n - 1]);
        assert(ended[n - 1] == longer_ended[n - 1]);
    }
}

/// The requests are about the glyphs that are shown, one each and in order.
proof fn lemma_requests_are_about_shown(tasks: Seq<GlyphTask>, ended: Seq<Ending>, n: int)
    ensures
        requests_of(tasks, ended, n).len() == run::shown(tasks, ended, n).len(),
        forall|i: int|
            0 <= i < requests_of(tasks, ended, n).len() ==> (#[trigger] requests_of(
                tasks,
                ended,
                n,
            )[i]).glyph == run::shown(tasks, ended, n)[i],
    decreases n,
{
    if n > 0 {
        lemma_requests_are_about_shown(tasks, ended, n - 1);
    }
}

proof fn lemma_request_at(tasks: Seq<GlyphTask>, ended: Seq<Ending>, n: int, k: int)
    requires
        0 <= k < n,
    ensures
        requests_of(tasks, ended, k).len() <= requests_of(tasks, ended, n).len(),
        run::placement_of(tasks[k], ended[k]) matches Placement::Visible(glyph) ==> {
            let at = requests_of(tasks, ended, k).len() as int;
            &&& at < requests_of(tasks, ended, n).len()
            &&& requests_of(tasks, ended, n)[at] == (DepthStep { task: tasks[k], glyph })
        },
    decreases n,
{
    if k < n - 1 {
        lemma_request_at(tasks, ended, n - 1, k);
    }
}

/// The next place of a preparation asks for a depth just where a glyph ends there that is visible.
proof fn lemma_move_asks_for_depth(p: Progress, q: Progress)
    requires
        p.sound(),
        q.sound(),
        p.moves_to(q),
        q.preparation.frame.depth is Metadata,
        forall|k: int| 0 <= k < q.begun.len() ==> (#[trigger] q.begun[k]).frame
            == q.preparation.frame,
    ensures
        p.begun.is_prefix_of(q.begun),
        p.ended.is_prefix_of(q.ended),
        q.ended.len() <= p.ended.len() + 1,
        q.step matches Step::Depth(asked) ==> q.ended.len() == p.ended.len() + 1 && asked.task
            == q.begun.last(),
        !(q.step is Depth) && q.ended.len() == p.ended.len() + 1 ==> !(run::placement_of(
            q.begun.last(),
            q.ended.last(),
        ) is Visible),
{
    if q.begun.len() > 0 {
        assert(q.begun[q.begun.len() - 1].frame.depth is Metadata);
    }
}

/// The glyphs of a preparation share its frame.
pub(crate) proof fn lemma_glyphs_share_frame(trace: Seq<Progress>)
    requires
        run::is_run(trace),
    ensures
        forall|k: int|
            0 <= k < trace.last().begun.len() ==> (#[trigger] trace.last().begun[k]).frame
                == trace[0].preparation.frame,
    decreases trace.len(),
{
    if trace.len() > 1 {
        let n = trace.len() - 1;
        run::lemma_run_prefix(trace, n);
        lemma_glyphs_share_frame(trace.take(n));
        run::every_preparation_is_sound(trace.take(n));
        assert(run::moves_at(trace, n - 1));
    }
}

proof fn lemma_requests_of_run(trace: Seq<Progress>)
    requires
        run::is_run(trace),
        trace[0].preparation.frame.depth is Metadata,
    ensures
        depth_requests(trace) == requests_of(
            trace.last().begun,
            trace.last().ended,
            trace.last().ended.len() as int,
        ),
    decreases trace.len(),
{
    if trace.len() == 1 {
        assert(depth_requests(trace.drop_last()) =~= Seq::empty());
    } else {
        let n = trace.len() - 1;
        let p = trace[n - 1];
        let q = trace[n];
        run::lemma_run_prefix(trace, n);
        assert(trace.take(n) =~= trace.drop_last());
        lemma_requests_of_run(trace.take(n));
        run::every_preparation_is_sound(trace.take(n));
        run::every_preparation_is_sound(trace);
        lemma_glyphs_share_frame(trace);
        assert(run::moves_at(trace, n - 1));
        lemma_move_asks_for_depth(p, q);
        lemma_requests_of_prefix(p.begun, p.ended, q.begun, q.ended, p.ended.len() as int);
    }
}

/// A preparation with depths from the metadata that finishes has asked for the depth of each glyph
/// that it draws, once and in order: for each visible glyph with its own metadata, and for no
/// other.
pub proof fn finished_preparation_asks_for_each_depth(trace: Seq<Progress>)
    requires
        run::is_run(trace),
        trace.last().step is Finished,
        trace[0].preparation.frame.depth is Metadata,
    ensures
        ({
            let end = trace.last();
            let asked = depth_requests(trace);
            &&& asked.len() == end.clips.len()
            &&& asked.len() == end.drawn().len()
            &&& forall|i: int|
                0 <= i < asked.len() ==> (#[trigger] asked[i]).glyph == end.drawn()[i]
            &&& forall|k: int|
                0 <= k < end.begun.len() ==> (run::placement_of(
                    #[trigger] end.begun[k],
                    end.ended[k],
                ) matches Placement::Visible(glyph) ==> {
                    let at = run::shown(end.begun, end.ended, k).len() as int;
                    &&& at < asked.len()
                    &&& asked[at] == (DepthStep { task: end.begun[k], glyph })
                })
        }),
{
    let end = trace.last();
    let n = end.begun.len() as int;
    lemma_requests_of_run(trace);
    run::every_preparation_is_sound(trace);
    lemma_requests_are_about_shown(end.begun, end.ended, n);
    assert forall|k: int| 0 <= k < n implies (run::placement_of(
        #[trigger] end.begun[k],
        end.ended[k],
    ) matches Placement::Visible(glyph) ==> {
        let at = run::shown(end.begun, end.ended, k).len() as int;
        &&& at < depth_requests(trace).len()
        &&& depth_requests(trace)[at] == (DepthStep { task: end.begun[k], glyph })
    }) by {
        lemma_request_at(end.begun, end.ended, n, k);
        lemma_requests_are_about_shown(end.begun, end.ended, k);
    }
}

/// A preparation at depth zero asks for no depth.
pub proof fn no_depth_is_asked_for_at_zero(trace: Seq<Progress>)
    requires
        run::is_run(trace),
        trace[0].preparation.frame.depth is Zero,
    ensures
        !(trace.last().step is Depth),
        depth_requests(trace).len() == 0,
    decreases trace.len(),
{
    if trace.len() > 1 {
        let n = trace.len() - 1;
        run::lemma_run_prefix(trace, n);
        assert(trace.take(n) =~= trace.drop_last());
        no_depth_is_asked_for_at_zero(trace.take(n));
        lemma_glyphs_share_frame(trace);
        run::every_preparation_is_sound(trace);
        run::every_preparation_is_sound(trace.take(n));
        assert(run::moves_at(trace, n - 1));
        if trace.last().step is Depth {
            let last = trace.last().begun.len() - 1;
            assert(trace.last().begun[last].frame.depth is Zero);
        }
    } else {
        assert(depth_requests(trace.drop_last()) =~= Seq::empty());
    }
}

} // verus!
