//! What the metadata of glyphs are for: depths, and nothing else.
use vstd::prelude::*;
use crate::choices;
use crate::depth;
use crate::geometry::RunVisibility;
use crate::image::{RasterizedCustomGlyph, SwashImage};
use crate::layout::{
    AreaItem, CustomGlyph, GlyphJob, GlyphMetadata, LayoutGlyph, LayoutRun, TextArea,
};
use crate::prepare::{
    AllocateStep, Allocation, DepthStep, GlyphTask, GrowStep, RasterizeCustomStep,
    RasterizeTextStep, Step, TransformStep, WriteTextureStep,
};
use crate::run;
use crate::run::Progress;

verus! {

/// Whether two lines of text differ at most in the metadata of their glyphs.
pub open spec fn is_same_line(a: LayoutRun, b: LayoutRun) -> bool {
    &&& b.start_y == a.start_y && b.height == a.height && b.line_y == a.line_y
    &&& b.glyphs.len() == a.glyphs.len()
    &&& forall|i: int|
        0 <= i < a.glyphs.len() ==> #[trigger] b.glyphs[i] == (LayoutGlyph {
            metadata: b.glyphs[i].metadata,
            ..a.glyphs[i]
        })
}

/// Whether two text areas differ at most in the metadata of their glyphs.
pub open spec fn is_same_text(a: TextArea, b: TextArea) -> bool {
    &&& b.transform == a.transform && b.zoom == a.zoom
    &&& b.bounds == a.bounds && b.default_color == a.default_color
    &&& b.custom_glyphs.len() == a.custom_glyphs.len()
    &&& forall|i: int|
        0 <= i < a.custom_glyphs.len() ==> #[trigger] b.custom_glyphs[i] == (CustomGlyph {
            metadata: b.custom_glyphs[i].metadata,
            ..a.custom_glyphs[i]
        })
    &&& b.runs.len() == a.runs.len()
    &&& forall|i: int| 0 <= i < a.runs.len() ==> is_same_line(a.runs[i], #[trigger] b.runs[i])
}

/// Whether two glyphs that are to be prepared differ at most in their metadata.
pub open spec fn is_same_job(a: GlyphJob, b: GlyphJob) -> bool {
    b == (GlyphJob {
        metadata: GlyphMetadata { metadata: b.metadata.metadata, ..a.metadata },
        ..a
    })
}

/// Whether what is prepared of two text areas differs at most in the metadata of glyphs.
pub open spec fn are_same_items(a: Seq<AreaItem>, b: Seq<AreaItem>) -> bool {
    &&& b.len() == a.len()
    &&& forall|i: int|
        0 <= i < a.len() ==> match (a[i], #[trigger] b[i]) {
            (AreaItem::Glyph(x), AreaItem::Glyph(y)) => is_same_job(x, y),
            (AreaItem::Overflow, AreaItem::Overflow) => true,
            _ => false,
        }
}

/// Whether two glyphs that are being prepared differ at most in their metadata.
pub open spec fn is_same_task(a: GlyphTask, b: GlyphTask) -> bool {
    &&& b == (GlyphTask { job: b.job, ..a })
    &&& is_same_job(a.job, b.job)
}

/// Whether two steps differ at most in the metadata of the glyph that they are about.
pub open spec fn is_same_step(a: Step, b: Step) -> bool {
    match run::task_of(a) {
        Some(task) => {
            &&& run::task_of(b) matches Some(other) && is_same_task(task, other)
            &&& b == choices::with_task(a, run::task_of(b).unwrap())
        },
        None => b == a,
    }
}

/// Whether two preparations have come equally far and differ at most in the metadata of glyphs:
/// they have the same atlas, the same vertices and indices, and the same step.
pub open spec fn is_same_progress(p: Progress, o: Progress) -> bool {
    &&& o.preparation.frame == p.preparation.frame
    &&& match (p.preparation.area, o.preparation.area) {
        (Some(a), Some(b)) => is_same_text(a, b),
        (None, None) => true,
        _ => false,
    }
    &&& are_same_items(p.preparation.remaining, o.preparation.remaining)
    &&& o.handed == p.handed
    &&& o.atlas == p.atlas
    &&& o.renderer == p.renderer
    &&& o.clips == p.clips
    &&& o.ended == p.ended
    &&& o.areas.len() == p.areas.len()
    &&& forall|i: int| 0 <= i < p.areas.len() ==> is_same_text(p.areas[i], #[trigger] o.areas[i])
    &&& o.begun.len() == p.begun.len()
    &&& forall|k: int| 0 <= k < p.begun.len() ==> is_same_task(p.begun[k], #[trigger] o.begun[k])
    &&& is_same_step(p.step, o.step)
}

proof fn lemma_same_runs(a: TextArea, b: TextArea, from: int, taking: bool)
    requires
        is_same_text(a, b),
        from >= 0,
    ensures
        are_same_items(a.run_items(from, taking), b.run_items(from, taking)),
    decreases a.runs.len() - from,
{
    if from < a.runs.len() {
        assert(is_same_line(a.runs[from], b.runs[from]));
        assert(b.visibility(from) == a.visibility(from));
        match a.visibility(from) {
            RunVisibility::Visible => {
                lemma_same_runs(a, b, from + 1, true);
                assert(are_same_items(a.glyph_items(from, 0), b.glyph_items(from, 0)));
                lemma_same_items_joined(
                    a.glyph_items(from, 0),
                    b.glyph_items(from, 0),
                    a.run_items(from + 1, true),
                    b.run_items(from + 1, true),
                );
            },
            RunVisibility::Hidden => {
                if !taking {
                    lemma_same_runs(a, b, from + 1, false);
                }
            },
            RunVisibility::Overflow => {},
        }
    }
}

proof fn lemma_same_items_joined(
    a: Seq<AreaItem>,
    b: Seq<AreaItem>,
    a_behind: Seq<AreaItem>,
    b_behind: Seq<AreaItem>,
)
    requires
        are_same_items(a, b),
        are_same_items(a_behind, b_behind),
    ensures
        are_same_items(a + a_behind, b + b_behind),
{
    assert forall|i: int| 0 <= i < (a + a_behind).len() implies match (
        (a + a_behind)[i],
        #[trigger] (b + b_behind)[i],
    ) {
        (AreaItem::Glyph(x), AreaItem::Glyph(y)) => is_same_job(x, y),
        (AreaItem::Overflow, AreaItem::Overflow) => true,
        _ => false,
    } by {
        if i < a.len() {
            assert(b[i] == (b + b_behind)[i]);
        } else {
            assert(b_behind[i - a.len()] == (b + b_behind)[i]);
        }
    }
}

proof fn lemma_same_text_same_items(a: TextArea, b: TextArea)
    requires
        is_same_text(a, b),
    ensures
        are_same_items(a.items(), b.items()),
        b.is_identity() == a.is_identity(),
{
    assert(are_same_items(a.custom_items(0), b.custom_items(0)));
    lemma_same_runs(a, b, 0, false);
    lemma_same_items_joined(
        a.custom_items(0),
        b.custom_items(0),
        a.run_items(0, false),
        b.run_items(0, false),
    );
}

/// Where the same thing becomes of the glyph that was begun last.
proof fn lemma_same_outcome(
    p: Progress,
    o: Progress,
    q: Progress,
    step: Step,
    ending: Option<run::Ending>,
) -> (oq: Progress)
    requires
        is_same_progress(p, o),
        q == p.after(q.handed, q.atlas, q.step, ending),
        is_same_step(q.step, step),
    ensures
        oq == o.after(q.handed, q.atlas, step, ending),
        is_same_progress(q, oq),
{
    o.after(q.handed, q.atlas, step, ending)
}

proof fn lemma_same_area(
    p: Progress,
    o: Progress,
    q: Progress,
    area: Option<TextArea>,
    other: Option<TextArea>,
) -> (oq: Progress)
    requires
        is_same_progress(p, o),
        p.step is NextArea,
        q == p.after_area(q.handed, area),
        match (area, other) {
            (Some(a), Some(b)) => is_same_text(a, b),
            (None, None) => true,
            _ => false,
        },
    ensures
        o.moves_to(oq),
        is_same_progress(q, oq),
        oq.areas == (match other {
            Some(b) => o.areas.push(b),
            None => o.areas,
        }),
{
    let oq = o.after_area(q.handed, other);
    assert(oq == o.after_area(oq.handed, other));
    if let (Some(a), Some(b)) = (area, other) {
        lemma_same_text_same_items(a, b);
    }
    oq
}

proof fn lemma_same_glyph(p: Progress, o: Progress, q: Progress) -> (oq: Progress)
    requires
        is_same_progress(p, o),
        p.preparation.remaining.len() > 0 ==> p.preparation.area is Some,
        p.step is NextGlyph,
        q == p.after_next(q.handed),
    ensures
        o.moves_to(oq),
        is_same_progress(q, oq),
        oq.areas == o.areas,
{
    let oq = o.after_next(q.handed);
    if p.preparation.remaining.len() > 0 {
        let items = p.preparation.remaining;
        let others = o.preparation.remaining;
        if let (AreaItem::Glyph(job), AreaItem::Glyph(other)) = (items[0], others[0]) {
            let task = p.preparation.task(job);
            let other_task = o.preparation.task(other);
            lemma_same_text_same_items(
                p.preparation.area.unwrap(),
                o.preparation.area.unwrap(),
            );
            assert(is_same_task(task, other_task));
            assert(is_same_step(task.begun(q.handed), other_task.begun(q.handed)));
            assert(are_same_items(q.preparation.remaining, oq.preparation.remaining)) by {
                assert forall|i: int| 0 <= i < q.preparation.remaining.len() implies match (
                    q.preparation.remaining[i],
                    #[trigger] oq.preparation.remaining[i],
                ) {
                    (AreaItem::Glyph(x), AreaItem::Glyph(y)) => is_same_job(x, y),
                    (AreaItem::Overflow, AreaItem::Overflow) => true,
                    _ => false,
                } by {
                    assert(others[i + 1] == oq.preparation.remaining[i]);
                }
            }
        }
    }
    oq
}

proof fn lemma_same_text_image(
    p: Progress,
    o: Progress,
    q: Progress,
    step: RasterizeTextStep,
    image: Option<SwashImage>,
) -> (oq: Progress)
    requires
        is_same_progress(p, o),
        p.step == Step::RasterizeText(step),
        step.takes_image(image, q.handed, q.step, q.atlas),
        q == p.after(q.handed, q.atlas, q.step, run::text_ending(step, image, q.handed)),
    ensures
        o.moves_to(oq),
        is_same_progress(q, oq),
        oq.areas == o.areas,
{
    let asked = RasterizeTextStep { task: run::task_of(o.step).unwrap() };
    let ending = run::text_ending(step, image, q.handed);
    assert(run::text_ending(asked, image, q.handed) == ending);
    let next = match ending {
        Some(run::Ending::Resolved { details, color_mode }) => asked.task.resolved(
            details,
            color_mode,
        ),
        _ => match run::task_of(q.step) {
            Some(_) => choices::with_task(q.step, asked.task),
            None => q.step,
        },
    };
    let oq = lemma_same_outcome(p, o, q, next, ending);
    assert(asked.takes_image(image, oq.handed, oq.step, oq.atlas));
    oq
}

proof fn lemma_same_custom_image(
    p: Progress,
    o: Progress,
    q: Progress,
    step: RasterizeCustomStep,
    output: Option<RasterizedCustomGlyph>,
) -> (oq: Progress)
    requires
        is_same_progress(p, o),
        p.step == Step::RasterizeCustom(step),
        step.takes_image(output, q.handed, q.step, q.atlas),
        q == p.after(q.handed, q.atlas, q.step, run::custom_ending(step, output, q.handed)),
    ensures
        o.moves_to(oq),
        is_same_progress(q, oq),
        oq.areas == o.areas,
{
    let asked = RasterizeCustomStep {
        task: run::task_of(o.step).unwrap(),
        request: step.request,
    };
    let ending = run::custom_ending(step, output, q.handed);
    assert(run::custom_ending(asked, output, q.handed) == ending);
    let next = match ending {
        Some(run::Ending::Resolved { details, color_mode }) => asked.task.resolved(
            details,
            color_mode,
        ),
        _ => match run::task_of(q.step) {
            Some(_) => choices::with_task(q.step, asked.task),
            None => q.step,
        },
    };
    let oq = lemma_same_outcome(p, o, q, next, ending);
    assert(asked.takes_image(output, oq.handed, oq.step, oq.atlas));
    oq
}

proof fn lemma_same_place(p: Progress, o: Progress, q: Progress, step: AllocateStep) -> (oq:
    Progress)
    requires
        is_same_progress(p, o),
        p.step == Step::Allocate(step),
        p.moves_to(q),
    ensures
        o.moves_to(oq),
        is_same_progress(q, oq),
        oq.areas == o.areas,
{
    let place = choose|place: Option<Allocation>|
        #[trigger] step.takes_place(place, q.handed, q.step);
    let asked = AllocateStep { task: run::task_of(o.step).unwrap(), image: step.image };
    let oq = lemma_same_outcome(p, o, q, choices::with_task(q.step, asked.task), None);
    assert(asked.takes_place(place, oq.handed, oq.step));
    oq
}

proof fn lemma_same_growth(p: Progress, o: Progress, q: Progress, step: GrowStep) -> (oq: Progress)
    requires
        is_same_progress(p, o),
        p.step == Step::Grow(step),
        p.moves_to(q),
    ensures
        o.moves_to(oq),
        is_same_progress(q, oq),
        oq.areas == o.areas,
{
    let grew = choose|grew: bool|
        q == p.after(q.handed, q.handed, #[trigger] step.after(grew), None);
    let asked = GrowStep { task: run::task_of(o.step).unwrap(), image: step.image };
    let oq = lemma_same_outcome(p, o, q, asked.after(grew), None);
    assert(oq == o.after(oq.handed, oq.handed, asked.after(grew), None));
    oq
}

proof fn lemma_same_write(p: Progress, o: Progress, q: Progress, step: WriteTextureStep) -> (oq:
    Progress)
    requires
        is_same_progress(p, o),
        p.step == Step::WriteTexture(step),
        p.moves_to(q),
    ensures
        o.moves_to(oq),
        is_same_progress(q, oq),
        oq.areas == o.areas,
{
    let task = run::task_of(o.step).unwrap();
    let ending = run::entered_ending(step.task, q.handed, step.details);
    assert(run::entered_ending(task, q.handed, step.details) == ending);
    lemma_same_outcome(p, o, q, task.entered(q.handed, step.details), Some(ending))
}

proof fn lemma_same_depth(p: Progress, o: Progress, q: Progress, step: DepthStep) -> (oq: Progress)
    requires
        is_same_progress(p, o),
        p.step == Step::Depth(step),
        p.moves_to(q),
    ensures
        o.moves_to(oq),
        is_same_progress(q, oq),
        oq.areas == o.areas,
{
    let depth = choose|depth: u32|
        q == p.after(q.handed, q.handed, #[trigger] step.after(depth), None);
    let asked = DepthStep { task: run::task_of(o.step).unwrap(), glyph: step.glyph };
    let oq = lemma_same_outcome(p, o, q, asked.after(depth), None);
    assert(oq == o.after(oq.handed, oq.handed, asked.after(depth), None));
    oq
}

proof fn lemma_same_corners(p: Progress, o: Progress, q: Progress, step: TransformStep) -> (oq:
    Progress)
    requires
        is_same_progress(p, o),
        p.step == Step::Transform(step),
        p.moves_to(q),
    ensures
        o.moves_to(oq),
        is_same_progress(q, oq),
        oq.areas == o.areas,
{
    let clip = choose|clip: [[u32; 4]; 4]|
        {
            &&& #[trigger] p.renderer.expands_to(step.glyph, clip, q.renderer)
            &&& q == p.after_drawing(q.handed, q.renderer, clip)
        };
    let asked = TransformStep {
        task: run::task_of(o.step).unwrap(),
        glyph: step.glyph,
        depth: step.depth,
    };
    let oq = o.after_drawing(q.handed, q.renderer, clip);
    assert(o.step == Step::Transform(asked));
    assert(o.renderer.expands_to(asked.glyph, clip, oq.renderer));
    assert(oq == o.after_drawing(oq.handed, oq.renderer, clip));
    oq
}

/// What is done in a preparation can be done in one that differs from it in metadata only.
proof fn lemma_same_move(
    p: Progress,
    o: Progress,
    q: Progress,
    other: Option<TextArea>,
) -> (oq: Progress)
    requires
        is_same_progress(p, o),
        p.preparation.remaining.len() > 0 ==> p.preparation.area is Some,
        p.moves_to(q),
        other is None ==> q.areas.len() == p.areas.len(),
        other matches Some(area) ==> q.areas.len() == p.areas.len() + 1 && is_same_text(
            q.areas.last(),
            area,
        ),
    ensures
        o.moves_to(oq),
        is_same_progress(q, oq),
        oq.areas == (match other {
            Some(area) => o.areas.push(area),
            None => o.areas,
        }),
{
    match p.step {
        Step::NextArea => {
            let area = choose|area: Option<TextArea>| q == #[trigger] p.after_area(q.handed, area);
            lemma_same_area(p, o, q, area, other)
        },
        Step::NextGlyph => lemma_same_glyph(p, o, q),
        Step::RasterizeText(step) => {
            let image = choose|image: Option<SwashImage>|
                {
                    &&& #[trigger] step.takes_image(image, q.handed, q.step, q.atlas)
                    &&& q == p.after(
                        q.handed,
                        q.atlas,
                        q.step,
                        run::text_ending(step, image, q.handed),
                    )
                };
            lemma_same_text_image(p, o, q, step, image)
        },
        Step::RasterizeCustom(step) => {
            let output = choose|output: Option<RasterizedCustomGlyph>|
                {
                    &&& #[trigger] step.takes_image(output, q.handed, q.step, q.atlas)
                    &&& q == p.after(
                        q.handed,
                        q.atlas,
                        q.step,
                        run::custom_ending(step, output, q.handed),
                    )
                };
            lemma_same_custom_image(p, o, q, step, output)
        },
        Step::Allocate(step) => lemma_same_place(p, o, q, step),
        Step::Grow(step) => lemma_same_growth(p, o, q, step),
        Step::WriteTexture(step) => lemma_same_write(p, o, q, step),
        Step::Depth(step) => lemma_same_depth(p, o, q, step),
        Step::Transform(step) => lemma_same_corners(p, o, q, step),
        _ => o,
    }
}

proof fn lemma_same_run(trace: Seq<Progress>, areas: Seq<TextArea>) -> (other: Seq<Progress>)
    requires
        run::is_run(trace),
        areas.len() == trace.last().areas.len(),
        forall|i: int|
            0 <= i < areas.len() ==> is_same_text(trace.last().areas[i], #[trigger] areas[i]),
    ensures
        run::is_run(other),
        other.len() == trace.len(),
        forall|i: int| 0 <= i < trace.len() ==> is_same_progress(trace[i], #[trigger] other[i]),
        other.last().areas == areas,
    decreases trace.len(),
{
    if trace.len() == 1 {
        assert(areas =~= trace[0].areas);
        trace
    } else {
        let n = trace.len() - 1;
        let p = trace[n - 1];
        let q = trace[n];
        let m = p.areas.len() as int;
        run::lemma_run_prefix(trace, n);
        run::every_preparation_is_sound(trace.take(n));
        assert(run::moves_at(trace, n - 1));
        assert(p.areas.is_prefix_of(q.areas) && q.areas.len() <= m + 1);
        assert forall|i: int| 0 <= i < m implies is_same_text(
            p.areas[i],
            #[trigger] areas.take(m)[i],
        ) by {
            assert(is_same_text(q.areas[i], areas[i]));
        }
        let before = lemma_same_run(trace.take(n), areas.take(m));
        assert(is_same_progress(trace.take(n)[n - 1], before[n - 1]));
        let added = if q.areas.len() > m {
            Some(areas[m])
        } else {
            None
        };
        let oq = lemma_same_move(p, before.last(), q, added);
        run::preparation_goes_on(before, oq);
        let other = before.push(oq);
        assert forall|i: int| 0 <= i < trace.len() implies is_same_progress(
            trace[i],
            #[trigger] other[i],
        ) by {
            if i < n {
                assert(is_same_progress(trace.take(n)[i], before[i]));
            }
        }
        assert(other.last().areas =~= areas);
        other
    }
}

/// At depth zero the metadata of glyphs do not matter: for every preparation at depth zero and
/// every text areas that differ from its own in metadata only there is a preparation of these that
/// has the same atlas, the same vertices and indices, and the same step at every place, and neither
/// asks for a depth.
pub proof fn metadata_do_not_matter_at_depth_zero(
    trace: Seq<Progress>,
    areas: Seq<TextArea>,
) -> (other: Seq<Progress>)
    requires
        run::is_run(trace),
        trace[0].preparation.frame.depth is Zero,
        areas.len() == trace.last().areas.len(),
        forall|i: int|
            0 <= i < areas.len() ==> is_same_text(trace.last().areas[i], #[trigger] areas[i]),
    ensures
        run::is_run(other),
        other.len() == trace.len(),
        other[0].preparation.frame == trace[0].preparation.frame,
        other.last().areas == areas,
        forall|i: int|
            0 <= i < trace.len() ==> {
                &&& is_same_progress(trace[i], #[trigger] other[i])
                &&& !(trace[i].step is Depth) && !(other[i].step is Depth)
            },
{
    let other = lemma_same_run(trace, areas);
    assert(is_same_progress(trace[0], other[0]));
    assert forall|i: int| 0 <= i < trace.len() implies {
        &&& is_same_progress(trace[i], #[trigger] other[i])
        &&& !(trace[i].step is Depth) && !(other[i].step is Depth)
    } by {
        run::lemma_run_prefix(trace, i + 1);
        run::lemma_run_prefix(other, i + 1);
        depth::no_depth_is_asked_for_at_zero(trace.take(i + 1));
        depth::no_depth_is_asked_for_at_zero(other.take(i + 1));
    }
    other
}

} // verus!
