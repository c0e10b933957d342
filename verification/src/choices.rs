//! What a preparation at depth zero, or without a rasterizer of custom glyphs, leaves out: nothing
//! but requests whose answers are known.
use vstd::prelude::*;
use crate::atlas::{ColorMode, GlyphDetails, TextAtlasView};
use crate::depth;
use crate::image::{RasterizedCustomGlyph, SwashImage};
use crate::layout::{AreaItem, TextArea};
use crate::prepare::{
    AllocateStep, Allocation, DepthStep, Frame, GlyphTask, GrowStep, PreparationView,
    RasterizeCustomStep, RasterizeTextStep, Step, TransformStep, WriteTextureStep,
};
use crate::run;
use crate::run::{Ending, Progress};
use crate::text_render::TextRendererView;

verus! {

/// Whether the second frame differs from the first at most in that depths come from the metadata in
/// place of being zero, and in that there is a rasterizer of custom glyphs where there was none.
pub open spec fn adds_choices(frame: Frame, full: Frame) -> bool {
    &&& full.resolution == frame.resolution
    &&& full.depth == frame.depth || (frame.depth is Zero && full.depth is Metadata)
    &&& full.custom == frame.custom || (frame.custom is Absent && full.custom is Present)
}

/// Whether a step asks for something that the second frame adds: the depth of a glyph, or the image
/// of a custom glyph.
pub open spec fn asks_for_choice(step: Step, frame: Frame, full: Frame) -> bool {
    ||| step is Depth && frame.depth is Zero && full.depth is Metadata
    ||| step is RasterizeCustom && frame.custom is Absent && full.custom is Present
}

/// The place behind a request for a depth that is answered by zero, or for an image of a custom
/// glyph that is answered by none, with the atlas as it was.
pub open spec fn answered(p: Progress) -> Progress {
    match p.step {
        Step::Depth(asked) => p.after(p.atlas, p.atlas, asked.after(0), None),
        Step::RasterizeCustom(_) => p.after(
            p.atlas,
            p.atlas,
            Step::NextGlyph,
            Some(Ending::NoImage),
        ),
        _ => p,
    }
}

/// Whether a request for something that the second frame adds, if there is one at a place of a
/// preparation, is answered by zero or by no image.
pub open spec fn is_answered_at(trace: Seq<Progress>, i: int, frame: Frame, full: Frame) -> bool {
    asks_for_choice(trace[i].step, frame, full) ==> trace[i + 1] == answered(trace[i])
}

/// Whether every depth that the second frame adds is zero, and every image of a custom glyph that
/// it adds is none.
pub open spec fn has_trivial_choices(trace: Seq<Progress>, frame: Frame, full: Frame) -> bool {
    forall|i: int| 0 <= i < trace.len() - 1 ==> #[trigger] is_answered_at(trace, i, frame, full)
}

/// The places of a preparation that do not ask for something that the second frame adds, in order.
pub open spec fn without_choices(trace: Seq<Progress>, frame: Frame, full: Frame) -> Seq<Progress>
    decreases trace.len(),
{
    if trace.len() == 0 {
        Seq::empty()
    } else if asks_for_choice(trace.last().step, frame, full) {
        without_choices(trace.drop_last(), frame, full)
    } else {
        without_choices(trace.drop_last(), frame, full).push(trace.last())
    }
}

/// A glyph that is prepared with another frame.
pub open spec fn task_with(task: GlyphTask, full: Frame) -> GlyphTask {
    GlyphTask { frame: full, ..task }
}

/// A step about another glyph.
pub open spec fn with_task(step: Step, task: GlyphTask) -> Step {
    match step {
        Step::RasterizeText(_) => Step::RasterizeText(RasterizeTextStep { task }),
        Step::RasterizeCustom(step) => Step::RasterizeCustom(
            RasterizeCustomStep { task, request: step.request },
        ),
        Step::Allocate(step) => Step::Allocate(AllocateStep { task, image: step.image }),
        Step::Grow(step) => Step::Grow(GrowStep { task, image: step.image }),
        Step::WriteTexture(step) => Step::WriteTexture(
            WriteTextureStep { task, write: step.write, details: step.details },
        ),
        Step::Depth(step) => Step::Depth(DepthStep { task, glyph: step.glyph }),
        Step::Transform(step) => Step::Transform(
            TransformStep { task, glyph: step.glyph, depth: step.depth },
        ),
        other => other,
    }
}

/// A step with another frame.
pub open spec fn step_with(step: Step, full: Frame) -> Step {
    match run::task_of(step) {
        Some(task) => with_task(step, task_with(task, full)),
        None => step,
    }
}

/// What becomes of a glyph with another frame: it has no image where one is asked for that is not
/// there.
pub open spec fn ending_with(task: GlyphTask, ending: Ending, full: Frame) -> Ending {
    if ending is Unwanted && !task_with(task, full).is_unwanted() {
        Ending::NoImage
    } else {
        ending
    }
}

/// Whether two preparations have come equally far, the second with another frame: they have the
/// same areas before and behind them, the same atlas, the same vertices and indices, and the same
/// step.
pub open spec fn agrees(p: Progress, q: Progress, full: Frame) -> bool {
    &&& q.preparation == (PreparationView { frame: full, ..p.preparation })
    &&& q.atlas == p.atlas
    &&& q.renderer == p.renderer
    &&& q.areas == p.areas
    &&& q.clips == p.clips
    &&& q.begun.len() == p.begun.len()
    &&& forall|k: int|
        0 <= k < p.begun.len() ==> #[trigger] q.begun[k] == task_with(p.begun[k], full)
    &&& q.ended.len() == p.ended.len()
    &&& forall|k: int|
        0 <= k < p.ended.len() ==> #[trigger] q.ended[k] == ending_with(
            p.begun[k],
            p.ended[k],
            full,
        )
    &&& q.step == step_with(p.step, full)
}

/// Whether two preparations agree place by place.
pub open spec fn agree_throughout(
    trace: Seq<Progress>,
    other: Seq<Progress>,
    full: Frame,
) -> bool {
    &&& other.len() == trace.len()
    &&& forall|i: int| 0 <= i < trace.len() ==> agrees(trace[i], #[trigger] other[i], full)
}

/// A place, or the one behind it where it asks for something that the second frame adds.
spec fn settled(p: Progress, frame: Frame, full: Frame) -> Progress {
    if asks_for_choice(p.step, frame, full) {
        answered(p)
    } else {
        p
    }
}

/// Whether a step that is about a glyph is about the one that was begun last, which has not ended
/// as long as its image is on its way, and every other glyph has ended.
spec fn is_about_last(p: Progress) -> bool {
    &&& run::task_of(p.step) matches Some(task) ==> p.begun.len() > 0 && task == p.begun.last()
    &&& run::is_pending(p.step) ==> p.ended.len() + 1 == p.begun.len()
    &&& p.step is NextGlyph ==> p.ended.len() == p.begun.len()
}

/// What holds at both places before the same thing is done at them.
spec fn are_level(p: Progress, fp: Progress, frame: Frame, full: Frame) -> bool {
    &&& adds_choices(frame, full)
    &&& is_about_last(p)
    &&& p.preparation.frame == frame
    &&& forall|k: int| 0 <= k < p.begun.len() ==> (#[trigger] p.begun[k]).frame == frame
    &&& agrees(p, fp, full)
}

proof fn lemma_answering_is_a_move(p: Progress, frame: Frame, full: Frame)
    requires
        asks_for_choice(p.step, frame, full),
    ensures
        p.moves_to(answered(p)),
        !asks_for_choice(answered(p).step, frame, full),
{
    let q = answered(p);
    match p.step {
        Step::Depth(asked) => {
            assert(q == p.after(q.handed, q.handed, asked.after(0), None));
        },
        Step::RasterizeCustom(asked) => {
            let output: Option<RasterizedCustomGlyph> = None;
            assert(asked.takes_image(output, q.handed, q.step, q.atlas));
        },
        _ => {},
    }
}

proof fn lemma_same_area(
    p: Progress,
    fp: Progress,
    frame: Frame,
    full: Frame,
    handed: TextAtlasView,
    area: Option<TextArea>,
)
    requires
        are_level(p, fp, frame, full),
        p.step is NextArea,
    ensures
        p.moves_to(p.after_area(handed, area)),
        fp.moves_to(fp.after_area(handed, area)),
        agrees(p.after_area(handed, area), fp.after_area(handed, area), full),
{
    let q = p.after_area(handed, area);
    let fq = fp.after_area(handed, area);
    assert(q == p.after_area(q.handed, area));
    assert(fq == fp.after_area(fq.handed, area));
}

/// Where nothing, or the same thing, becomes of the glyph that was begun last.
proof fn lemma_same_outcome(
    p: Progress,
    fp: Progress,
    frame: Frame,
    full: Frame,
    handed: TextAtlasView,
    atlas: TextAtlasView,
    step: Step,
    ending: Option<Ending>,
)
    requires
        are_level(p, fp, frame, full),
        ending is Some ==> p.ended.len() < p.begun.len() && !(ending.unwrap() is Unwanted),
    ensures
        agrees(
            p.after(handed, atlas, step, ending),
            fp.after(handed, atlas, step_with(step, full), ending),
            full,
        ),
{
}

/// Where the details of the glyph that was begun last have become known.
proof fn lemma_same_details(
    p: Progress,
    fp: Progress,
    frame: Frame,
    full: Frame,
    handed: TextAtlasView,
    atlas: TextAtlasView,
    details: GlyphDetails,
    color_mode: ColorMode,
)
    requires
        are_level(p, fp, frame, full),
        p.ended.len() + 1 == p.begun.len(),
    ensures
        ({
            let ending = Some(Ending::Resolved { details, color_mode });
            let step = p.begun.last().resolved(details, color_mode);
            let full_step = fp.begun.last().resolved(details, color_mode);
            agrees(
                p.after(handed, atlas, step, ending),
                settled(fp.after(handed, atlas, full_step, ending), frame, full),
                full,
            )
        }),
{
    assert(fp.begun.last() == task_with(p.begun.last(), full));
    assert(p.begun[p.begun.len() - 1].frame == frame);
    let step = p.begun.last().resolved(details, color_mode);
    lemma_same_outcome(
        p,
        fp,
        frame,
        full,
        handed,
        atlas,
        step,
        Some(Ending::Resolved { details, color_mode }),
    );
}

proof fn lemma_same_glyph(
    p: Progress,
    fp: Progress,
    frame: Frame,
    full: Frame,
    handed: TextAtlasView,
)
    requires
        are_level(p, fp, frame, full),
        p.step is NextGlyph,
    ensures
        agrees(p.after_next(handed), settled(fp.after_next(handed), frame, full), full),
{
    if p.preparation.remaining.len() > 0 {
        if let AreaItem::Glyph(job) = p.preparation.remaining[0] {
            let task = p.preparation.task(job);
            assert(fp.preparation.task(job) == task_with(task, full));
        }
    }
}

/// The image of a glyph of a font that comes to a place comes to the other place too.
proof fn lemma_same_text_image(
    p: Progress,
    q: Progress,
    fp: Progress,
    frame: Frame,
    full: Frame,
    step: RasterizeTextStep,
    image: Option<SwashImage>,
) -> (fq: Progress)
    requires
        are_level(p, fp, frame, full),
        p.step == Step::RasterizeText(step),
        step.takes_image(image, q.handed, q.step, q.atlas),
        q == p.after(q.handed, q.atlas, q.step, run::text_ending(step, image, q.handed)),
    ensures
        fp.moves_to(fq),
        agrees(q, settled(fq, frame, full), full),
{
    let asked = RasterizeTextStep { task: task_with(step.task, full) };
    let ending = run::text_ending(step, image, q.handed);
    assert(fp.begun.last() == asked.task);
    assert(run::text_ending(asked, image, q.handed) == ending);
    let fq = match ending {
        Some(Ending::Resolved { details, color_mode }) => {
            lemma_same_details(p, fp, frame, full, q.handed, q.atlas, details, color_mode);
            fp.after(q.handed, q.atlas, asked.task.resolved(details, color_mode), ending)
        },
        _ => {
            lemma_same_outcome(p, fp, frame, full, q.handed, q.atlas, q.step, ending);
            fp.after(q.handed, q.atlas, step_with(q.step, full), ending)
        },
    };
    assert(asked.takes_image(image, fq.handed, fq.step, fq.atlas));
    fq
}

/// The image of a custom glyph that comes to a place comes to the other place too.
proof fn lemma_same_custom_image(
    p: Progress,
    q: Progress,
    fp: Progress,
    frame: Frame,
    full: Frame,
    step: RasterizeCustomStep,
    output: Option<RasterizedCustomGlyph>,
) -> (fq: Progress)
    requires
        are_level(p, fp, frame, full),
        p.step == Step::RasterizeCustom(step),
        step.takes_image(output, q.handed, q.step, q.atlas),
        q == p.after(q.handed, q.atlas, q.step, run::custom_ending(step, output, q.handed)),
    ensures
        fp.moves_to(fq),
        agrees(q, settled(fq, frame, full), full),
{
    let asked = RasterizeCustomStep { task: task_with(step.task, full), request: step.request };
    let ending = run::custom_ending(step, output, q.handed);
    assert(fp.begun.last() == asked.task);
    assert(run::custom_ending(asked, output, q.handed) == ending);
    let fq = match ending {
        Some(Ending::Resolved { details, color_mode }) => {
            lemma_same_details(p, fp, frame, full, q.handed, q.atlas, details, color_mode);
            fp.after(q.handed, q.atlas, asked.task.resolved(details, color_mode), ending)
        },
        _ => {
            lemma_same_outcome(p, fp, frame, full, q.handed, q.atlas, q.step, ending);
            fp.after(q.handed, q.atlas, step_with(q.step, full), ending)
        },
    };
    assert(asked.takes_image(output, fq.handed, fq.step, fq.atlas));
    fq
}

/// Texels that are written at a place are written at the other place too.
proof fn lemma_same_write(
    p: Progress,
    fp: Progress,
    frame: Frame,
    full: Frame,
    step: WriteTextureStep,
    handed: TextAtlasView,
)
    requires
        are_level(p, fp, frame, full),
        p.step == Step::WriteTexture(step),
    ensures
        ({
            let asked = WriteTextureStep {
                task: task_with(step.task, full),
                write: step.write,
                details: step.details,
            };
            &&& fp.step == Step::WriteTexture(asked)
            &&& agrees(
                after_writing(p, step, handed),
                settled(after_writing(fp, asked, handed), frame, full),
                full,
            )
        }),
{
    let key = step.task.job.metadata.cache_key;
    assert(fp.begun.last() == task_with(step.task, full));
    lemma_same_details(
        p,
        fp,
        frame,
        full,
        handed,
        handed.with_glyph(key, step.details),
        handed.details_with_glyph(key, step.details),
        handed.color_mode,
    );
}

/// The place once the texels have been written.
spec fn after_writing(p: Progress, step: WriteTextureStep, handed: TextAtlasView) -> Progress {
    p.after(
        handed,
        handed.with_glyph(step.task.job.metadata.cache_key, step.details),
        step.task.entered(handed, step.details),
        Some(run::entered_ending(step.task, handed, step.details)),
    )
}

/// A place of the texture that comes to a place comes to the other place too.
proof fn lemma_same_place(
    p: Progress,
    q: Progress,
    fp: Progress,
    frame: Frame,
    full: Frame,
    step: AllocateStep,
) -> (fq: Progress)
    requires
        are_level(p, fp, frame, full),
        p.step == Step::Allocate(step),
        p.moves_to(q),
    ensures
        fp.moves_to(fq),
        agrees(q, settled(fq, frame, full), full),
{
    let place = choose|place: Option<Allocation>|
        #[trigger] step.takes_place(place, q.handed, q.step);
    let asked = AllocateStep { task: task_with(step.task, full), image: step.image };
    lemma_same_outcome(p, fp, frame, full, q.handed, q.handed, q.step, None);
    let fq = fp.after(q.handed, q.handed, step_with(q.step, full), None);
    assert(asked.takes_place(place, fq.handed, fq.step));
    fq
}

/// Whether a texture could be made larger, which comes to both places.
proof fn lemma_same_growth(
    p: Progress,
    fp: Progress,
    frame: Frame,
    full: Frame,
    step: GrowStep,
    grew: bool,
    handed: TextAtlasView,
)
    requires
        are_level(p, fp, frame, full),
        p.step == Step::Grow(step),
    ensures
        ({
            let asked = GrowStep { task: task_with(step.task, full), image: step.image };
            let q = p.after(handed, handed, step.after(grew), None);
            let fq = fp.after(handed, handed, asked.after(grew), None);
            &&& fp.step == Step::Grow(asked)
            &&& p.moves_to(q)
            &&& fp.moves_to(fq)
            &&& agrees(q, settled(fq, frame, full), full)
        }),
{
    let asked = GrowStep { task: task_with(step.task, full), image: step.image };
    let q = p.after(handed, handed, step.after(grew), None);
    let fq = fp.after(handed, handed, asked.after(grew), None);
    lemma_same_outcome(p, fp, frame, full, handed, handed, step.after(grew), None);
    assert(q == p.after(q.handed, q.handed, step.after(grew), None));
    assert(fq == fp.after(fq.handed, fq.handed, asked.after(grew), None));
}

/// The depth of a glyph, which comes to both places.
proof fn lemma_same_depth(
    p: Progress,
    fp: Progress,
    frame: Frame,
    full: Frame,
    step: DepthStep,
    depth: u32,
    handed: TextAtlasView,
)
    requires
        are_level(p, fp, frame, full),
        p.step == Step::Depth(step),
    ensures
        ({
            let asked = DepthStep { task: task_with(step.task, full), glyph: step.glyph };
            let q = p.after(handed, handed, step.after(depth), None);
            let fq = fp.after(handed, handed, asked.after(depth), None);
            &&& fp.step == Step::Depth(asked)
            &&& p.moves_to(q)
            &&& fp.moves_to(fq)
            &&& agrees(q, settled(fq, frame, full), full)
        }),
{
    let asked = DepthStep { task: task_with(step.task, full), glyph: step.glyph };
    let q = p.after(handed, handed, step.after(depth), None);
    let fq = fp.after(handed, handed, asked.after(depth), None);
    lemma_same_outcome(p, fp, frame, full, handed, handed, step.after(depth), None);
    assert(q == p.after(q.handed, q.handed, step.after(depth), None));
    assert(fq == fp.after(fq.handed, fq.handed, asked.after(depth), None));
}

/// The corners of a glyph, which come to both places.
proof fn lemma_same_corners(
    p: Progress,
    fp: Progress,
    frame: Frame,
    full: Frame,
    step: TransformStep,
    renderer: TextRendererView,
    clip: [[u32; 4]; 4],
    handed: TextAtlasView,
)
    requires
        are_level(p, fp, frame, full),
        p.step == Step::Transform(step),
        p.renderer.expands_to(step.glyph, clip, renderer),
    ensures
        ({
            let q = p.after_drawing(handed, renderer, clip);
            let fq = fp.after_drawing(handed, renderer, clip);
            &&& p.moves_to(q)
            &&& fp.moves_to(fq)
            &&& agrees(q, settled(fq, frame, full), full)
        }),
{
    let q = p.after_drawing(handed, renderer, clip);
    let fq = fp.after_drawing(handed, renderer, clip);
    let asked = TransformStep {
        task: task_with(step.task, full),
        glyph: step.glyph,
        depth: step.depth,
    };
    assert(fp.step == Step::Transform(asked));
    assert(p.renderer.expands_to(step.glyph, clip, q.renderer));
    assert(q == p.after_drawing(q.handed, q.renderer, clip));
    assert(fp.renderer.expands_to(asked.glyph, clip, fq.renderer));
    assert(fq == fp.after_drawing(fq.handed, fq.renderer, clip));
}

/// What is done at a place without the choices can be done at the place with them.
proof fn lemma_move_with_choices(
    p: Progress,
    q: Progress,
    fp: Progress,
    frame: Frame,
    full: Frame,
) -> (fq: Progress)
    requires
        are_level(p, fp, frame, full),
        p.moves_to(q),
    ensures
        fp.moves_to(fq),
        agrees(q, settled(fq, frame, full), full),
{
    match p.step {
        Step::NextArea => {
            let area = choose|area: Option<TextArea>| q == #[trigger] p.after_area(q.handed, area);
            lemma_same_area(p, fp, frame, full, q.handed, area);
            fp.after_area(q.handed, area)
        },
        Step::NextGlyph => {
            lemma_same_glyph(p, fp, frame, full, q.handed);
            fp.after_next(q.handed)
        },
        Step::RasterizeText(step) => {
            let image = choose|image: Option<SwashImage>|
                {
                    &&& #[trigger] step.takes_image(image, q.handed, q.step, q.atlas)
                    &&& q == p.after(
                        q.handed,
                        q.atlas,
                        q.step,
                        run::text_ending(step, image, q.handed),
                    )
                };
            lemma_same_text_image(p, q, fp, frame, full, step, image)
        },
        Step::RasterizeCustom(step) => {
            let output = choose|output: Option<RasterizedCustomGlyph>|
                {
                    &&& #[trigger] step.takes_image(output, q.handed, q.step, q.atlas)
                    &&& q == p.after(
                        q.handed,
                        q.atlas,
                        q.step,
                        run::custom_ending(step, output, q.handed),
                    )
                };
            lemma_same_custom_image(p, q, fp, frame, full, step, output)
        },
        Step::Allocate(step) => lemma_same_place(p, q, fp, frame, full, step),
        Step::Grow(step) => {
            let grew = choose|grew: bool|
                q == p.after(q.handed, q.handed, #[trigger] step.after(grew), None);
            let asked = GrowStep { task: task_with(step.task, full), image: step.image };
            lemma_same_growth(p, fp, frame, full, step, grew, q.handed);
            fp.after(q.handed, q.handed, asked.after(grew), None)
        },
        Step::WriteTexture(step) => {
            let asked = WriteTextureStep {
                task: task_with(step.task, full),
                write: step.write,
                details: step.details,
            };
            lemma_same_write(p, fp, frame, full, step, q.handed);
            after_writing(fp, asked, q.handed)
        },
        Step::Depth(step) => {
            let depth = choose|depth: u32|
                q == p.after(q.handed, q.handed, #[trigger] step.after(depth), None);
            let asked = DepthStep { task: task_with(step.task, full), glyph: step.glyph };
            lemma_same_depth(p, fp, frame, full, step, depth, q.handed);
            fp.after(q.handed, q.handed, asked.after(depth), None)
        },
        Step::Transform(step) => {
            let clip = choose|clip: [[u32; 4]; 4]|
                {
                    &&& #[trigger] p.renderer.expands_to(step.glyph, clip, q.renderer)
                    &&& q == p.after_drawing(q.handed, q.renderer, clip)
                };
            lemma_same_corners(p, fp, frame, full, step, q.renderer, clip, q.handed);
            fp.after_drawing(q.handed, q.renderer, clip)
        },
        _ => fp,
    }
}

/// The image of a glyph of a font that comes to the place with the choices comes to the one
/// without.
proof fn lemma_text_image_without_choices(
    p: Progress,
    fp: Progress,
    fq: Progress,
    frame: Frame,
    full: Frame,
    asked: RasterizeTextStep,
    image: Option<SwashImage>,
) -> (q: Progress)
    requires
        are_level(p, fp, frame, full),
        fp.step == Step::RasterizeText(asked),
        asked.takes_image(image, fq.handed, fq.step, fq.atlas),
        fq == fp.after(fq.handed, fq.atlas, fq.step, run::text_ending(asked, image, fq.handed)),
    ensures
        p.moves_to(q),
        agrees(q, settled(fq, frame, full), full),
{
    let step = RasterizeTextStep { task: p.begun.last() };
    let ending = run::text_ending(step, image, fq.handed);
    assert(fp.begun.last() == asked.task);
    assert(p.step == Step::RasterizeText(step));
    assert(run::text_ending(asked, image, fq.handed) == ending);
    let q = match ending {
        Some(Ending::Resolved { details, color_mode }) => {
            lemma_same_details(p, fp, frame, full, fq.handed, fq.atlas, details, color_mode);
            p.after(fq.handed, fq.atlas, step.task.resolved(details, color_mode), ending)
        },
        _ => {
            let next = match run::task_of(fq.step) {
                Some(_) => with_task(fq.step, step.task),
                None => fq.step,
            };
            assert(fq.step == step_with(next, full));
            lemma_same_outcome(p, fp, frame, full, fq.handed, fq.atlas, next, ending);
            p.after(fq.handed, fq.atlas, next, ending)
        },
    };
    assert(step.takes_image(image, q.handed, q.step, q.atlas));
    q
}

/// The image of a custom glyph that comes to the place with the choices comes to the one without.
proof fn lemma_custom_image_without_choices(
    p: Progress,
    fp: Progress,
    fq: Progress,
    frame: Frame,
    full: Frame,
    asked: RasterizeCustomStep,
    output: Option<RasterizedCustomGlyph>,
) -> (q: Progress)
    requires
        are_level(p, fp, frame, full),
        fp.step == Step::RasterizeCustom(asked),
        asked.takes_image(output, fq.handed, fq.step, fq.atlas),
        fq == fp.after(fq.handed, fq.atlas, fq.step, run::custom_ending(asked, output, fq.handed)),
    ensures
        p.moves_to(q),
        agrees(q, settled(fq, frame, full), full),
{
    let step = RasterizeCustomStep { task: p.begun.last(), request: asked.request };
    let ending = run::custom_ending(step, output, fq.handed);
    assert(fp.begun.last() == asked.task);
    assert(p.step == Step::RasterizeCustom(step));
    assert(run::custom_ending(asked, output, fq.handed) == ending);
    let q = match ending {
        Some(Ending::Resolved { details, color_mode }) => {
            lemma_same_details(p, fp, frame, full, fq.handed, fq.atlas, details, color_mode);
            p.after(fq.handed, fq.atlas, step.task.resolved(details, color_mode), ending)
        },
        _ => {
            let next = match run::task_of(fq.step) {
                Some(_) => with_task(fq.step, step.task),
                None => fq.step,
            };
            assert(fq.step == step_with(next, full));
            lemma_same_outcome(p, fp, frame, full, fq.handed, fq.atlas, next, ending);
            p.after(fq.handed, fq.atlas, next, ending)
        },
    };
    assert(step.takes_image(output, q.handed, q.step, q.atlas));
    q
}

/// A place of the texture that comes to the place with the choices comes to the one without.
proof fn lemma_place_without_choices(
    p: Progress,
    fp: Progress,
    fq: Progress,
    frame: Frame,
    full: Frame,
    asked: AllocateStep,
) -> (q: Progress)
    requires
        are_level(p, fp, frame, full),
        fp.step == Step::Allocate(asked),
        fp.moves_to(fq),
    ensures
        p.moves_to(q),
        agrees(q, settled(fq, frame, full), full),
{
    let place = choose|place: Option<Allocation>|
        #[trigger] asked.takes_place(place, fq.handed, fq.step);
    let step = AllocateStep { task: p.begun.last(), image: asked.image };
    assert(p.step == Step::Allocate(step));
    let next = with_task(fq.step, step.task);
    assert(fq.step == step_with(next, full));
    lemma_same_outcome(p, fp, frame, full, fq.handed, fq.handed, next, None);
    let q = p.after(fq.handed, fq.handed, next, None);
    assert(step.takes_place(place, q.handed, q.step));
    q
}

/// What is done at a place with the choices, other than asking for them, can be done at the place
/// without them.
proof fn lemma_move_without_choices(
    p: Progress,
    fp: Progress,
    fq: Progress,
    frame: Frame,
    full: Frame,
) -> (q: Progress)
    requires
        are_level(p, fp, frame, full),
        fp.moves_to(fq),
    ensures
        p.moves_to(q),
        agrees(q, settled(fq, frame, full), full),
{
    let handed = fq.handed;
    match fp.step {
        Step::NextArea => {
            let area = choose|area: Option<TextArea>|
                fq == #[trigger] fp.after_area(fq.handed, area);
            lemma_same_area(p, fp, frame, full, handed, area);
            p.after_area(handed, area)
        },
        Step::NextGlyph => {
            lemma_same_glyph(p, fp, frame, full, handed);
            p.after_next(handed)
        },
        Step::RasterizeText(asked) => {
            let image = choose|image: Option<SwashImage>|
                {
                    &&& #[trigger] asked.takes_image(image, fq.handed, fq.step, fq.atlas)
                    &&& fq == fp.after(
                        fq.handed,
                        fq.atlas,
                        fq.step,
                        run::text_ending(asked, image, fq.handed),
                    )
                };
            lemma_text_image_without_choices(p, fp, fq, frame, full, asked, image)
        },
        Step::RasterizeCustom(asked) => {
            let output = choose|output: Option<RasterizedCustomGlyph>|
                {
                    &&& #[trigger] asked.takes_image(output, fq.handed, fq.step, fq.atlas)
                    &&& fq == fp.after(
                        fq.handed,
                        fq.atlas,
                        fq.step,
                        run::custom_ending(asked, output, fq.handed),
                    )
                };
            lemma_custom_image_without_choices(p, fp, fq, frame, full, asked, output)
        },
        Step::Allocate(asked) => lemma_place_without_choices(p, fp, fq, frame, full, asked),
        Step::Grow(asked) => {
            let grew = choose|grew: bool|
                fq == fp.after(fq.handed, fq.handed, #[trigger] asked.after(grew), None);
            let step = GrowStep { task: p.begun.last(), image: asked.image };
            assert(p.step == Step::Grow(step));
            lemma_same_growth(p, fp, frame, full, step, grew, handed);
            p.after(handed, handed, step.after(grew), None)
        },
        Step::WriteTexture(asked) => {
            let step = WriteTextureStep {
                task: p.begun.last(),
                write: asked.write,
                details: asked.details,
            };
            assert(p.step == Step::WriteTexture(step));
            lemma_same_write(p, fp, frame, full, step, handed);
            after_writing(p, step, handed)
        },
        Step::Depth(asked) => {
            let depth = choose|depth: u32|
                fq == fp.after(fq.handed, fq.handed, #[trigger] asked.after(depth), None);
            let step = DepthStep { task: p.begun.last(), glyph: asked.glyph };
            assert(p.step == Step::Depth(step));
            lemma_same_depth(p, fp, frame, full, step, depth, handed);
            p.after(handed, handed, step.after(depth), None)
        },
        Step::Transform(asked) => {
            let clip = choose|clip: [[u32; 4]; 4]|
                {
                    &&& #[trigger] fp.renderer.expands_to(asked.glyph, clip, fq.renderer)
                    &&& fq == fp.after_drawing(fq.handed, fq.renderer, clip)
                };
            let step = TransformStep {
                task: p.begun.last(),
                glyph: asked.glyph,
                depth: asked.depth,
            };
            assert(p.step == Step::Transform(step));
            lemma_same_corners(p, fp, frame, full, step, fq.renderer, clip, handed);
            p.after_drawing(handed, fq.renderer, clip)
        },
        _ => p,
    }
}

/// A preparation asks for nothing that its frame does not have.
proof fn lemma_asks_for_no_choice(trace: Seq<Progress>, full: Frame)
    requires
        run::is_run(trace),
    ensures
        !asks_for_choice(trace.last().step, trace[0].preparation.frame, full),
    decreases trace.len(),
{
    if trace[0].preparation.frame.depth is Zero {
        depth::no_depth_is_asked_for_at_zero(trace);
    }
    if trace.len() > 1 {
        let n = trace.len() - 1;
        run::lemma_run_prefix(trace, n);
        run::every_preparation_is_sound(trace.take(n));
        assert(run::moves_at(trace, n - 1));
    }
}

proof fn lemma_levels(trace: Seq<Progress>, fp: Progress, full: Frame)
    requires
        run::is_run(trace),
        adds_choices(trace[0].preparation.frame, full),
        agrees(trace.last(), fp, full),
    ensures
        are_level(trace.last(), fp, trace[0].preparation.frame, full),
        !asks_for_choice(fp.step, trace[0].preparation.frame, full),
{
    run::every_preparation_is_sound(trace);
    depth::lemma_glyphs_share_frame(trace);
    lemma_asks_for_no_choice(trace, full);
}

/// Preparing at depth zero is preparing at the depths of the metadata where all of them are zero,
/// and preparing without a rasterizer of custom glyphs is preparing with one that has no images:
/// for every preparation there is one with the full frame and these answers that started from the
/// same atlas and renderer, and that agrees with it place by place, but for the places at which it
/// asks for what the frame adds.
pub proof fn absent_choices_are_trivial_choices(trace: Seq<Progress>, full: Frame) -> (with:
    Seq<Progress>)
    requires
        run::is_run(trace),
        adds_choices(trace[0].preparation.frame, full),
    ensures
        run::is_run(with),
        with[0].preparation.frame == full,
        has_trivial_choices(with, trace[0].preparation.frame, full),
        agree_throughout(
            trace,
            without_choices(with, trace[0].preparation.frame, full),
            full,
        ),
        agrees(trace[0], with[0], full),
        agrees(trace.last(), with.last(), full),
    decreases trace.len(),
{
    let frame = trace[0].preparation.frame;
    if trace.len() == 1 {
        let start = Progress {
            preparation: PreparationView { frame: full, ..trace[0].preparation },
            ..trace[0]
        };
        let with = seq![start];
        reveal_with_fuel(without_choices, 2);
        assert(with.drop_last() =~= Seq::empty());
        assert(without_choices(with, frame, full) =~= seq![start]);
        with
    } else {
        let n = trace.len() - 1;
        let p = trace[n - 1];
        let q = trace[n];
        run::lemma_run_prefix(trace, n);
        let before = absent_choices_are_trivial_choices(trace.take(n), full);
        lemma_levels(trace.take(n), before.last(), full);
        assert(run::moves_at(trace, n - 1));
        let fq = lemma_move_with_choices(p, q, before.last(), frame, full);
        lemma_asks_for_no_choice(trace, full);
        lemma_goes_on(before, fq, frame, full);
        let behind = before.push(fq);
        if asks_for_choice(fq.step, frame, full) {
            lemma_answering_is_a_move(fq, frame, full);
            lemma_goes_on(behind, answered(fq), frame, full);
            let with = behind.push(answered(fq));
            reveal_with_fuel(without_choices, 2);
            assert(without_choices(with, frame, full) == without_choices(
                before,
                frame,
                full,
            ).push(answered(fq)));
            lemma_agree_on(trace, without_choices(before, frame, full), answered(fq), full);
            with
        } else {
            lemma_agree_on(trace, without_choices(before, frame, full), fq, full);
            behind
        }
    }
}

proof fn lemma_agree_on(trace: Seq<Progress>, before: Seq<Progress>, last: Progress, full: Frame)
    requires
        trace.len() > 1,
        agree_throughout(trace.take(trace.len() - 1), before, full),
        agrees(trace.last(), last, full),
    ensures
        agree_throughout(trace, before.push(last), full),
{
    let n = trace.len() - 1;
    assert forall|i: int| 0 <= i < trace.len() implies agrees(
        trace[i],
        #[trigger] before.push(last)[i],
        full,
    ) by {
        if i < n {
            assert(agrees(trace.take(n)[i], before[i], full));
        }
    }
}

proof fn lemma_goes_on(trace: Seq<Progress>, next: Progress, frame: Frame, full: Frame)
    requires
        run::is_run(trace),
        trace.last().moves_to(next),
        has_trivial_choices(trace, frame, full),
        asks_for_choice(trace.last().step, frame, full) ==> next == answered(trace.last()),
    ensures
        run::is_run(trace.push(next)),
        has_trivial_choices(trace.push(next), frame, full),
        trace.push(next)[0] == trace[0],
        trace.push(next).drop_last() == trace,
{
    let longer = trace.push(next);
    run::preparation_goes_on(trace, next);
    assert(longer.drop_last() =~= trace);
    assert forall|i: int| 0 <= i < longer.len() - 1 implies #[trigger] is_answered_at(
        longer,
        i,
        frame,
        full,
    ) by {
        if i < trace.len() - 1 {
            assert(is_answered_at(trace, i, frame, full));
        }
    }
}

/// The other way round: every preparation with the full frame in which the depths that it adds are
/// zero and the images of custom glyphs that it adds are none agrees with one without them place by
/// place, but for the places at which it asks for them.
pub proof fn trivial_choices_are_absent_choices(with: Seq<Progress>, frame: Frame) -> (trace:
    Seq<Progress>)
    requires
        run::is_run(with),
        adds_choices(frame, with[0].preparation.frame),
        has_trivial_choices(with, frame, with[0].preparation.frame),
        !asks_for_choice(with.last().step, frame, with[0].preparation.frame),
    ensures
        run::is_run(trace),
        trace[0].preparation.frame == frame,
        agree_throughout(
            trace,
            without_choices(with, frame, with[0].preparation.frame),
            with[0].preparation.frame,
        ),
        agrees(trace[0], with[0], with[0].preparation.frame),
        agrees(trace.last(), with.last(), with[0].preparation.frame),
{
    lemma_without_choices(with, frame)
}

proof fn lemma_without_choices(with: Seq<Progress>, frame: Frame) -> (trace: Seq<Progress>)
    requires
        run::is_run(with),
        adds_choices(frame, with[0].preparation.frame),
        has_trivial_choices(with, frame, with[0].preparation.frame),
    ensures
        ({
            let full = with[0].preparation.frame;
            let asks = asks_for_choice(with.last().step, frame, full);
            &&& run::is_run(trace)
            &&& trace[0].preparation.frame == frame
            &&& agrees(trace[0], with[0], full)
            &&& agrees(trace.last(), settled(with.last(), frame, full), full)
            &&& agree_throughout(
                trace,
                if asks {
                    without_choices(with, frame, full).push(answered(with.last()))
                } else {
                    without_choices(with, frame, full)
                },
                full,
            )
        }),
    decreases with.len(),
{
    let full = with[0].preparation.frame;
    if with.len() == 1 {
        let start = Progress {
            preparation: PreparationView { frame, ..with[0].preparation },
            ..with[0]
        };
        assert(with.drop_last() =~= Seq::empty());
        assert(without_choices(with.drop_last(), frame, full) =~= Seq::empty());
        seq![start]
    } else {
        let n = with.len() - 1;
        let fp = with[n - 1];
        let fq = with[n];
        let before = with.take(n);
        run::lemma_run_prefix(with, n);
        assert(before =~= with.drop_last());
        assert forall|i: int| 0 <= i < before.len() - 1 implies #[trigger] is_answered_at(
            before,
            i,
            frame,
            full,
        ) by {
            assert(is_answered_at(with, i, frame, full));
        }
        let trace = lemma_without_choices(before, frame);
        assert(run::moves_at(with, n - 1));
        assert(is_answered_at(with, n - 1, frame, full));
        if asks_for_choice(fp.step, frame, full) {
            lemma_answering_is_a_move(fp, frame, full);
            trace
        } else {
            lemma_levels(trace, fp, full);
            let q = lemma_move_without_choices(trace.last(), fp, fq, frame, full);
            run::preparation_goes_on(trace, q);
            let longer = trace.push(q);
            assert(longer.take(longer.len() - 1) =~= trace);
            lemma_agree_on(
                longer,
                without_choices(before, frame, full),
                settled(fq, frame, full),
                full,
            );
            longer
        }
    }
}

} // verus!
