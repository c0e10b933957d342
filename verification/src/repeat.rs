//! What is not done twice: the image of a glyph is asked for once, as long as the atlas keeps it.
use vstd::prelude::*;
use crate::atlas;
use crate::atlas::{GlyphDetails, GlyphonCacheKey, TextAtlasView};
use crate::image::{RasterizedCustomGlyph, SwashImage};
use crate::layout;
use crate::layout::{AreaItem, TextArea};
use crate::prepare::{Frame, GlyphTask, Step};
use crate::run;
use crate::run::{Ending, Progress, TaskItem};

verus! {

/// The key of a glyph that is prepared.
pub open spec fn key_of(task: GlyphTask) -> GlyphonCacheKey {
    task.job.metadata.cache_key
}

/// Whether an atlas may follow another one: no glyph has been dropped but such as were not in use.
pub open spec fn may_follow(atlas: TextAtlasView, handed: TextAtlasView) -> bool {
    &&& atlas.is_kept_but_for_unused_in(handed)
    &&& atlas.is_in_use_in(handed)
}

/// Whether no glyph in use is dropped from the atlas behind a place of a preparation.
pub open spec fn keeps_at(trace: Seq<Progress>, i: int) -> bool {
    may_follow(trace[i].atlas, trace[i + 1].handed)
}

/// Whether no glyph in use is dropped from the atlas between the steps of a preparation. Room may
/// be made for new glyphs by dropping others.
pub open spec fn is_steady(trace: Seq<Progress>) -> bool {
    forall|i: int| 0 <= i < trace.len() - 1 ==> #[trigger] keeps_at(trace, i)
}

/// Whether no glyph is dropped from the atlas behind a place of a preparation.
pub open spec fn drops_nothing_at(trace: Seq<Progress>, i: int) -> bool {
    trace[i].atlas.is_kept_in(trace[i + 1].handed)
}

/// Whether no glyph is dropped from the atlas between the steps of a preparation.
pub open spec fn drops_nothing(trace: Seq<Progress>) -> bool {
    forall|i: int| 0 <= i < trace.len() - 1 ==> #[trigger] drops_nothing_at(trace, i)
}

/// What holds of a preparation between whose steps no glyph in use is dropped: the atlas holds each
/// glyph that was resolved, in use and with the details that it was resolved with, and it holds
/// neither a glyph that is not wanted nor one whose image is on its way.
pub open spec fn is_settled(p: Progress) -> bool {
    &&& forall|i: int|
        0 <= i < p.preparation.remaining.len() ==> (#[trigger] p.preparation.remaining[i] matches
            AreaItem::Glyph(job) ==> job.source == layout::source_of(job.metadata.cache_key))
    &&& forall|k: int|
        0 <= k < p.begun.len() ==> {
            &&& (#[trigger] p.begun[k]).frame == p.preparation.frame
            &&& p.begun[k].job.source == layout::source_of(key_of(p.begun[k]))
        }
    &&& forall|k: int|
        0 <= k < p.ended.len() ==> match #[trigger] p.ended[k] {
            Ending::Resolved { details, color_mode } => p.atlas.cached(key_of(p.begun[k])) == Some(
                details,
            ) && p.atlas.is_used(key_of(p.begun[k])) && color_mode == p.atlas.color_mode,
            Ending::Unwanted => p.atlas.cached(key_of(p.begun[k])) is None
                && p.begun[k].is_unwanted(),
            Ending::NoImage => !p.begun[k].is_unwanted(),
        }
    &&& run::is_pending(p.step) ==> p.atlas.cached(key_of(p.begun.last())) is None
        && !p.begun.last().is_unwanted()
}

/// A glyph that is entered into an atlas that did not hold it changes nothing for the other glyphs.
proof fn lemma_entering_keeps_settled(p: Progress, q: Progress, details: GlyphDetails)
    requires
        p.sound(),
        is_settled(p),
        run::is_pending(p.step),
        may_follow(p.atlas, q.handed),
        q == p.after(
            q.handed,
            q.handed.with_glyph(key_of(p.begun.last()), details),
            q.step,
            Some(run::entered_ending(p.begun.last(), q.handed, details)),
        ),
        !run::is_pending(q.step),
    ensures
        is_settled(q),
{
    let task = p.begun.last();
    let key = key_of(task);
    assert(q.handed.cached(key) is None);
    atlas::entered_glyph_is_found(q.handed, key, details, key);
    atlas::prepared_glyph_is_in_use(q.handed, key, details);
    assert forall|k: int| 0 <= k < q.ended.len() implies match #[trigger] q.ended[k] {
        Ending::Resolved { details, color_mode } => q.atlas.cached(key_of(q.begun[k])) == Some(
            details,
        ) && q.atlas.is_used(key_of(q.begun[k])) && color_mode == q.atlas.color_mode,
        Ending::Unwanted => q.atlas.cached(key_of(q.begun[k])) is None && q.begun[k].is_unwanted(),
        Ending::NoImage => !q.begun[k].is_unwanted(),
    } by {
        if k < p.ended.len() {
            let other = p.begun[k];
            assert(p.ended[k] == q.ended[k]);
            if p.ended[k] is Resolved {
                assert(p.atlas.is_used(key_of(other)));
                assert(q.handed.is_used(key_of(other)));
                assert(q.handed.cached(key_of(other)) == p.atlas.cached(key_of(other)));
            }
            if p.ended[k] is Unwanted {
                assert(q.handed.cached(key_of(other)) is None);
            }
            if key_of(other) != key {
                atlas::entering_keeps_other_glyphs(q.handed, key, details, key_of(other));
            } else {
                assert(other.is_unwanted() == task.is_unwanted());
            }
        }
    }
}

proof fn lemma_next_keeps_settled(p: Progress, q: Progress)
    requires
        p.sound(),
        is_settled(p),
        p.step is NextGlyph,
        q == p.after_next(q.handed),
        may_follow(p.atlas, q.handed),
    ensures
        is_settled(q),
{
    let remaining = p.preparation.remaining;
    if remaining.len() > 0 {
        assert(remaining[0] == p.preparation.remaining[0]);
        if let AreaItem::Glyph(job) = remaining[0] {
            let task = p.preparation.task(job);
            atlas::lookup_keeps_every_glyph(q.handed, key_of(task));
            if let Some(details) = q.handed.cached(key_of(task)) {
                atlas::prepared_glyph_is_in_use(q.handed, key_of(task), details);
            }
            assert forall|k: int| 0 <= k < q.ended.len() implies match #[trigger] q.ended[k] {
                Ending::Resolved { details, color_mode } => q.atlas.cached(key_of(q.begun[k]))
                    == Some(details) && q.atlas.is_used(key_of(q.begun[k])) && color_mode
                    == q.atlas.color_mode,
                Ending::Unwanted => q.atlas.cached(key_of(q.begun[k])) is None
                    && q.begun[k].is_unwanted(),
                Ending::NoImage => !q.begun[k].is_unwanted(),
            } by {
                assert(q.atlas.cached(key_of(q.begun[k])) == q.handed.cached(key_of(q.begun[k])));
                if k < p.ended.len() {
                    assert(p.ended[k] == q.ended[k]);
                    if p.ended[k] is Resolved {
                        assert(p.atlas.is_used(key_of(p.begun[k])));
                        assert(q.handed.is_used(key_of(p.begun[k])));
                        assert(q.atlas.is_used(key_of(p.begun[k])));
                    }
                    if p.ended[k] is Unwanted {
                        assert(q.handed.cached(key_of(p.begun[k])) is None);
                    }
                }
            }
            assert(q.atlas.cached(key_of(task)) == q.handed.cached(key_of(task)));
        }
    }
}

proof fn lemma_move_keeps_settled(p: Progress, q: Progress)
    requires
        p.sound(),
        is_settled(p),
        p.moves_to(q),
        may_follow(p.atlas, q.handed),
    ensures
        is_settled(q),
{
    match p.step {
        Step::NextArea => {
            let area = choose|area: Option<TextArea>| q == #[trigger] p.after_area(q.handed, area);
            if let Some(area) = area {
                assert forall|i: int| 0 <= i < q.preparation.remaining.len() implies (
                #[trigger] q.preparation.remaining[i] matches AreaItem::Glyph(job) ==> job.source
                    == layout::source_of(job.metadata.cache_key)) by {
                    layout::key_determines_image(area, i);
                }
            }
        },
        Step::NextGlyph => {
            lemma_next_keeps_settled(p, q);
        },
        Step::RasterizeText(step) => {
            let image = choose|image: Option<SwashImage>|
                {
                    &&& #[trigger] step.takes_image(image, q.handed, q.step, q.atlas)
                    &&& q == p.after(
                        q.handed,
                        q.atlas,
                        q.step,
                        run::text_ending(step, image, q.handed),
                    )
                };
            if let Some(image) = image {
                let details = step.textureless_details(image);
                if details.width == 0 || details.height == 0 {
                    lemma_entering_keeps_settled(p, q, details);
                }
            }
        },
        Step::RasterizeCustom(step) => {
            let output = choose|output: Option<RasterizedCustomGlyph>|
                {
                    &&& #[trigger] step.takes_image(output, q.handed, q.step, q.atlas)
                    &&& q == p.after(
                        q.handed,
                        q.atlas,
                        q.step,
                        run::custom_ending(step, output, q.handed),
                    )
                };
            if output is Some && (step.request.width == 0 || step.request.height == 0) {
                lemma_entering_keeps_settled(p, q, step.textureless_details());
            }
        },
        Step::WriteTexture(step) => {
            lemma_entering_keeps_settled(p, q, step.details);
        },
        _ => {},
    }
}

/// A preparation between whose steps no glyph in use is dropped is settled after any number of
/// steps.
proof fn lemma_steady_is_settled(trace: Seq<Progress>)
    requires
        run::is_run(trace),
        is_steady(trace),
    ensures
        is_settled(trace.last()),
    decreases trace.len(),
{
    if trace.len() > 1 {
        let n = trace.len() - 1;
        let before = trace.take(n);
        run::lemma_run_prefix(trace, n);
        assert forall|i: int| 0 <= i < before.len() - 1 implies #[trigger] keeps_at(before, i) by {
            assert(keeps_at(trace, i));
        }
        lemma_steady_is_settled(before);
        run::every_preparation_is_sound(before);
        assert(run::moves_at(trace, n - 1));
        assert(keeps_at(trace, n - 1));
        lemma_move_keeps_settled(trace[n - 1], trace[n]);
    }
}

/// Whether what was done up to one place of a preparation is the beginning of what was done up to
/// another.
pub open spec fn is_earlier(p: Progress, q: Progress) -> bool {
    &&& p.areas.is_prefix_of(q.areas)
    &&& p.begun.is_prefix_of(q.begun)
    &&& p.ended.is_prefix_of(q.ended)
}

/// Nothing that was done is undone.
pub proof fn preparation_undoes_nothing(trace: Seq<Progress>, i: int, j: int)
    requires
        run::is_run(trace),
        0 <= i <= j < trace.len(),
    ensures
        is_earlier(trace[i], trace[j]),
    decreases j - i,
{
    if i < j {
        preparation_undoes_nothing(trace, i, j - 1);
        assert(run::moves_at(trace, j - 1));
        assert(is_earlier(trace[j - 1], trace[j]));
    }
}

proof fn lemma_asking_begins_a_glyph(p: Progress, q: Progress)
    requires
        p.moves_to(q),
        run::asks_for_image(q.step),
    ensures
        q.begun.len() == p.begun.len() + 1,
{
}

/// As long as no glyph in use is dropped from the atlas, the image of a glyph is asked for once: it
/// is asked for again, for another glyph with the same key, only where there was none before.
pub proof fn image_is_asked_for_once(trace: Seq<Progress>, i: int, j: int)
    requires
        run::is_run(trace),
        is_steady(trace),
        0 <= i < j < trace.len(),
        run::asks_for_image(trace[i].step),
        run::asks_for_image(trace[j].step),
        key_of(run::task_of(trace[i].step).unwrap()) == key_of(
            run::task_of(trace[j].step).unwrap(),
        ),
    ensures
        trace[i].begun.len() <= trace[j].ended.len(),
        trace[j].ended[trace[i].begun.len() - 1] is NoImage,
{
    let k = trace[i].begun.len() - 1;
    run::lemma_run_prefix(trace, i + 1);
    run::lemma_run_prefix(trace, j + 1);
    run::every_preparation_is_sound(trace.take(i + 1));
    run::every_preparation_is_sound(trace.take(j + 1));
    assert forall|n: int| 0 <= n < j implies #[trigger] keeps_at(trace.take(j + 1), n) by {
        assert(keeps_at(trace, n));
    }
    lemma_steady_is_settled(trace.take(j + 1));
    preparation_undoes_nothing(trace, i, j - 1);
    preparation_undoes_nothing(trace, i, j);
    assert(run::moves_at(trace, j - 1));
    lemma_asking_begins_a_glyph(trace[j - 1], trace[j]);
    assert(trace[i].begun[k] == trace[j].begun[k]);
    assert(k < trace[j].ended.len());
    assert(trace[j].begun[k].is_unwanted() == trace[j].begun.last().is_unwanted()) by {
        assert(trace[j].begun[k].frame == trace[j].begun.last().frame);
    }
    assert(!(trace[j].ended[k] is Resolved));
}

proof fn lemma_tasks_of_prefix(frame: Frame, areas: Seq<TextArea>, longer: Seq<TextArea>)
    requires
        areas.is_prefix_of(longer),
    ensures
        run::all_tasks(frame, areas).is_prefix_of(run::all_tasks(frame, longer)),
    decreases longer.len(),
{
    if areas.len() == longer.len() {
        assert(areas =~= longer);
    } else {
        assert(areas.is_prefix_of(longer.drop_last()));
        lemma_tasks_of_prefix(frame, areas, longer.drop_last());
    }
}

/// Whether a preparation repeats one that has finished: the atlas still holds the glyphs that were
/// in use then and drops none, and what is prepared of the text areas is what was prepared then, as
/// far as it goes.
pub open spec fn is_repetition(first: Seq<Progress>, second: Seq<Progress>) -> bool {
    &&& run::is_run(first) && is_steady(first)
    &&& run::is_run(second) && drops_nothing(second)
    &&& first.last().step is Finished
    &&& first.last().atlas.is_kept_but_for_unused_in(second[0].atlas)
    &&& run::all_tasks(second[0].preparation.frame, second.last().areas).is_prefix_of(
        run::all_tasks(first[0].preparation.frame, first.last().areas),
    )
}

/// Whether every image that was asked for was there.
pub open spec fn has_every_image(end: Progress) -> bool {
    forall|k: int| 0 <= k < end.ended.len() ==> !(#[trigger] end.ended[k] is NoImage)
}

/// Whether every image of a custom glyph that was asked for was there.
pub open spec fn has_every_custom_image(end: Progress) -> bool {
    forall|k: int|
        0 <= k < end.ended.len() ==> (#[trigger] end.ended[k] is NoImage ==> end.begun[k].job.source
            is Text)
}

/// Whether there was no image of the glyph that was begun last.
pub open spec fn has_no_image(p: Progress, q: Progress) -> bool {
    q.ended == p.ended.push(Ending::NoImage)
}

/// Whether a request for the image of a glyph of a font, if there is one at a place of a
/// preparation, is answered by an image just where `fonts` have one for the key.
pub open spec fn fonts_answer_at(
    trace: Seq<Progress>,
    i: int,
    fonts: spec_fn(GlyphonCacheKey) -> bool,
) -> bool {
    trace[i].step matches Step::RasterizeText(asked) ==> (has_no_image(trace[i], trace[i + 1])
        <==> !fonts(key_of(asked.task)))
}

/// Whether the requests for images of glyphs of fonts are answered by images just where `fonts`
/// have them for the keys.
pub open spec fn fonts_answer(
    trace: Seq<Progress>,
    fonts: spec_fn(GlyphonCacheKey) -> bool,
) -> bool {
    forall|i: int| 0 <= i < trace.len() - 1 ==> #[trigger] fonts_answer_at(trace, i, fonts)
}

/// Whether `fonts` have an image of each glyph of a font whose image is to be stored, and none of
/// each that ended without one, which the atlas does not hold then.
spec fn is_answered(p: Progress, fonts: spec_fn(GlyphonCacheKey) -> bool) -> bool {
    &&& forall|k: int|
        0 <= k < p.ended.len() ==> (#[trigger] p.ended[k] is NoImage && p.begun[k].job.source
            is Text ==> !fonts(key_of(p.begun[k])) && p.atlas.cached(key_of(p.begun[k])) is None)
    &&& p.step is Allocate || p.step is Grow || p.step is WriteTexture ==> (
    p.begun.last().job.source is Text ==> fonts(key_of(p.begun.last())))
    &&& p.step is RasterizeCustom ==> p.begun.last().job.source is Custom
}

proof fn lemma_entering_keeps_answered(
    p: Progress,
    q: Progress,
    fonts: spec_fn(GlyphonCacheKey) -> bool,
    details: GlyphDetails,
)
    requires
        p.sound(),
        is_settled(p),
        is_answered(p, fonts),
        run::is_pending(p.step),
        may_follow(p.atlas, q.handed),
        p.begun.last().job.source is Text ==> fonts(key_of(p.begun.last())),
        q == p.after(
            q.handed,
            q.handed.with_glyph(key_of(p.begun.last()), details),
            q.step,
            Some(run::entered_ending(p.begun.last(), q.handed, details)),
        ),
        !run::is_pending(q.step),
    ensures
        is_answered(q, fonts),
{
    let key = key_of(p.begun.last());
    assert forall|k: int|
        0 <= k < q.ended.len() && #[trigger] q.ended[k] is NoImage && q.begun[k].job.source
            is Text implies !fonts(key_of(q.begun[k])) && q.atlas.cached(key_of(q.begun[k]))
        is None by {
        assert(p.ended[k] == q.ended[k]);
        let other = key_of(p.begun[k]);
        assert(p.begun[k].job.source == layout::source_of(other));
        assert(q.handed.cached(other) == p.atlas.cached(other));
        assert(other != key);
        atlas::entering_keeps_other_glyphs(q.handed, key, details, other);
    }
}

proof fn lemma_move_keeps_answered(
    p: Progress,
    q: Progress,
    fonts: spec_fn(GlyphonCacheKey) -> bool,
)
    requires
        p.sound(),
        is_settled(p),
        is_answered(p, fonts),
        p.moves_to(q),
        may_follow(p.atlas, q.handed),
        p.step matches Step::RasterizeText(asked) ==> (has_no_image(p, q) <==> !fonts(
            key_of(asked.task),
        )),
    ensures
        is_answered(q, fonts),
{
    assert forall|k: int|
        0 <= k < p.ended.len() && #[trigger] p.ended[k] is NoImage && p.begun[k].job.source
            is Text implies q.handed.cached(key_of(p.begun[k])) is None by {
        assert(q.handed.cached(key_of(p.begun[k])) == p.atlas.cached(key_of(p.begun[k])));
    }
    match p.step {
        Step::NextGlyph => {
            if p.preparation.remaining.len() > 0 {
                if let AreaItem::Glyph(job) = p.preparation.remaining[0] {
                    let task = p.preparation.task(job);
                    atlas::lookup_keeps_every_glyph(q.handed, key_of(task));
                    assert forall|k: int|
                        0 <= k < q.ended.len() && #[trigger] q.ended[k] is NoImage
                            && q.begun[k].job.source is Text implies !fonts(key_of(q.begun[k]))
                        && q.atlas.cached(key_of(q.begun[k])) is None by {
                        assert(p.ended[k] == q.ended[k]);
                        assert(q.begun[k] == p.begun[k]);
                        assert(q.atlas.cached(key_of(q.begun[k])) == q.handed.cached(
                            key_of(q.begun[k]),
                        ));
                    }
                }
            }
        },
        Step::RasterizeText(step) => {
            let image = choose|image: Option<SwashImage>|
                {
                    &&& #[trigger] step.takes_image(image, q.handed, q.step, q.atlas)
                    &&& q == p.after(
                        q.handed,
                        q.atlas,
                        q.step,
                        run::text_ending(step, image, q.handed),
                    )
                };
            assert(q.handed.cached(key_of(step.task)) == p.atlas.cached(key_of(step.task)));
            if let Some(image) = image {
                let details = step.textureless_details(image);
                if details.width == 0 || details.height == 0 {
                    assert(q.ended.last() is Resolved);
                    lemma_entering_keeps_answered(p, q, fonts, details);
                } else {
                    assert(q.ended.len() == p.ended.len());
                }
            }
        },
        Step::RasterizeCustom(step) => {
            let output = choose|output: Option<RasterizedCustomGlyph>|
                {
                    &&& #[trigger] step.takes_image(output, q.handed, q.step, q.atlas)
                    &&& q == p.after(
                        q.handed,
                        q.atlas,
                        q.step,
                        run::custom_ending(step, output, q.handed),
                    )
                };
            if output is Some && (step.request.width == 0 || step.request.height == 0) {
                lemma_entering_keeps_answered(p, q, fonts, step.textureless_details());
            }
        },
        Step::WriteTexture(step) => {
            lemma_entering_keeps_answered(p, q, fonts, step.details);
        },
        _ => {},
    }
}

proof fn lemma_run_is_answered(trace: Seq<Progress>, fonts: spec_fn(GlyphonCacheKey) -> bool)
    requires
        run::is_run(trace),
        is_steady(trace),
        fonts_answer(trace, fonts),
    ensures
        is_answered(trace.last(), fonts),
    decreases trace.len(),
{
    if trace.len() > 1 {
        let n = trace.len() - 1;
        let before = trace.take(n);
        run::lemma_run_prefix(trace, n);
        assert forall|i: int| 0 <= i < before.len() - 1 implies #[trigger] keeps_at(before, i) by {
            assert(keeps_at(trace, i));
        }
        assert forall|i: int| 0 <= i < before.len() - 1 implies #[trigger] fonts_answer_at(
            before,
            i,
            fonts,
        ) by {
            assert(fonts_answer_at(trace, i, fonts));
        }
        lemma_run_is_answered(before, fonts);
        lemma_steady_is_settled(before);
        run::every_preparation_is_sound(before);
        assert(run::moves_at(trace, n - 1));
        assert(keeps_at(trace, n - 1));
        assert(fonts_answer_at(trace, n - 1, fonts));
        lemma_move_keeps_answered(trace[n - 1], trace[n], fonts);
    }
}

/// Whether a place of the second preparation goes through what the first has gone through, without
/// anything left to be asked for but depths and corners, and images of glyphs of fonts of which
/// there was none.
spec fn follows(end: Progress, p: Progress, fonts: spec_fn(GlyphonCacheKey) -> bool) -> bool {
    &&& end.atlas.is_kept_but_for_unused_in(p.atlas)
    &&& p.begun.is_prefix_of(end.begun)
    &&& p.ended.is_prefix_of(end.ended)
    &&& p.step matches Step::RasterizeText(asked) ==> end.ended[p.begun.len() - 1] is NoImage
        && !fonts(key_of(asked.task))
    &&& !(p.step is RasterizeText) ==> !run::is_pending(p.step)
    &&& !(p.step is Failed) && !(p.step is Overflow)
}

/// The next glyph of a repetition ends as it did the first time, or its image is asked for once
/// more where there was none.
proof fn lemma_begun_again_follows(
    end: Progress,
    p: Progress,
    q: Progress,
    fonts: spec_fn(GlyphonCacheKey) -> bool,
    task: GlyphTask,
)
    requires
        follows(end, p, fonts),
        p.sound(),
        p.step is NextGlyph,
        p.preparation.remaining.len() > 0,
        p.preparation.remaining[0] matches AreaItem::Glyph(job) && task == p.preparation.task(job),
        q == p.after_next(q.handed),
        p.atlas.is_kept_in(q.handed),
        end.sound(),
        end.step is Finished,
        is_settled(end),
        is_answered(end, fonts),
        has_every_custom_image(end),
        p.begun.len() < end.begun.len(),
        end.begun[p.begun.len() as int] == task,
    ensures
        follows(end, q, fonts),
{
    let k = p.begun.len() as int;
    let key = key_of(task);
    atlas::lookup_keeps_every_glyph(q.handed, key);
    assert(q.handed.cached(key) == p.atlas.cached(key));
    assert(p.atlas.cached(key) == end.atlas.cached(key));
    assert(task.job.source == layout::source_of(key));
    if end.ended[k] is NoImage {
        assert(task.job.source is Text);
        assert(q.handed.cached(key) is None);
    } else {
        assert(q.ended =~= p.ended.push(end.ended[k]));
    }
    assert forall|other: GlyphonCacheKey|
        end.atlas.is_used(other) || end.atlas.cached(other) is None implies
        #[trigger] q.atlas.cached(other) == end.atlas.cached(other) by {
        assert(q.atlas.cached(other) == q.handed.cached(other));
        assert(q.handed.cached(other) == p.atlas.cached(other));
    }
}

/// Whether a request for an image of a glyph of a font that `fonts` do not have, if there is one at
/// a place of a preparation, is answered by none.
spec fn fonts_miss_at(
    trace: Seq<Progress>,
    i: int,
    fonts: spec_fn(GlyphonCacheKey) -> bool,
) -> bool {
    trace[i].step matches Step::RasterizeText(asked) ==> !fonts(key_of(asked.task))
        ==> has_no_image(trace[i], trace[i + 1])
}

proof fn lemma_repetition_follows(
    first: Seq<Progress>,
    second: Seq<Progress>,
    fonts: spec_fn(GlyphonCacheKey) -> bool,
    i: int,
)
    requires
        is_repetition(first, second),
        has_every_custom_image(first.last()),
        fonts_answer(first, fonts),
        forall|j: int| 0 <= j < second.len() - 1 ==> #[trigger] fonts_miss_at(second, j, fonts),
        0 <= i < second.len(),
    ensures
        follows(first.last(), second[i], fonts),
    decreases i,
{
    let end = first.last();
    if i > 0 {
        let p = second[i - 1];
        let q = second[i];
        lemma_repetition_follows(first, second, fonts, i - 1);
        assert(run::moves_at(second, i - 1));
        assert(drops_nothing_at(second, i - 1));
        assert(fonts_miss_at(second, i - 1, fonts));
        run::lemma_run_prefix(second, i);
        run::every_preparation_is_sound(second.take(i));
        if p.step is NextGlyph && p.preparation.remaining.len() > 0 {
            lemma_next_task_is_repeated(first, second, i - 1);
            run::every_preparation_is_sound(first);
            lemma_steady_is_settled(first);
            lemma_run_is_answered(first, fonts);
            let task = end.begun[p.begun.len() as int];
            lemma_begun_again_follows(end, p, q, fonts, task);
        } else {
            if p.step is RasterizeText {
                lemma_missing_image_is_passed_over(p, q);
            }
            assert(q.atlas == q.handed);
            assert forall|key: GlyphonCacheKey|
                end.atlas.is_used(key) || end.atlas.cached(key) is None implies
                #[trigger] q.atlas.cached(key) == end.atlas.cached(key) by {
                assert(q.handed.cached(key) == p.atlas.cached(key));
            }
            run::every_preparation_is_sound(first);
        }
    }
}

proof fn lemma_missing_image_is_passed_over(p: Progress, q: Progress)
    requires
        p.moves_to(q),
        p.step is RasterizeText,
        has_no_image(p, q),
    ensures
        q.step is NextGlyph,
        q.atlas == q.handed,
        q.begun == p.begun,
{
    assert(q.ended.last() is NoImage);
    assert(q.ended.len() == p.ended.len() + 1);
}

/// The next glyph of a repetition is the one that was begun there the first time.
proof fn lemma_next_task_is_repeated(first: Seq<Progress>, second: Seq<Progress>, i: int)
    requires
        is_repetition(first, second),
        0 <= i < second.len(),
        second[i].preparation.remaining.len() > 0,
        second[i].begun.is_prefix_of(first.last().begun),
    ensures
        second[i].begun.len() < first.last().begun.len(),
        second[i].preparation.remaining[0] matches AreaItem::Glyph(job)
            && first.last().begun[second[i].begun.len() as int] == second[i].preparation.task(job),
{
    let end = first.last();
    let p = second[i];
    let k = p.begun.len() as int;
    run::lemma_run_prefix(second, i + 1);
    run::every_preparation_is_sound(second.take(i + 1));
    run::finished_preparation_draws_every_visible_glyph(first);
    preparation_undoes_nothing(second, i, second.len() - 1);
    lemma_tasks_of_prefix(p.preparation.frame, p.areas, second.last().areas);
    assert(p.rest().len() == p.preparation.remaining.len());
    assert(run::all_tasks(p.preparation.frame, p.areas)[k] == p.rest()[0]);
    assert(run::as_items(end.begun)[k] == p.rest()[0]);
}

proof fn lemma_finished_has_as_many(trace: Seq<Progress>)
    requires
        run::is_run(trace),
        trace.last().step is Finished,
    ensures
        trace.last().begun.len() == run::all_tasks(
            trace[0].preparation.frame,
            trace.last().areas,
        ).len(),
        trace.last().ended.len() == trace.last().begun.len(),
{
    run::finished_preparation_draws_every_visible_glyph(trace);
    assert(run::as_items(trace.last().begun).len() == trace.last().begun.len());
}

proof fn lemma_same_glyphs_same_renderer(p: Progress, q: Progress)
    requires
        p.sound(),
        q.sound(),
        p.step is Finished,
        q.step is Finished,
        p.begun == q.begun,
        p.ended == q.ended,
    ensures
        p.drawn() == q.drawn(),
        p.renderer.indices == q.renderer.indices,
        p.clips == q.clips ==> p.renderer.vertices == q.renderer.vertices,
{
    assert(p.renderer.indices =~= q.renderer.indices);
    if p.clips == q.clips {
        assert forall|i: int| 0 <= i < p.renderer.vertices.len() implies q.renderer.vertices[i]
            == #[trigger] p.renderer.vertices[i] by {
            let a = q.renderer.vertices[i];
            let b = p.renderer.vertices[i];
            assert(a.is_vertex_of(p.drawn()[i / 4], p.clips[i / 4][i % 4], i % 4));
            assert(a.pos =~= b.pos);
            assert(a.dim =~= b.dim);
            assert(a.uv =~= b.uv);
            assert(a.content_type_with_srgb =~= b.content_type_with_srgb);
        }
        assert(p.renderer.vertices =~= q.renderer.vertices);
    }
}

/// What is drawn by a repetition that finishes is what was drawn the first time.
proof fn lemma_repetition_draws_the_same(
    first: Seq<Progress>,
    second: Seq<Progress>,
    fonts: spec_fn(GlyphonCacheKey) -> bool,
)
    requires
        is_repetition(first, second),
        follows(first.last(), second.last(), fonts),
        second.last().step is Finished,
        run::all_tasks(second[0].preparation.frame, second.last().areas) == run::all_tasks(
            first[0].preparation.frame,
            first.last().areas,
        ),
    ensures
        draws_the_same(first.last(), second.last()),
{
    let end = first.last();
    let again = second.last();
    lemma_finished_has_as_many(first);
    lemma_finished_has_as_many(second);
    assert(again.begun =~= end.begun);
    assert(again.ended =~= end.ended);
    run::every_preparation_is_sound(first);
    run::every_preparation_is_sound(second);
    lemma_same_glyphs_same_renderer(again, end);
}

/// Whether the same glyphs were prepared, ended in the same way and are drawn at the same places
/// with the same indices, and, where their corners lie at the same clip space coordinates, with the
/// same vertices.
pub open spec fn draws_the_same(end: Progress, again: Progress) -> bool {
    &&& again.begun == end.begun
    &&& again.ended == end.ended
    &&& again.drawn() == end.drawn()
    &&& again.renderer.indices == end.renderer.indices
    &&& again.clips == end.clips ==> again.renderer.vertices == end.renderer.vertices
}

/// Text that is prepared again is prepared without asking for any image, and cannot fail, where
/// every image was there the first time and the atlas still holds what was in use then. Once it has
/// finished, it draws the same.
pub proof fn repeated_preparation_asks_for_no_image(first: Seq<Progress>, second: Seq<Progress>)
    requires
        is_repetition(first, second),
        has_every_image(first.last()),
    ensures
        forall|i: int|
            0 <= i < second.len() ==> {
                &&& !run::is_pending((#[trigger] second[i]).step)
                &&& !(second[i].step is Failed)
                &&& !(second[i].step is Overflow)
            },
        second.last().step is Finished && run::all_tasks(
            second[0].preparation.frame,
            second.last().areas,
        ) == run::all_tasks(first[0].preparation.frame, first.last().areas) ==> draws_the_same(
            first.last(),
            second.last(),
        ),
{
    let fonts = |key: GlyphonCacheKey| true;
    assert forall|i: int| 0 <= i < first.len() - 1 implies #[trigger] fonts_answer_at(
        first,
        i,
        fonts,
    ) by {
        preparation_undoes_nothing(first, i + 1, first.len() - 1);
        if has_no_image(first[i], first[i + 1]) {
            let k = first[i].ended.len() as int;
            assert(first[i + 1].ended[k] is NoImage);
            assert(first.last().ended[k] is NoImage);
        }
    }
    assert forall|i: int| 0 <= i < second.len() implies {
        &&& !run::is_pending((#[trigger] second[i]).step)
        &&& !(second[i].step is Failed)
        &&& !(second[i].step is Overflow)
    } by {
        lemma_repetition_follows(first, second, fonts, i);
    }
    lemma_repetition_follows(first, second, fonts, second.len() - 1);
    if second.last().step is Finished && run::all_tasks(
        second[0].preparation.frame,
        second.last().areas,
    ) == run::all_tasks(first[0].preparation.frame, first.last().areas) {
        lemma_repetition_draws_the_same(first, second, fonts);
    }
}

/// Text that is prepared again is prepared without asking for any image of a custom glyph, and
/// cannot fail, where every such image was there the first time, the fonts have the same images
/// both times, and the atlas still holds what was in use then. Of glyphs of fonts only such images
/// are asked for again as the fonts do not have. Once it has finished, it draws the same.
pub proof fn repeated_preparation_asks_only_for_missing_images(
    first: Seq<Progress>,
    second: Seq<Progress>,
    fonts: spec_fn(GlyphonCacheKey) -> bool,
)
    requires
        is_repetition(first, second),
        has_every_custom_image(first.last()),
        fonts_answer(first, fonts),
        fonts_answer(second, fonts),
    ensures
        forall|i: int|
            0 <= i < second.len() ==> {
                &&& (#[trigger] second[i]).step matches Step::RasterizeText(asked) ==> !fonts(
                    key_of(asked.task),
                )
                &&& !(second[i].step is RasterizeCustom)
                &&& !(second[i].step is Allocate) && !(second[i].step is Grow)
                &&& !(second[i].step is WriteTexture)
                &&& !(second[i].step is Failed) && !(second[i].step is Overflow)
            },
        second.last().step is Finished && run::all_tasks(
            second[0].preparation.frame,
            second.last().areas,
        ) == run::all_tasks(first[0].preparation.frame, first.last().areas) ==> draws_the_same(
            first.last(),
            second.last(),
        ),
{
    assert forall|j: int| 0 <= j < second.len() - 1 implies #[trigger] fonts_miss_at(
        second,
        j,
        fonts,
    ) by {
        assert(fonts_answer_at(second, j, fonts));
    }
    assert forall|i: int| 0 <= i < second.len() implies {
        &&& (#[trigger] second[i]).step matches Step::RasterizeText(asked) ==> !fonts(
            key_of(asked.task),
        )
        &&& !(second[i].step is RasterizeCustom)
        &&& !(second[i].step is Allocate) && !(second[i].step is Grow)
        &&& !(second[i].step is WriteTexture)
        &&& !(second[i].step is Failed) && !(second[i].step is Overflow)
    } by {
        lemma_repetition_follows(first, second, fonts, i);
    }
    lemma_repetition_follows(first, second, fonts, second.len() - 1);
    if second.last().step is Finished && run::all_tasks(
        second[0].preparation.frame,
        second.last().areas,
    ) == run::all_tasks(first[0].preparation.frame, first.last().areas) {
        lemma_repetition_draws_the_same(first, second, fonts);
    }
}

} // verus!
