//! What holds of a whole preparation, whatever comes of the things that its steps ask for.
use vstd::prelude::*;
use crate::atlas::{ColorMode, GlyphDetails, GpuCacheStatus, TextAtlasView};
use crate::image::{ContentType, RasterizedCustomGlyph, SwashImage};
use crate::layout::{AreaItem, TextArea};
use crate::prepare;
use crate::prepare::{
    AllocateStep, Allocation, DepthStep, Frame, GlyphTask, GrowStep, PlacedGlyph, Placement,
    PreparationView, RasterizeCustomStep, RasterizeTextStep, Step, TransformStep, WriteTextureStep,
};
use crate::text_render::TextRendererView;

verus! {

/// What became of a glyph that was begun.
pub enum Ending {
    /// The caches hold the glyph with these details, and it was placed with them.
    Resolved { details: GlyphDetails, color_mode: ColorMode },
    /// A custom glyph without pixels or without a rasterizer: no image of it is asked for.
    Unwanted,
    /// There is no image of the glyph.
    NoImage,
}

/// How far a preparation has come.
pub struct Progress {
    pub preparation: PreparationView,
    /// The atlas that was handed over for the last step that was done.
    pub handed: TextAtlasView,
    /// The atlas as that step left it.
    pub atlas: TextAtlasView,
    pub renderer: TextRendererView,
    /// What is to be done next.
    pub step: Step,
    /// The text areas that were taken, in order.
    pub areas: Seq<TextArea>,
    /// The glyphs that were begun, in order.
    pub begun: Seq<GlyphTask>,
    /// What became of the glyphs that were begun, in order. It is open of the last one as long as
    /// its image is on its way.
    pub ended: Seq<Ending>,
    /// The clip space coordinates of the corners of the glyphs that were drawn, in order.
    pub clips: Seq<[[u32; 4]; 4]>,
}

/// What is prepared of a text area.
pub enum TaskItem {
    Glyph(GlyphTask),
    /// The bottom of a line is no `i32`.
    Overflow,
}

/// What is prepared of a text area, for some of its items.
pub open spec fn tasks_of(frame: Frame, area: TextArea, items: Seq<AreaItem>) -> Seq<TaskItem> {
    items.map_values(
        |item: AreaItem|
            match item {
                AreaItem::Glyph(job) => TaskItem::Glyph(prepare::task_in(frame, area, job)),
                AreaItem::Overflow => TaskItem::Overflow,
            },
    )
}

/// All that is prepared of some text areas, in order.
pub open spec fn all_tasks(frame: Frame, areas: Seq<TextArea>) -> Seq<TaskItem>
    decreases areas.len(),
{
    if areas.len() == 0 {
        Seq::empty()
    } else {
        all_tasks(frame, areas.drop_last()) + tasks_of(frame, areas.last(), areas.last().items())
    }
}

/// Glyphs that are prepared, as items.
pub open spec fn as_items(tasks: Seq<GlyphTask>) -> Seq<TaskItem> {
    tasks.map_values(|task: GlyphTask| TaskItem::Glyph(task))
}

/// Where a glyph is placed, with the details and the colour mode with which it was resolved.
pub open spec fn placement_of(task: GlyphTask, ending: Ending) -> Placement {
    match ending {
        Ending::Resolved { details, color_mode } => prepare::placement(
            task.job.metadata,
            details,
            task.bounds,
            color_mode,
        ),
        _ => Placement::Hidden,
    }
}

/// The glyphs to be drawn among the first `n`, in order: those that are visible where they are
/// placed.
pub open spec fn shown(tasks: Seq<GlyphTask>, ended: Seq<Ending>, n: int) -> Seq<PlacedGlyph>
    decreases n,
{
    if n <= 0 {
        Seq::empty()
    } else {
        match placement_of(tasks[n - 1], ended[n - 1]) {
            Placement::Visible(glyph) => shown(tasks, ended, n - 1).push(glyph),
            _ => shown(tasks, ended, n - 1),
        }
    }
}

/// The glyph that a step is about.
pub open spec fn task_of(step: Step) -> Option<GlyphTask> {
    match step {
        Step::RasterizeText(step) => Some(step.task),
        Step::RasterizeCustom(step) => Some(step.task),
        Step::Allocate(step) => Some(step.task),
        Step::Grow(step) => Some(step.task),
        Step::WriteTexture(step) => Some(step.task),
        Step::Depth(step) => Some(step.task),
        Step::Transform(step) => Some(step.task),
        _ => None,
    }
}

/// Whether a step asks for the image of a glyph.
pub open spec fn asks_for_image(step: Step) -> bool {
    step is RasterizeText || step is RasterizeCustom
}

/// Whether the image of a glyph is on its way.
pub open spec fn is_pending(step: Step) -> bool {
    asks_for_image(step) || step is Allocate || step is Grow || step is WriteTexture
}

/// What becomes of a glyph at once where it is begun with this atlas, if anything does.
pub open spec fn begun_ending(task: GlyphTask, atlas: TextAtlasView) -> Option<Ending> {
    match atlas.cached(task.job.metadata.cache_key) {
        Some(details) => Some(Ending::Resolved { details, color_mode: atlas.color_mode }),
        None => if task.is_unwanted() {
            Some(Ending::Unwanted)
        } else {
            None
        },
    }
}

/// What becomes of a glyph that is entered into this atlas.
pub open spec fn entered_ending(
    task: GlyphTask,
    atlas: TextAtlasView,
    details: GlyphDetails,
) -> Ending {
    Ending::Resolved {
        details: atlas.details_with_glyph(task.job.metadata.cache_key, details),
        color_mode: atlas.color_mode,
    }
}

/// What becomes of a glyph of a font at once where this is its image, if anything does.
pub open spec fn text_ending(
    step: RasterizeTextStep,
    image: Option<SwashImage>,
    atlas: TextAtlasView,
) -> Option<Ending> {
    match image {
        None => Some(Ending::NoImage),
        Some(image) => {
            let details = step.textureless_details(image);
            if details.width > 0 && details.height > 0 {
                None
            } else {
                Some(entered_ending(step.task, atlas, details))
            }
        },
    }
}

/// What becomes of a custom glyph at once where this is its image, if anything does.
pub open spec fn custom_ending(
    step: RasterizeCustomStep,
    output: Option<RasterizedCustomGlyph>,
    atlas: TextAtlasView,
) -> Option<Ending> {
    match output {
        None => Some(Ending::NoImage),
        Some(_) => if step.request.width > 0 && step.request.height > 0 {
            None
        } else {
            Some(entered_ending(step.task, atlas, step.textureless_details()))
        },
    }
}

impl Progress {
    /// Whether nothing has been prepared, and the renderer has no glyphs.
    pub open spec fn is_start(self) -> bool {
        &&& self.preparation == PreparationView::start(self.preparation.frame)
        &&& self.handed == self.atlas
        &&& self.renderer == self.renderer.cleared()
        &&& self.step is NextArea
        &&& self.areas.len() == 0
        &&& self.begun.len() == 0
        &&& self.ended.len() == 0
        &&& self.clips.len() == 0
    }

    /// Once something has been done for the glyph that was begun last: `handed` was handed over,
    /// `atlas` is left, and this became of the glyph, if anything did.
    pub open spec fn after(
        self,
        handed: TextAtlasView,
        atlas: TextAtlasView,
        step: Step,
        ending: Option<Ending>,
    ) -> Progress {
        Progress {
            handed,
            atlas,
            step,
            ended: match ending {
                Some(ending) => self.ended.push(ending),
                None => self.ended,
            },
            ..self
        }
    }

    /// Once the next text area has been taken, `None` where there is none left.
    pub open spec fn after_area(self, handed: TextAtlasView, area: Option<TextArea>) -> Progress {
        Progress {
            preparation: self.preparation.with_area(area),
            areas: match area {
                Some(area) => self.areas.push(area),
                None => self.areas,
            },
            ..self.after(handed, handed, PreparationView::step_with_area(area), None)
        }
    }

    /// Once the preparation has gone on to the next glyph.
    pub open spec fn after_next(self, handed: TextAtlasView) -> Progress {
        let ahead = Progress {
            preparation: self.preparation.advanced(),
            ..self.after(
                handed,
                self.preparation.atlas_advanced(handed),
                self.preparation.step_advanced(handed),
                None,
            )
        };
        if self.preparation.remaining.len() > 0 {
            match self.preparation.remaining[0] {
                AreaItem::Glyph(job) => {
                    let task = self.preparation.task(job);
                    Progress {
                        begun: self.begun.push(task),
                        ended: match begun_ending(task, handed) {
                            Some(ending) => self.ended.push(ending),
                            None => self.ended,
                        },
                        ..ahead
                    }
                },
                AreaItem::Overflow => ahead,
            }
        } else {
            ahead
        }
    }

    /// Once the glyph that was begun last has been drawn, with its corners there.
    pub open spec fn after_drawing(
        self,
        handed: TextAtlasView,
        renderer: TextRendererView,
        clip: [[u32; 4]; 4],
    ) -> Progress {
        Progress {
            renderer,
            clips: self.clips.push(clip),
            ..self.after(handed, handed, Step::NextGlyph, None)
        }
    }

    /// Whether the preparation comes to this by doing its step, for something that came of what the
    /// step asks for. Between two steps the atlas may be exchanged for any other.
    pub open spec fn moves_to(self, next: Progress) -> bool {
        match self.step {
            Step::NextArea => exists|area: Option<TextArea>|
                next == #[trigger] self.after_area(next.handed, area),
            Step::NextGlyph => next == self.after_next(next.handed),
            Step::RasterizeText(step) => exists|image: Option<SwashImage>|
                {
                    &&& #[trigger] step.takes_image(image, next.handed, next.step, next.atlas)
                    &&& next == self.after(
                        next.handed,
                        next.atlas,
                        next.step,
                        text_ending(step, image, next.handed),
                    )
                },
            Step::RasterizeCustom(step) => exists|output: Option<RasterizedCustomGlyph>|
                {
                    &&& #[trigger] step.takes_image(output, next.handed, next.step, next.atlas)
                    &&& next == self.after(
                        next.handed,
                        next.atlas,
                        next.step,
                        custom_ending(step, output, next.handed),
                    )
                },
            Step::Allocate(step) => {
                &&& exists|place: Option<Allocation>|
                    #[trigger] step.takes_place(place, next.handed, next.step)
                &&& next == self.after(next.handed, next.handed, next.step, None)
            },
            Step::Grow(step) => exists|grew: bool|
                next == self.after(next.handed, next.handed, #[trigger] step.after(grew), None),
            Step::WriteTexture(step) => next == self.after(
                next.handed,
                next.handed.with_glyph(step.task.job.metadata.cache_key, step.details),
                step.task.entered(next.handed, step.details),
                Some(entered_ending(step.task, next.handed, step.details)),
            ),
            Step::Depth(step) => exists|depth: u32|
                next == self.after(next.handed, next.handed, #[trigger] step.after(depth), None),
            Step::Transform(step) => exists|clip: [[u32; 4]; 4]|
                {
                    &&& #[trigger] self.renderer.expands_to(step.glyph, clip, next.renderer)
                    &&& next == self.after_drawing(next.handed, next.renderer, clip)
                },
            Step::Finished | Step::Failed(_) | Step::Overflow => false,
        }
    }

    /// What is left to be prepared of the last text area.
    pub open spec fn rest(self) -> Seq<TaskItem> {
        match self.preparation.area {
            Some(area) => tasks_of(self.preparation.frame, area, self.preparation.remaining),
            None => Seq::empty(),
        }
    }

    /// The glyphs that have been drawn: the visible ones of those that have ended, but for the
    /// last one where it is still to be drawn.
    pub open spec fn drawn(self) -> Seq<PlacedGlyph> {
        shown(
            self.begun,
            self.ended,
            if self.step is Depth || self.step is Transform {
                self.ended.len() - 1
            } else {
                self.ended.len() as int
            },
        )
    }

    /// What holds of every preparation.
    pub open spec fn sound(self) -> bool {
        // Everything in the areas has been begun or is left, in order.
        &&& all_tasks(self.preparation.frame, self.areas) == as_items(self.begun) + self.rest()
        &&& self.step is NextArea || self.step is Finished ==> self.preparation.remaining.len() == 0
        &&& self.preparation.remaining.len() > 0 ==> self.preparation.area is Some
        // Every glyph that was begun has ended, but for the last one where its image is on its way.
        &&& self.ended.len() == self.begun.len() - if is_pending(self.step) || self.step is Failed {
            1int
        } else {
            0int
        }
        // A step that is about a glyph is about the one that was begun last.
        &&& task_of(self.step) matches Some(task) ==> {
            &&& self.begun.len() > 0
            &&& task == self.begun.last()
        }
        // A glyph that is about to be drawn is the visible part of the one that was begun last.
        &&& self.step matches Step::Depth(step) ==> placement_of(
            self.begun.last(),
            self.ended.last(),
        ) == Placement::Visible(step.glyph)
        &&& self.step matches Step::Transform(step) ==> placement_of(
            self.begun.last(),
            self.ended.last(),
        ) == Placement::Visible(step.glyph)
        // No glyph has left the range of its coordinates.
        &&& !(self.step is Overflow) ==> forall|k: int|
            0 <= k < self.ended.len() ==> !(placement_of(
                self.begun[k],
                #[trigger] self.ended[k],
            ) is Overflow)
        // The vertices are those of the glyphs that have been drawn, four by four.
        &&& self.renderer.wf()
        &&& self.clips.len() == self.drawn().len()
        &&& self.renderer.vertices.len() == 4 * self.clips.len()
        &&& forall|i: int|
            0 <= i < self.renderer.vertices.len() ==> (
            #[trigger] self.renderer.vertices[i]).is_vertex_of(
                self.drawn()[i / 4],
                self.clips[i / 4][i % 4],
                i % 4,
            )
    }
}

/// What is shown of the first `n` glyphs does not depend on the glyphs behind them.
proof fn lemma_shown_of_prefix(
    tasks: Seq<GlyphTask>,
    ended: Seq<Ending>,
    longer_tasks: Seq<GlyphTask>,
    longer_ended: Seq<Ending>,
    n: int,
)
    requires
        n <= tasks.len() <= longer_tasks.len(),
        n <= ended.len() <= longer_ended.len(),
        forall|k: int| 0 <= k < n ==> #[trigger] tasks[k] == longer_tasks[k],
        forall|k: int| 0 <= k < n ==> #[trigger] ended[k] == longer_ended[k],
    ensures
        shown(tasks, ended, n) == shown(longer_tasks, longer_ended, n),
    decreases n,
{
    if n > 0 {
        lemma_shown_of_prefix(tasks, ended, longer_tasks, longer_ended, n - 1);
        assert(tasks[n - 1] == longer_tasks[n - 1]);
        assert(ended[n - 1] == longer_ended[n - 1]);
    }
}

/// A glyph that ends without being on its way to be drawn leaves the glyphs that have been drawn as
/// they are.
proof fn lemma_ending_keeps_drawn(p: Progress, q: Progress, ending: Ending)
    requires
        p.sound(),
        !(p.step is Depth) && !(p.step is Transform),
        q.ended == p.ended.push(ending),
        q.begun.len() == p.ended.len() + 1,
        forall|k: int| 0 <= k < p.ended.len() ==> #[trigger] q.begun[k] == p.begun[k],
        q.step is Depth || q.step is Transform || !(placement_of(q.begun.last(), ending)
            is Visible),
    ensures
        q.drawn() == p.drawn(),
{
    let n = p.ended.len() as int;
    assert forall|k: int| 0 <= k < n implies #[trigger] p.begun[k] == q.begun[k] by {
        assert(q.begun[k] == p.begun[k]);
    }
    lemma_shown_of_prefix(p.begun, p.ended, q.begun, q.ended, n);
}

/// A glyph whose details become known is resolved with them.
proof fn lemma_resolving_keeps_sound(
    p: Progress,
    q: Progress,
    details: GlyphDetails,
    color_mode: ColorMode,
)
    requires
        p.sound(),
        is_pending(p.step),
        q == p.after(
            q.handed,
            q.atlas,
            p.begun.last().resolved(details, color_mode),
            Some(Ending::Resolved { details, color_mode }),
        ),
    ensures
        q.sound(),
{
    lemma_ending_keeps_drawn(p, q, Ending::Resolved { details, color_mode });
}

proof fn lemma_next_keeps_sound(p: Progress, q: Progress)
    requires
        p.sound(),
        p.step is NextGlyph,
        q == p.after_next(q.handed),
    ensures
        q.sound(),
{
    let remaining = p.preparation.remaining;
    if remaining.len() > 0 {
        if let AreaItem::Glyph(job) = remaining[0] {
            let task = p.preparation.task(job);
            assert(as_items(q.begun) + q.rest() =~= as_items(p.begun) + p.rest());
            match begun_ending(task, q.handed) {
                Some(ending) => {
                    lemma_ending_keeps_drawn(p, q, ending);
                },
                None => {
                    lemma_shown_of_prefix(
                        p.begun,
                        p.ended,
                        q.begun,
                        q.ended,
                        p.ended.len() as int,
                    );
                },
            }
        }
    }
}

proof fn lemma_drawing_keeps_sound(
    p: Progress,
    step: TransformStep,
    q: Progress,
    clip: [[u32; 4]; 4],
)
    requires
        p.sound(),
        p.step == Step::Transform(step),
        p.renderer.expands_to(step.glyph, clip, q.renderer),
        q == p.after_drawing(q.handed, q.renderer, clip),
    ensures
        q.sound(),
{
    assert(q.drawn() == p.drawn().push(step.glyph));
    assert forall|i: int| 0 <= i < q.renderer.vertices.len() implies (
    #[trigger] q.renderer.vertices[i]).is_vertex_of(
        q.drawn()[i / 4],
        q.clips[i / 4][i % 4],
        i % 4,
    ) by {
        let old_len = p.renderer.vertices.len() as int;
        if i < old_len {
            assert(q.renderer.vertices.take(old_len)[i] == q.renderer.vertices[i]);
            assert(p.renderer.vertices[i].is_vertex_of(
                p.drawn()[i / 4],
                p.clips[i / 4][i % 4],
                i % 4,
            ));
        } else {
            assert(i / 4 == p.clips.len() && i % 4 == i - old_len);
        }
    }
}

proof fn lemma_move_keeps_sound(p: Progress, q: Progress)
    requires
        p.sound(),
        p.moves_to(q),
    ensures
        q.sound(),
        q.preparation.frame == p.preparation.frame,
        q.renderer.vertex_buffer_size == p.renderer.vertex_buffer_size,
        q.renderer.index_buffer_size == p.renderer.index_buffer_size,
{
    match p.step {
        Step::NextArea => {
            let area = choose|area: Option<TextArea>| q == #[trigger] p.after_area(q.handed, area);
            assert(as_items(p.begun) + p.rest() =~= as_items(p.begun));
            if let Some(area) = area {
                assert(q.areas.drop_last() =~= p.areas);
            }
            assert(all_tasks(q.preparation.frame, q.areas) =~= as_items(q.begun) + q.rest());
        },
        Step::NextGlyph => {
            lemma_next_keeps_sound(p, q);
        },
        Step::RasterizeText(step) => {
            let image = choose|image: Option<SwashImage>|
                {
                    &&& #[trigger] step.takes_image(image, q.handed, q.step, q.atlas)
                    &&& q == p.after(
                        q.handed,
                        q.atlas,
                        q.step,
                        text_ending(step, image, q.handed),
                    )
                };
            match text_ending(step, image, q.handed) {
                Some(Ending::Resolved { details, color_mode }) => {
                    lemma_resolving_keeps_sound(p, q, details, color_mode);
                },
                Some(ending) => {
                    lemma_ending_keeps_drawn(p, q, ending);
                },
                None => {},
            }
        },
        Step::RasterizeCustom(step) => {
            let output = choose|output: Option<RasterizedCustomGlyph>|
                {
                    &&& #[trigger] step.takes_image(output, q.handed, q.step, q.atlas)
                    &&& q == p.after(
                        q.handed,
                        q.atlas,
                        q.step,
                        custom_ending(step, output, q.handed),
                    )
                };
            match custom_ending(step, output, q.handed) {
                Some(Ending::Resolved { details, color_mode }) => {
                    lemma_resolving_keeps_sound(p, q, details, color_mode);
                },
                Some(ending) => {
                    lemma_ending_keeps_drawn(p, q, ending);
                },
                None => {},
            }
        },
        Step::WriteTexture(step) => {
            lemma_resolving_keeps_sound(
                p,
                q,
                q.handed.details_with_glyph(step.task.job.metadata.cache_key, step.details),
                q.handed.color_mode,
            );
        },
        Step::Transform(step) => {
            let clip = choose|clip: [[u32; 4]; 4]|
                {
                    &&& #[trigger] p.renderer.expands_to(step.glyph, clip, q.renderer)
                    &&& q == p.after_drawing(q.handed, q.renderer, clip)
                };
            lemma_drawing_keeps_sound(p, step, q, clip);
        },
        _ => {},
    }
}

/// Whether the step at a place of a preparation leads to the next place.
pub open spec fn moves_at(trace: Seq<Progress>, i: int) -> bool {
    trace[i].moves_to(trace[i + 1])
}

/// Whether a preparation started with nothing done and came from each of these to the next by doing
/// one step.
pub open spec fn is_run(trace: Seq<Progress>) -> bool {
    &&& trace.len() > 0
    &&& trace[0].is_start()
    &&& forall|i: int| 0 <= i < trace.len() - 1 ==> #[trigger] moves_at(trace, i)
}

/// A preparation up to one of its places is a preparation.
pub(crate) proof fn lemma_run_prefix(trace: Seq<Progress>, n: int)
    requires
        is_run(trace),
        0 < n <= trace.len(),
    ensures
        is_run(trace.take(n)),
        trace.take(n).last() == trace[n - 1],
{
    assert forall|i: int| 0 <= i < n - 1 implies #[trigger] moves_at(trace.take(n), i) by {
        assert(moves_at(trace, i));
    }
}

/// A preparation that goes on by one step is a preparation.
pub proof fn preparation_goes_on(trace: Seq<Progress>, next: Progress)
    requires
        is_run(trace),
        trace.last().moves_to(next),
    ensures
        is_run(trace.push(next)),
{
    let longer = trace.push(next);
    assert forall|i: int| 0 <= i < longer.len() - 1 implies #[trigger] moves_at(longer, i) by {
        if i < trace.len() - 1 {
            assert(moves_at(trace, i));
        }
    }
}

/// A preparation that started with nothing done is sound after any number of steps, and it leaves
/// the sizes of the buffers as they are.
pub proof fn every_preparation_is_sound(trace: Seq<Progress>)
    requires
        is_run(trace),
    ensures
        trace.last().sound(),
        trace.last().preparation.frame == trace[0].preparation.frame,
        trace.last().renderer.vertex_buffer_size == trace[0].renderer.vertex_buffer_size,
        trace.last().renderer.index_buffer_size == trace[0].renderer.index_buffer_size,
    decreases trace.len(),
{
    if trace.len() == 1 {
        assert(as_items(trace[0].begun) + trace[0].rest() =~= Seq::<TaskItem>::empty());
    } else {
        let n = trace.len() - 1;
        lemma_run_prefix(trace, n);
        every_preparation_is_sound(trace.take(n));
        assert(moves_at(trace, n - 1));
        lemma_move_keeps_sound(trace[n - 1], trace[n]);
    }
}

/// A visible glyph among the first `n` is shown behind those of the visible glyphs before it.
proof fn lemma_shown_at(tasks: Seq<GlyphTask>, ended: Seq<Ending>, n: int, k: int)
    requires
        0 <= k < n,
    ensures
        shown(tasks, ended, k).len() <= shown(tasks, ended, k + 1).len() <= shown(
            tasks,
            ended,
            n,
        ).len(),
        placement_of(tasks[k], ended[k]) matches Placement::Visible(glyph) ==> {
            &&& shown(tasks, ended, k).len() < shown(tasks, ended, n).len()
            &&& shown(tasks, ended, n)[shown(tasks, ended, k).len() as int] == glyph
        },
    decreases n,
{
    if k < n - 1 {
        lemma_shown_at(tasks, ended, n - 1, k);
    }
}

/// Whether glyph `k` of a preparation is drawn as `glyph`: behind the vertices of the glyphs that
/// are drawn before it stand its four, clockwise from the top left one, with its corners there.
pub open spec fn is_drawn(end: Progress, k: int, glyph: PlacedGlyph) -> bool {
    let at = shown(end.begun, end.ended, k).len() as int;
    &&& at < end.clips.len()
    &&& forall|corner: int|
        0 <= corner < 4 ==> {
            let i = 4 * at + corner;
            &&& i < end.renderer.vertices.len()
            &&& end.renderer.vertices[i].is_vertex_of(
                glyph,
                #[trigger] end.clips[at][corner],
                corner,
            )
        }
}

/// A preparation that finishes has begun every glyph of every text area, each once and in order,
/// and each has ended. Every glyph that is visible where its details and the colour mode place it
/// is drawn there, in order, and nothing else is drawn: the vertices are those of the visible
/// glyphs, and a glyph that is hidden or has no image adds none. No line and no glyph has left the
/// range of its coordinates.
pub proof fn finished_preparation_draws_every_visible_glyph(trace: Seq<Progress>)
    requires
        is_run(trace),
        trace.last().step is Finished,
    ensures
        ({
            let end = trace.last();
            let n = end.begun.len() as int;
            &&& as_items(end.begun) == all_tasks(trace[0].preparation.frame, end.areas)
            &&& end.ended.len() == n
            &&& end.renderer.wf()
            &&& end.renderer.vertices.len() == 4 * shown(end.begun, end.ended, n).len()
            &&& forall|k: int|
                0 <= k < n ==> match placement_of(#[trigger] end.begun[k], end.ended[k]) {
                    Placement::Visible(glyph) => is_drawn(end, k, glyph) && shown(
                        end.begun,
                        end.ended,
                        k + 1,
                    ).len() == shown(end.begun, end.ended, k).len() + 1,
                    Placement::Hidden => shown(end.begun, end.ended, k + 1) == shown(
                        end.begun,
                        end.ended,
                        k,
                    ),
                    Placement::Overflow => false,
                }
        }),
{
    every_preparation_is_sound(trace);
    let end = trace.last();
    let n = end.begun.len() as int;
    assert(as_items(end.begun) + end.rest() =~= as_items(end.begun));
    assert forall|k: int| 0 <= k < n implies match placement_of(
        #[trigger] end.begun[k],
        end.ended[k],
    ) {
        Placement::Visible(glyph) => is_drawn(end, k, glyph) && shown(
            end.begun,
            end.ended,
            k + 1,
        ).len() == shown(end.begun, end.ended, k).len() + 1,
        Placement::Hidden => shown(end.begun, end.ended, k + 1) == shown(end.begun, end.ended, k),
        Placement::Overflow => false,
    } by {
        lemma_shown_at(end.begun, end.ended, n, k);
        if let Placement::Visible(glyph) = placement_of(end.begun[k], end.ended[k]) {
            let at = shown(end.begun, end.ended, k).len() as int;
            assert forall|corner: int| 0 <= corner < 4 implies {
                let i = 4 * at + corner;
                &&& i < end.renderer.vertices.len()
                &&& end.renderer.vertices[i].is_vertex_of(
                    glyph,
                    #[trigger] end.clips[at][corner],
                    corner,
                )
            } by {
                let i = 4 * at + corner;
                assert(i / 4 == at && i % 4 == corner);
                assert(end.renderer.vertices[i].is_vertex_of(
                    end.drawn()[i / 4],
                    end.clips[i / 4][i % 4],
                    i % 4,
                ));
            }
        }
    }
}

/// Nothing is done once a preparation has finished or failed, or cannot go on.
pub proof fn ended_preparation_does_not_go_on(trace: Seq<Progress>, i: int)
    requires
        is_run(trace),
        0 <= i < trace.len(),
        trace[i].step is Finished || trace[i].step is Failed || trace[i].step is Overflow,
    ensures
        i == trace.len() - 1,
{
    if i < trace.len() - 1 {
        assert(moves_at(trace, i));
    }
}

/// A preparation fails only where the atlas is full: a texture had no place for an image and could
/// not be made larger.
pub proof fn failed_preparation_was_refused_growth(trace: Seq<Progress>)
    requires
        is_run(trace),
        trace.last().step is Failed,
    ensures
        trace.len() >= 2,
        trace[trace.len() - 2].step matches Step::Grow(asked) && trace.last().step == asked.after(
            false,
        ),
{
    let n = trace.len() - 1;
    assert(moves_at(trace, n - 1));
}

/// What is prepared of some text areas is prepared of one of them.
proof fn lemma_task_has_area(frame: Frame, areas: Seq<TextArea>, k: int) -> (area: TextArea)
    requires
        0 <= k < all_tasks(frame, areas).len(),
    ensures
        areas.contains(area),
        all_tasks(frame, areas)[k] matches TaskItem::Glyph(task) ==> task == prepare::task_in(
            frame,
            area,
            task.job,
        ) && area.items().contains(AreaItem::Glyph(task.job)),
    decreases areas.len(),
{
    let before = all_tasks(frame, areas.drop_last());
    if k < before.len() {
        let area = lemma_task_has_area(frame, areas.drop_last(), k);
        let a = areas.drop_last().index_of(area);
        assert(areas[a] == area);
        area
    } else {
        let area = areas.last();
        let items = area.items();
        assert(areas[areas.len() - 1] == area);
        assert(tasks_of(frame, area, items)[k - before.len()] == all_tasks(frame, areas)[k]);
        assert(items.contains(items[k - before.len()]));
        area
    }
}

/// No preparation that finishes draws text outside of the visible area: a glyph that is prepared
/// belongs to a text area, and where that area is not transformed and any pixel of the glyph is
/// drawn, the glyph is drawn on the screen and in the area only.
pub proof fn finished_preparation_draws_in_visible_areas(trace: Seq<Progress>, k: int) -> (area:
    TextArea)
    requires
        is_run(trace),
        trace.last().step is Finished,
        0 <= k < trace.last().begun.len(),
    ensures
        trace.last().areas.contains(area),
        ({
            let frame = trace[0].preparation.frame;
            let task = trace.last().begun[k];
            &&& task == prepare::task_in(frame, area, task.job)
            &&& placement_of(task, trace.last().ended[k]) matches Placement::Visible(glyph) ==> (
            area.is_identity() && glyph.rect.width > 0 && glyph.rect.height > 0 ==> {
                let rect = glyph.rect;
                let screen = frame.resolution;
                let bounds = area.bounds;
                &&& 0 <= rect.x && rect.x + rect.width <= screen.width
                &&& 0 <= rect.y && rect.y + rect.height <= screen.height
                &&& bounds.left <= rect.x && rect.x + rect.width <= bounds.right
                &&& bounds.top <= rect.y && rect.y + rect.height <= bounds.bottom
            })
        }),
{
    finished_preparation_draws_every_visible_glyph(trace);
    let frame = trace[0].preparation.frame;
    let end = trace.last();
    let task = end.begun[k];
    assert(as_items(end.begun)[k] == TaskItem::Glyph(task));
    let area = lemma_task_has_area(frame, end.areas, k);
    if let Ending::Resolved { details, color_mode } = end.ended[k] {
        prepare::drawn_glyph_lies_in_visible_area(
            task.job.metadata,
            details,
            color_mode,
            area.bounds,
            frame.resolution,
        );
    }
    area
}

/// A preparation that finishes cuts off nothing that is visible: where a glyph belongs to an area
/// that is not transformed and its image has texels, every pixel of the image, placed by the pen
/// position of the glyph and the offset of the image, that lies in the area and on the screen is
/// among those that are drawn, with its own texel.
pub proof fn finished_preparation_draws_every_visible_pixel(
    trace: Seq<Progress>,
    k: int,
    details: GlyphDetails,
    color_mode: ColorMode,
    atlas_x: u16,
    atlas_y: u16,
    content_type: ContentType,
    x: int,
    y: int,
) -> (area: TextArea)
    requires
        is_run(trace),
        trace.last().step is Finished,
        0 <= k < trace.last().begun.len(),
        trace.last().ended[k] == (Ending::Resolved { details, color_mode }),
        details.gpu_cache == (GpuCacheStatus::InAtlas { x: atlas_x, y: atlas_y, content_type }),
        trace[0].preparation.frame.resolution.width <= i32::MAX,
        trace[0].preparation.frame.resolution.height <= i32::MAX,
        atlas_x + details.width <= 65535,
        atlas_y + details.height <= 65535,
        ({
            let metadata = trace.last().begun[k].job.metadata;
            let left = metadata.x + details.left;
            let top = metadata.line_y + metadata.y - details.top;
            &&& -0x8000_0000 <= metadata.line_y + metadata.y <= 0x7fff_ffff
            &&& -0x8000_0000 <= left && left + details.width <= 0x7fff_ffff
            &&& -0x8000_0000 <= top && top + details.height <= 0x7fff_ffff
            &&& left <= x < left + details.width
            &&& top <= y < top + details.height
        }),
    ensures
        trace.last().areas.contains(area),
        ({
            let end = trace.last();
            let metadata = end.begun[k].job.metadata;
            let left = metadata.x + details.left;
            let top = metadata.line_y + metadata.y - details.top;
            let screen = trace[0].preparation.frame.resolution;
            &&& end.begun[k].is_identity == area.is_identity()
            &&& area.is_identity() && area.bounds.left <= x < area.bounds.right && 0 <= x
                < screen.width && area.bounds.top <= y < area.bounds.bottom && 0 <= y
                < screen.height ==> (placement_of(end.begun[k], end.ended[k]) matches
                Placement::Visible(glyph) && {
                let rect = glyph.rect;
                &&& rect.x <= x < rect.x + rect.width && rect.y <= y < rect.y + rect.height
                &&& rect.atlas_x + (x - rect.x) == atlas_x + (x - left)
                &&& rect.atlas_y + (y - rect.y) == atlas_y + (y - top)
                &&& is_drawn(end, k, glyph)
            })
        }),
{
    let end = trace.last();
    let frame = trace[0].preparation.frame;
    let task = end.begun[k];
    finished_preparation_draws_every_visible_glyph(trace);
    let area = finished_preparation_draws_in_visible_areas(trace, k);
    prepare::glyph_is_prepared_as_its_area_asks(frame, area, task.job, x);
    prepare::glyph_is_prepared_as_its_area_asks(frame, area, task.job, y);
    prepare::pixels_of_image_in_bounds_are_drawn(
        task.job.metadata,
        details,
        task.bounds,
        color_mode,
        atlas_x,
        atlas_y,
        content_type,
        x,
        y,
    );
    area
}

/// What the functions of [`crate::TextRenderer`] that start a preparation leave is a preparation of
/// which nothing has been done, with whatever atlas.
pub proof fn preparation_starts(
    before: TextRendererView,
    renderer: TextRendererView,
    frame: Frame,
    preparation: PreparationView,
    atlas: TextAtlasView,
) -> (start: Progress)
    requires
        renderer == before.cleared(),
        preparation == PreparationView::start(frame),
    ensures
        is_run(seq![start]),
        start.preparation == preparation,
        start.renderer == renderer,
        start.atlas == atlas,
        start.step is NextArea,
{
    Progress {
        preparation,
        handed: atlas,
        atlas,
        renderer,
        step: Step::NextArea,
        areas: Seq::empty(),
        begun: Seq::empty(),
        ended: Seq::empty(),
        clips: Seq::empty(),
    }
}

/// What `Preparation::take_area` leaves and returns is the next place of a preparation that wants a
/// text area.
pub proof fn taking_an_area_is_a_move(
    at: Progress,
    atlas: TextAtlasView,
    area: Option<TextArea>,
    preparation: PreparationView,
    step: Step,
) -> (next: Progress)
    requires
        at.step is NextArea,
        preparation == at.preparation.with_area(area),
        step == PreparationView::step_with_area(area),
    ensures
        at.moves_to(next),
        next.preparation == preparation,
        next.handed == atlas && next.atlas == atlas,
        next.renderer == at.renderer,
        next.step == step,
{
    at.after_area(atlas, area)
}

/// What `Preparation::next` leaves and returns is the next place of a preparation that is to go on.
pub proof fn going_on_is_a_move(
    at: Progress,
    handed: TextAtlasView,
    preparation: PreparationView,
    atlas: TextAtlasView,
    step: Step,
) -> (next: Progress)
    requires
        at.step is NextGlyph,
        preparation == at.preparation.advanced(),
        step == at.preparation.step_advanced(handed),
        atlas == at.preparation.atlas_advanced(handed),
    ensures
        at.moves_to(next),
        next.preparation == preparation,
        next.handed == handed && next.atlas == atlas,
        next.renderer == at.renderer,
        next.step == step,
{
    at.after_next(handed)
}

/// What `RasterizeTextStep::rasterized` leaves and returns is the next place of a preparation that
/// wants the image of a glyph of a font.
pub proof fn rasterizing_text_is_a_move(
    at: Progress,
    asked: RasterizeTextStep,
    image: Option<SwashImage>,
    handed: TextAtlasView,
    step: Step,
    atlas: TextAtlasView,
) -> (next: Progress)
    requires
        at.step == Step::RasterizeText(asked),
        asked.takes_image(image, handed, step, atlas),
    ensures
        at.moves_to(next),
        next.preparation == at.preparation,
        next.handed == handed && next.atlas == atlas,
        next.renderer == at.renderer,
        next.step == step,
        image is None ==> next.ended == at.ended.push(Ending::NoImage),
{
    at.after(handed, atlas, step, text_ending(asked, image, handed))
}

/// What `RasterizeCustomStep::rasterized` leaves and returns is the next place of a preparation
/// that wants the image of a custom glyph.
pub proof fn rasterizing_a_custom_glyph_is_a_move(
    at: Progress,
    asked: RasterizeCustomStep,
    output: Option<RasterizedCustomGlyph>,
    handed: TextAtlasView,
    step: Step,
    atlas: TextAtlasView,
) -> (next: Progress)
    requires
        at.step == Step::RasterizeCustom(asked),
        asked.takes_image(output, handed, step, atlas),
    ensures
        at.moves_to(next),
        next.preparation == at.preparation,
        next.handed == handed && next.atlas == atlas,
        next.renderer == at.renderer,
        next.step == step,
        output is None ==> next.ended == at.ended.push(Ending::NoImage),
{
    at.after(handed, atlas, step, custom_ending(asked, output, handed))
}

/// What `AllocateStep::allocated` returns is the next place of a preparation that wants a place for
/// an image.
pub proof fn allocating_is_a_move(
    at: Progress,
    asked: AllocateStep,
    place: Option<Allocation>,
    atlas: TextAtlasView,
    step: Step,
) -> (next: Progress)
    requires
        at.step == Step::Allocate(asked),
        asked.takes_place(place, atlas, step),
    ensures
        at.moves_to(next),
        next.preparation == at.preparation,
        next.handed == atlas && next.atlas == atlas,
        next.renderer == at.renderer,
        next.step == step,
{
    at.after(atlas, atlas, step, None)
}

/// What `GrowStep::grown` returns is the next place of a preparation that wants a larger texture.
pub proof fn growing_is_a_move(
    at: Progress,
    asked: GrowStep,
    grew: bool,
    atlas: TextAtlasView,
    step: Step,
) -> (next: Progress)
    requires
        at.step == Step::Grow(asked),
        step == asked.after(grew),
    ensures
        at.moves_to(next),
        next.preparation == at.preparation,
        next.handed == atlas && next.atlas == atlas,
        next.renderer == at.renderer,
        next.step == step,
{
    at.after(atlas, atlas, step, None)
}

/// What `WriteTextureStep::written` leaves and returns is the next place of a preparation that
/// wants texels written.
pub proof fn writing_is_a_move(
    at: Progress,
    asked: WriteTextureStep,
    handed: TextAtlasView,
    step: Step,
    atlas: TextAtlasView,
) -> (next: Progress)
    requires
        at.step == Step::WriteTexture(asked),
        step == asked.task.entered(handed, asked.details),
        atlas == handed.with_glyph(asked.task.job.metadata.cache_key, asked.details),
    ensures
        at.moves_to(next),
        next.preparation == at.preparation,
        next.handed == handed && next.atlas == atlas,
        next.renderer == at.renderer,
        next.step == step,
{
    at.after(handed, atlas, step, Some(entered_ending(asked.task, handed, asked.details)))
}

/// What `DepthStep::measured` returns is the next place of a preparation that wants a depth.
pub proof fn measuring_is_a_move(
    at: Progress,
    asked: DepthStep,
    depth: u32,
    atlas: TextAtlasView,
    step: Step,
) -> (next: Progress)
    requires
        at.step == Step::Depth(asked),
        step == asked.after(depth),
    ensures
        at.moves_to(next),
        next.preparation == at.preparation,
        next.handed == atlas && next.atlas == atlas,
        next.renderer == at.renderer,
        next.step == step,
{
    at.after(atlas, atlas, step, None)
}

/// What `TransformStep::transformed` leaves and returns is the next place of a preparation that
/// wants the corners of a glyph.
pub proof fn transforming_is_a_move(
    at: Progress,
    asked: TransformStep,
    clip: [[u32; 4]; 4],
    atlas: TextAtlasView,
    renderer: TextRendererView,
    step: Step,
) -> (next: Progress)
    requires
        at.step == Step::Transform(asked),
        step == Step::NextGlyph,
        at.renderer.expands_to(asked.glyph, clip, renderer),
    ensures
        at.moves_to(next),
        next.preparation == at.preparation,
        next.handed == atlas && next.atlas == atlas,
        next.renderer == renderer,
        next.step == step,
        next.clips == at.clips.push(clip),
{
    at.after_drawing(atlas, renderer, clip)
}

} // verus!
