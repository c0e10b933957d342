//! The renderer: the vertices and indices of the prepared glyphs, their upload, and their drawing.
use vstd::prelude::*;
use crate::buffer;
use crate::buffer::{BufferDescriptor, BufferRole, BufferUpload};
use crate::bytes;
use crate::bytes::ByteOrder;
use crate::prepare::{CustomRasterizer, DepthSource, Frame, PlacedGlyph, Preparation,
    PreparationView};
use crate::viewport::Viewport;

verus! {

/// A vertex of a glyph. Numbers that are not whole are given by the bits of their
/// single-precision form.
#[derive(Clone, Copy, Debug)]
pub struct GlyphToRender {
    /// The x, y and w coordinates in clip space.
    pub pos: [u32; 3],
    /// The size of the glyph.
    pub dim: [u16; 2],
    /// The texel at the vertex.
    pub uv: [u16; 2],
    pub color: u32,
    /// The kind of the texels, and whether colours are converted to linear light.
    pub content_type_with_srgb: [u16; 2],
    /// The z coordinate in clip space.
    pub depth: u32,
}

/// The number of bytes of a vertex in the vertex buffer.
pub const VERTEX_SIZE: u64 = 32;

/// The number of bytes of an index in the index buffer.
pub const INDEX_SIZE: u64 = 4;

/// The size with which the vertex buffer and the index buffer are first created.
pub const INITIAL_SIZE: u64 = 4096;

/// Whether a corner lies on the right side of its glyph. The corners are counted clockwise from
/// the top left one.
pub open spec fn is_right(corner: int) -> bool {
    corner == 1 || corner == 2
}

/// Whether a corner lies on the bottom side of its glyph.
pub open spec fn is_bottom(corner: int) -> bool {
    corner == 2 || corner == 3
}

/// The last of `len` texels from `first` on, at most the last of all.
pub open spec fn last_texel(first: u16, len: u16) -> int {
    let step = if len == 0 {
        0
    } else {
        len - 1
    };
    if first + step > u16::MAX {
        u16::MAX as int
    } else {
        first + step
    }
}

impl GlyphToRender {
    /// Whether this is the vertex of a corner of a glyph, at these clip space coordinates.
    pub open spec fn is_vertex_of(self, glyph: PlacedGlyph, clip: [u32; 4], corner: int) -> bool {
        &&& self.pos@ == seq![clip[0], clip[1], clip[3]]
        &&& self.depth == clip[2]
        &&& self.dim@ == seq![glyph.rect.width, glyph.rect.height]
        &&& self.uv[0] == if is_right(corner) {
            last_texel(glyph.rect.atlas_x, glyph.rect.width)
        } else {
            glyph.rect.atlas_x as int
        }
        &&& self.uv[1] == if is_bottom(corner) {
            last_texel(glyph.rect.atlas_y, glyph.rect.height)
        } else {
            glyph.rect.atlas_y as int
        }
        &&& self.color == glyph.color
        &&& self.content_type_with_srgb@ == seq![glyph.content_type, glyph.conversion]
    }
}

impl GlyphToRender {
    /// The bytes of a vertex in the vertex buffer.
    pub open spec fn spec_bytes(self, order: ByteOrder) -> Seq<u8> {
        bytes::u32_bytes(self.pos[0], order) + bytes::u32_bytes(self.pos[1], order)
            + bytes::u32_bytes(self.pos[2], order) + bytes::u16_bytes(self.dim[0], order)
            + bytes::u16_bytes(self.dim[1], order) + bytes::u16_bytes(self.uv[0], order)
            + bytes::u16_bytes(self.uv[1], order) + bytes::u32_bytes(self.color, order)
            + bytes::u16_bytes(self.content_type_with_srgb[0], order) + bytes::u16_bytes(
            self.content_type_with_srgb[1],
            order,
        ) + bytes::u32_bytes(self.depth, order)
    }

    /// Appends the bytes of a vertex in the vertex buffer.
    fn push_bytes(&self, bytes: &mut Vec<u8>, order: ByteOrder)
        ensures
            final(bytes)@ == old(bytes)@ + self.spec_bytes(order),
    {
        bytes::push_u32(bytes, self.pos[0], order);
        bytes::push_u32(bytes, self.pos[1], order);
        bytes::push_u32(bytes, self.pos[2], order);
        bytes::push_u16(bytes, self.dim[0], order);
        bytes::push_u16(bytes, self.dim[1], order);
        bytes::push_u16(bytes, self.uv[0], order);
        bytes::push_u16(bytes, self.uv[1], order);
        bytes::push_u32(bytes, self.color, order);
        bytes::push_u16(bytes, self.content_type_with_srgb[0], order);
        bytes::push_u16(bytes, self.content_type_with_srgb[1], order);
        bytes::push_u32(bytes, self.depth, order);
        proof {
            assert(bytes@ =~= old(bytes)@ + self.spec_bytes(order));
        }
    }
}

/// The bytes of vertices, one after the other.
pub open spec fn vertices_bytes(vertices: Seq<GlyphToRender>, order: ByteOrder) -> Seq<u8>
    decreases vertices.len(),
{
    if vertices.len() == 0 {
        Seq::empty()
    } else {
        vertices_bytes(vertices.drop_last(), order) + vertices.last().spec_bytes(order)
    }
}

/// The corner of its glyph to which an index of the glyph leads: two triangles, (top left, top
/// right, bottom right) and (top left, bottom right, bottom left).
pub open spec fn triangle_corner(k: int) -> int {
    if k == 0 || k == 3 {
        0
    } else if k == 1 {
        1
    } else if k == 2 || k == 4 {
        2
    } else {
        3
    }
}

/// The index at a place: it leads to a corner of the glyph that the place belongs to.
pub open spec fn index_at(place: int) -> int {
    (place / 6 * 4 + triangle_corner(place % 6)) % 0x1_0000_0000
}

/// The contents of a [`TextRenderer`].
pub struct TextRendererView {
    pub vertex_buffer_size: u64,
    pub index_buffer_size: u64,
    pub vertices: Seq<GlyphToRender>,
    pub indices: Seq<u32>,
}

/// A text renderer that uses cached glyphs to draw text in an existing render pass.
pub struct TextRenderer {
    vertex_buffer_size: u64,
    index_buffer_size: u64,
    glyph_vertices: Vec<GlyphToRender>,
    glyph_indices: Vec<u32>,
}

impl View for TextRenderer {
    type V = TextRendererView;

    closed spec fn view(&self) -> TextRendererView {
        TextRendererView {
            vertex_buffer_size: self.vertex_buffer_size,
            index_buffer_size: self.index_buffer_size,
            vertices: self.glyph_vertices@,
            indices: self.glyph_indices@,
        }
    }
}

impl TextRendererView {
    /// Four vertices and six indices belong to each glyph, and the indices are those of its two
    /// triangles.
    pub open spec fn wf(self) -> bool {
        &&& self.vertices.len() % 4 == 0
        &&& self.indices.len() == self.vertices.len() / 4 * 6
        &&& forall|i: int|
            0 <= i < self.indices.len() ==> #[trigger] self.indices[i] == index_at(i)
    }

    /// The renderer without glyphs.
    pub open spec fn cleared(self) -> TextRendererView {
        TextRendererView { vertices: Seq::empty(), indices: Seq::empty(), ..self }
    }

    /// Whether a renderer becomes this by adding a glyph whose corners have these clip space
    /// coordinates: behind its vertices stand the four of the glyph, clockwise from the top left
    /// one, and behind its indices the six of two triangles.
    pub open spec fn expands_to(
        self,
        glyph: PlacedGlyph,
        clip: [[u32; 4]; 4],
        after: TextRendererView,
    ) -> bool {
        &&& after.wf()
        &&& after.vertex_buffer_size == self.vertex_buffer_size
        &&& after.index_buffer_size == self.index_buffer_size
        &&& after.vertices.len() == self.vertices.len() + 4
        &&& after.vertices.take(self.vertices.len() as int) == self.vertices
        &&& after.indices.take(self.indices.len() as int) == self.indices
        &&& forall|i: int|
            self.vertices.len() <= i < self.vertices.len() + 4 ==> (
            #[trigger] after.vertices[i]).is_vertex_of(
                glyph,
                clip[i - self.vertices.len()],
                i - self.vertices.len(),
            )
    }

    /// Whether there is anything to draw.
    pub open spec fn is_empty(self) -> bool {
        self.indices.len() == 0
    }

    /// How the vertices and the indices reach their buffers, `None` where there is nothing to draw.
    pub open spec fn uploaded(self) -> Option<Upload> {
        if self.is_empty() {
            None
        } else {
            Some(
                Upload {
                    vertices: buffer::upload_of(
                        BufferRole::Vertices,
                        self.vertex_buffer_size,
                        (self.vertices.len() * VERTEX_SIZE) as int,
                    ).0,
                    indices: buffer::upload_of(
                        BufferRole::Indices,
                        self.index_buffer_size,
                        (self.indices.len() * INDEX_SIZE) as int,
                    ).0,
                },
            )
        }
    }

    /// The renderer once the vertices and the indices have reached their buffers.
    pub open spec fn after_upload(self) -> TextRendererView {
        if self.is_empty() {
            self
        } else {
            TextRendererView {
                vertex_buffer_size: buffer::upload_of(
                    BufferRole::Vertices,
                    self.vertex_buffer_size,
                    (self.vertices.len() * VERTEX_SIZE) as int,
                ).1 as u64,
                index_buffer_size: buffer::upload_of(
                    BufferRole::Indices,
                    self.index_buffer_size,
                    (self.indices.len() * INDEX_SIZE) as int,
                ).1 as u64,
                ..self
            }
        }
    }

    /// The calls that draw the prepared glyphs in a render pass, in order.
    pub open spec fn commands(self) -> Seq<RenderCommand> {
        if self.is_empty() {
            Seq::empty()
        } else {
            seq![
                RenderCommand::SetPipeline,
                RenderCommand::SetAtlasBindGroup { index: 0 },
                RenderCommand::SetViewportBindGroup { index: 1 },
                RenderCommand::SetVertexBuffer { slot: 0 },
                RenderCommand::SetIndexBuffer,
                RenderCommand::DrawIndexed {
                    first_index: 0,
                    end_index: (self.indices.len() % 0x1_0000_0000) as u32,
                    base_vertex: 0,
                    first_instance: 0,
                    end_instance: 1,
                },
            ]
        }
    }
}

/// What the text areas of a preparation on this viewport share.
pub open spec fn frame_on(
    viewport: Viewport,
    depth: DepthSource,
    custom: CustomRasterizer,
) -> Frame {
    Frame { resolution: viewport.params.screen_resolution, depth, custom }
}

/// A call on a render pass.
#[derive(Clone, Copy, Debug, PartialEq, Eq, Structural)]
pub enum RenderCommand {
    /// Set the pipeline of the renderer.
    SetPipeline,
    /// Set the bind group of the atlas at this index, without dynamic offsets.
    SetAtlasBindGroup { index: u32 },
    /// Set the bind group of the viewport at this index, without dynamic offsets.
    SetViewportBindGroup { index: u32 },
    /// Set the whole vertex buffer in this slot.
    SetVertexBuffer { slot: u32 },
    /// Set the whole index buffer, which holds 32-bit indices.
    SetIndexBuffer,
    /// Draw the triangles of these indices, for these instances.
    DrawIndexed {
        first_index: u32,
        end_index: u32,
        base_vertex: i32,
        first_instance: u32,
        end_instance: u32,
    },
}

/// How the vertices and the indices reach their buffers.
#[derive(Clone, Copy, Debug, PartialEq, Eq, Structural)]
pub struct Upload {
    pub vertices: BufferUpload,
    pub indices: BufferUpload,
}

/// `len` as a `u32` with the same low bits.
fn low_u32(len: usize) -> (low: u32)
    ensures
        low == len as int % 0x1_0000_0000,
{
    let low: u32 = #[verifier::truncate] (len as u32);
    proof {
        assert(low == len as u64 % 0x1_0000_0000u64) by (bit_vector)
            requires
                low == len as u32,
        ;
    }
    low
}

impl TextRenderer {
    /// A renderer without glyphs, and the vertex buffer and the index buffer that are to be
    /// created for it.
    pub fn new() -> (made: (TextRenderer, BufferDescriptor, BufferDescriptor))
        ensures
            made.0@.wf(),
            made.0@.vertices.len() == 0,
            made.0@.indices.len() == 0,
            made.0@.vertex_buffer_size == 4096,
            made.0@.index_buffer_size == 4096,
            made.1 == (BufferDescriptor {
                role: BufferRole::Vertices,
                size: 4096,
                mapped_at_creation: false,
            }),
            made.2 == (BufferDescriptor {
                role: BufferRole::Indices,
                size: 4096,
                mapped_at_creation: false,
            }),
    {
        let vertex_buffer_size: u64 = buffer::next_copy_buffer_size(INITIAL_SIZE);
        let index_buffer_size: u64 = buffer::next_copy_buffer_size(INITIAL_SIZE);
        proof {
            assert(buffer::copy_buffer_size(4096) == 4096) by {
                reveal_with_fuel(buffer::doubled_to_hold, 11);
            }
        }
        let vertices = BufferDescriptor {
            role: BufferRole::Vertices,
            size: vertex_buffer_size,
            mapped_at_creation: false,
        };
        let indices = BufferDescriptor {
            role: BufferRole::Indices,
            size: index_buffer_size,
            mapped_at_creation: false,
        };
        let renderer = TextRenderer {
            vertex_buffer_size,
            index_buffer_size,
            glyph_vertices: Vec::new(),
            glyph_indices: Vec::new(),
        };
        (renderer, vertices, indices)
    }

    /// The bytes of the vertices of the prepared glyphs, on a machine with this order of bytes.
    pub fn vertex_bytes(&self, order: ByteOrder) -> (bytes: Vec<u8>)
        ensures
            bytes@ == vertices_bytes(self@.vertices, order),
            bytes@.len() == self@.vertices.len() * VERTEX_SIZE,
    {
        let mut bytes: Vec<u8> = Vec::new();
        let mut next: usize = 0;
        while next < self.glyph_vertices.len()
            invariant
                next <= self.glyph_vertices.len(),
                bytes@ == vertices_bytes(self.glyph_vertices@.take(next as int), order),
                bytes@.len() == next * VERTEX_SIZE,
            decreases self.glyph_vertices.len() - next,
        {
            self.glyph_vertices[next].push_bytes(&mut bytes, order);
            proof {
                assert(self.glyph_vertices@.take(next + 1).drop_last() == self.glyph_vertices@.take(
                    next as int,
                ));
            }
            next = next + 1;
        }
        proof {
            assert(self.glyph_vertices@.take(next as int) == self.glyph_vertices@);
        }
        bytes
    }

    /// The bytes of the indices of the prepared glyphs, on a machine with this order of bytes.
    pub fn index_bytes(&self, order: ByteOrder) -> (bytes: Vec<u8>)
        ensures
            bytes@ == bytes::words_bytes(self@.indices, order),
            bytes@.len() == self@.indices.len() * INDEX_SIZE,
    {
        bytes::words_to_bytes(&self.glyph_indices, order)
    }

    /// The vertices of the prepared glyphs.
    pub fn vertices(&self) -> (vertices: &Vec<GlyphToRender>)
        ensures
            vertices@ == self@.vertices,
    {
        &self.glyph_vertices
    }

    /// The indices of the prepared glyphs.
    pub fn indices(&self) -> (indices: &Vec<u32>)
        ensures
            indices@ == self@.indices,
    {
        &self.glyph_indices
    }

    fn start(&mut self, viewport: &Viewport, depth: DepthSource, custom: CustomRasterizer) -> (preparation:
        Preparation)
        ensures
            final(self)@ == old(self)@.cleared(),
            final(self)@.wf(),
            preparation@ == PreparationView::start(Frame {
                resolution: viewport.params.screen_resolution,
                depth,
                custom,
            }),
    {
        self.glyph_vertices.clear();
        self.glyph_indices.clear();
        Preparation::new(Frame { resolution: viewport.resolution(), depth, custom })
    }

    /// Drops the glyphs that were prepared before, and starts to prepare text areas at depth zero
    /// and without images for custom glyphs.
    pub fn prepare(&mut self, viewport: &Viewport) -> (preparation: Preparation)
        ensures
            final(self)@ == old(self)@.cleared(),
            final(self)@.wf(),
            preparation@ == PreparationView::start(Frame {
                resolution: viewport.params.screen_resolution,
                depth: DepthSource::Zero,
                custom: CustomRasterizer::Absent,
            }),
            preparation@.frame == frame_on(
                *viewport,
                DepthSource::Zero,
                CustomRasterizer::Absent,
            ),
    {
        self.start(viewport, DepthSource::Zero, CustomRasterizer::Absent)
    }

    /// Drops the glyphs that were prepared before, and starts to prepare text areas at the depths
    /// of their glyphs' metadata and without images for custom glyphs.
    pub fn prepare_with_depth(&mut self, viewport: &Viewport) -> (preparation: Preparation)
        ensures
            final(self)@ == old(self)@.cleared(),
            final(self)@.wf(),
            preparation@ == PreparationView::start(Frame {
                resolution: viewport.params.screen_resolution,
                depth: DepthSource::Metadata,
                custom: CustomRasterizer::Absent,
            }),
            preparation@.frame == frame_on(
                *viewport,
                DepthSource::Metadata,
                CustomRasterizer::Absent,
            ),
    {
        self.start(viewport, DepthSource::Metadata, CustomRasterizer::Absent)
    }

    /// Drops the glyphs that were prepared before, and starts to prepare text areas at depth zero
    /// and with images for custom glyphs.
    pub fn prepare_with_custom(&mut self, viewport: &Viewport) -> (preparation: Preparation)
        ensures
            final(self)@ == old(self)@.cleared(),
            final(self)@.wf(),
            preparation@ == PreparationView::start(Frame {
                resolution: viewport.params.screen_resolution,
                depth: DepthSource::Zero,
                custom: CustomRasterizer::Present,
            }),
            preparation@.frame == frame_on(
                *viewport,
                DepthSource::Zero,
                CustomRasterizer::Present,
            ),
    {
        self.start(viewport, DepthSource::Zero, CustomRasterizer::Present)
    }

    /// Drops the glyphs that were prepared before, and starts to prepare text areas at the depths
    /// of their glyphs' metadata and with images for custom glyphs.
    pub fn prepare_with_depth_and_custom(&mut self, viewport: &Viewport) -> (preparation:
        Preparation)
        ensures
            final(self)@ == old(self)@.cleared(),
            final(self)@.wf(),
            preparation@ == PreparationView::start(Frame {
                resolution: viewport.params.screen_resolution,
                depth: DepthSource::Metadata,
                custom: CustomRasterizer::Present,
            }),
            preparation@.frame == frame_on(
                *viewport,
                DepthSource::Metadata,
                CustomRasterizer::Present,
            ),
    {
        self.start(viewport, DepthSource::Metadata, CustomRasterizer::Present)
    }

    /// Adds a glyph whose corners have these clip space coordinates: four vertices, clockwise
    /// from the top left one, and the six indices of two triangles.
    pub fn expand_glyph(&mut self, glyph: PlacedGlyph, clip: [[u32; 4]; 4])
        requires
            old(self)@.wf(),
        ensures
            old(self)@.expands_to(glyph, clip, final(self)@),
    {
        let base: u32 = low_u32(self.glyph_vertices.len());
        let rect = glyph.rect;
        // The shader samples the centres of texels, so the last column and row count.
        let uv_right: u16 = rect.atlas_x.saturating_add(rect.width.saturating_sub(1));
        let uv_bottom: u16 = rect.atlas_y.saturating_add(rect.height.saturating_sub(1));
        let mut corner: usize = 0;
        while corner < 4
            invariant
                corner <= 4,
                rect == glyph.rect,
                uv_right == last_texel(rect.atlas_x, rect.width),
                uv_bottom == last_texel(rect.atlas_y, rect.height),
                self.vertex_buffer_size == old(self).vertex_buffer_size,
                self.index_buffer_size == old(self).index_buffer_size,
                self.glyph_indices == old(self).glyph_indices,
                self.glyph_vertices.len() == old(self).glyph_vertices.len() + corner,
                self.glyph_vertices@.take(old(self).glyph_vertices.len() as int) == old(
                    self,
                ).glyph_vertices@,
                forall|i: int|
                    old(self).glyph_vertices.len() <= i < self.glyph_vertices.len() ==> (
                    #[trigger] self.glyph_vertices@[i]).is_vertex_of(
                        glyph,
                        clip[i - old(self).glyph_vertices.len()],
                        i - old(self).glyph_vertices.len(),
                    ),
            decreases 4 - corner,
        {
            let at: [u32; 4] = clip[corner];
            let u: u16 = if corner == 1 || corner == 2 {
                uv_right
            } else {
                rect.atlas_x
            };
            let v: u16 = if corner >= 2 {
                uv_bottom
            } else {
                rect.atlas_y
            };
            self.glyph_vertices.push(
                GlyphToRender {
                    pos: [at[0], at[1], at[3]],
                    dim: [rect.width, rect.height],
                    uv: [u, v],
                    color: glyph.color,
                    content_type_with_srgb: [glyph.content_type, glyph.conversion],
                    depth: at[2],
                },
            );
            corner = corner + 1;
        }
        // Two triangles: (top left, top right, bottom right), (top left, bottom right, bottom left).
        self.glyph_indices.push(base);
        self.glyph_indices.push(base + 1);
        self.glyph_indices.push(base + 2);
        self.glyph_indices.push(base);
        self.glyph_indices.push(base + 2);
        self.glyph_indices.push(base + 3);
        proof {
            assert(self.glyph_indices@.take(old(self).glyph_indices.len() as int)
                =~= old(self).glyph_indices@);
        }
    }

    /// Decides how the vertices and the indices of the prepared glyphs reach their buffers, `None`
    /// where there is nothing to draw.
    pub fn upload(&mut self) -> (upload: Option<Upload>)
        requires
            old(self)@.vertices.len() * VERTEX_SIZE <= buffer::MAX_CONTENTS,
            old(self)@.indices.len() * INDEX_SIZE <= buffer::MAX_CONTENTS,
        ensures
            final(self)@.vertices == old(self)@.vertices,
            final(self)@.indices == old(self)@.indices,
            upload == old(self)@.uploaded(),
            final(self)@ == old(self)@.after_upload(),
            upload is None <==> old(self)@.is_empty(),
            old(self)@.is_empty() ==> final(self)@ == old(self)@,
            upload matches Some(upload) ==> {
                let vertices = buffer::upload_of(
                    BufferRole::Vertices,
                    old(self)@.vertex_buffer_size,
                    (old(self)@.vertices.len() * VERTEX_SIZE) as int,
                );
                let indices = buffer::upload_of(
                    BufferRole::Indices,
                    old(self)@.index_buffer_size,
                    (old(self)@.indices.len() * INDEX_SIZE) as int,
                );
                &&& upload.vertices == vertices.0
                &&& final(self)@.vertex_buffer_size == vertices.1
                &&& upload.indices == indices.0
                &&& final(self)@.index_buffer_size == indices.1
            },
    {
        if self.glyph_indices.len() == 0 {
            return None;
        }
        let (vertices, vertex_buffer_size): (BufferUpload, u64) = buffer::upload_buffer(
            BufferRole::Vertices,
            self.vertex_buffer_size,
            self.glyph_vertices.len() as u64 * VERTEX_SIZE,
        );
        self.vertex_buffer_size = vertex_buffer_size;
        let (indices, index_buffer_size): (BufferUpload, u64) = buffer::upload_buffer(
            BufferRole::Indices,
            self.index_buffer_size,
            self.glyph_indices.len() as u64 * INDEX_SIZE,
        );
        self.index_buffer_size = index_buffer_size;
        Some(Upload { vertices, indices })
    }

    /// The calls that draw the prepared glyphs in a render pass, in order.
    pub fn render(&self) -> (commands: Vec<RenderCommand>)
        ensures
            commands@ == self@.commands(),
            commands@ == (if self@.is_empty() {
                Seq::empty()
            } else {
                seq![
                    RenderCommand::SetPipeline,
                    RenderCommand::SetAtlasBindGroup { index: 0 },
                    RenderCommand::SetViewportBindGroup { index: 1 },
                    RenderCommand::SetVertexBuffer { slot: 0 },
                    RenderCommand::SetIndexBuffer,
                    RenderCommand::DrawIndexed {
                        first_index: 0,
                        end_index: (self@.indices.len() % 0x1_0000_0000) as u32,
                        base_vertex: 0,
                        first_instance: 0,
                        end_instance: 1,
                    },
                ]
            }),
    {
        let mut commands: Vec<RenderCommand> = Vec::new();
        if self.glyph_indices.len() == 0 {
            return commands;
        }
        commands.push(RenderCommand::SetPipeline);
        commands.push(RenderCommand::SetAtlasBindGroup { index: 0 });
        commands.push(RenderCommand::SetViewportBindGroup { index: 1 });
        commands.push(RenderCommand::SetVertexBuffer { slot: 0 });
        commands.push(RenderCommand::SetIndexBuffer);
        commands.push(
            RenderCommand::DrawIndexed {
                first_index: 0,
                end_index: low_u32(self.glyph_indices.len()),
                base_vertex: 0,
                first_instance: 0,
                end_instance: 1,
            },
        );
        commands
    }
}

/// Where the vertices can be counted in 32 bits, every index leads to a vertex, and to a vertex of
/// the glyph that the index belongs to.
pub proof fn indices_lead_to_own_vertices(renderer: TextRendererView, place: int)
    requires
        renderer.wf(),
        renderer.vertices.len() <= 0x1_0000_0000,
        0 <= place < renderer.indices.len(),
    ensures
        renderer.indices[place] < renderer.vertices.len(),
        renderer.indices[place] as int / 4 == place / 6,
{
    assert(renderer.indices[place] == index_at(place));
}

/// Drawing the prepared glyphs draws every one of them: the six places of a glyph are among those
/// that are drawn, and lead to its corners, those of two triangles that share a diagonal. It holds
/// where the indices can be counted in 32 bits.
pub proof fn every_prepared_glyph_is_drawn(renderer: TextRendererView, glyph: int)
    requires
        renderer.wf(),
        renderer.indices.len() <= u32::MAX,
        0 <= glyph < renderer.vertices.len() as int / 4,
    ensures
        0 <= 6 * glyph && 6 * glyph + 6 <= (renderer.indices.len() % 0x1_0000_0000) as u32,
        forall|k: int|
            0 <= k < 6 ==> #[trigger] renderer.indices[6 * glyph + k] == 4 * glyph
                + triangle_corner(k),
{
    assert forall|k: int| 0 <= k < 6 implies #[trigger] renderer.indices[6 * glyph + k] == 4 * glyph
        + triangle_corner(k) by {
        assert(renderer.indices[6 * glyph + k] == index_at(6 * glyph + k));
    }
}

/// A preparation takes the whole screen of its viewport, and depths and images of custom glyphs
/// come from where it was told.
pub proof fn preparation_takes_whole_screen(
    viewport: Viewport,
    depth: DepthSource,
    custom: CustomRasterizer,
)
    ensures
        ({
            let frame = frame_on(viewport, depth, custom);
            &&& frame.resolution.width == viewport.params.screen_resolution.width
            &&& frame.resolution.height == viewport.params.screen_resolution.height
            &&& frame.depth == depth
            &&& frame.custom == custom
        }),
{
}

/// A vertex has the clip space coordinates of its corner, x, y and w together and z apart, and the
/// size, the colour and the numbers of its glyph.
pub proof fn vertex_has_corner_and_looks(
    vertex: GlyphToRender,
    glyph: PlacedGlyph,
    clip: [u32; 4],
    corner: int,
)
    requires
        vertex.is_vertex_of(glyph, clip, corner),
    ensures
        vertex.pos[0] == clip[0] && vertex.pos[1] == clip[1] && vertex.pos[2] == clip[3],
        vertex.depth == clip[2],
        vertex.dim[0] == glyph.rect.width && vertex.dim[1] == glyph.rect.height,
        vertex.color == glyph.color,
        vertex.content_type_with_srgb[0] == glyph.content_type,
        vertex.content_type_with_srgb[1] == glyph.conversion,
{
    assert(vertex.pos@[0] == clip[0] && vertex.pos@[1] == clip[1] && vertex.pos@[2] == clip[3]);
    assert(vertex.dim@[0] == glyph.rect.width && vertex.dim@[1] == glyph.rect.height);
    assert(vertex.content_type_with_srgb@[0] == glyph.content_type);
    assert(vertex.content_type_with_srgb@[1] == glyph.conversion);
}

/// The corners go around their glyph, clockwise from the top left one: the first and the last are
/// at its first column of texels and the other two at its last one, the first two at its first row
/// and the others at its last one. Texels behind the last of all count as the last.
pub proof fn corners_are_at_outer_texels(
    vertex: GlyphToRender,
    glyph: PlacedGlyph,
    clip: [u32; 4],
    corner: int,
)
    requires
        vertex.is_vertex_of(glyph, clip, corner),
        0 <= corner < 4,
    ensures
        ({
            let rect = glyph.rect;
            let right = rect.atlas_x + rect.width - 1;
            let bottom = rect.atlas_y + rect.height - 1;
            &&& corner == 0 || corner == 3 ==> vertex.uv[0] == rect.atlas_x
            &&& corner == 0 || corner == 1 ==> vertex.uv[1] == rect.atlas_y
            &&& corner == 1 || corner == 2 ==> {
                &&& rect.width == 0 ==> vertex.uv[0] == rect.atlas_x
                &&& rect.width > 0 && right <= 65535 ==> vertex.uv[0] == right
                &&& right > 65535 ==> vertex.uv[0] == 65535
            }
            &&& corner == 2 || corner == 3 ==> {
                &&& rect.height == 0 ==> vertex.uv[1] == rect.atlas_y
                &&& rect.height > 0 && bottom <= 65535 ==> vertex.uv[1] == bottom
                &&& bottom > 65535 ==> vertex.uv[1] == 65535
            }
        }),
{
}

/// The six indices of a glyph are those of two triangles: its first, second and third vertex, and
/// its first, third and fourth. They count the vertices of the glyphs before it, four each, in 32
/// bits.
pub proof fn glyph_is_two_triangles(renderer: TextRendererView, glyph: int)
    requires
        renderer.wf(),
        0 <= glyph,
        4 * glyph < renderer.vertices.len(),
    ensures
        6 * glyph + 6 <= renderer.indices.len(),
        renderer.indices[6 * glyph] == (4 * glyph) % 0x1_0000_0000,
        renderer.indices[6 * glyph + 1] == (4 * glyph + 1) % 0x1_0000_0000,
        renderer.indices[6 * glyph + 2] == (4 * glyph + 2) % 0x1_0000_0000,
        renderer.indices[6 * glyph + 3] == (4 * glyph) % 0x1_0000_0000,
        renderer.indices[6 * glyph + 4] == (4 * glyph + 2) % 0x1_0000_0000,
        renderer.indices[6 * glyph + 5] == (4 * glyph + 3) % 0x1_0000_0000,
{
    assert(renderer.indices[6 * glyph] == index_at(6 * glyph));
    assert(renderer.indices[6 * glyph + 1] == index_at(6 * glyph + 1));
    assert(renderer.indices[6 * glyph + 2] == index_at(6 * glyph + 2));
    assert(renderer.indices[6 * glyph + 3] == index_at(6 * glyph + 3));
    assert(renderer.indices[6 * glyph + 4] == index_at(6 * glyph + 4));
    assert(renderer.indices[6 * glyph + 5] == index_at(6 * glyph + 5));
}

/// Adding a glyph adds four vertices and six indices behind those of the glyphs before it, which
/// stay as they are, and leaves the buffers as they are. Its vertices are those of its corners, in
/// order.
pub proof fn added_glyph_stands_behind_others(
    renderer: TextRendererView,
    glyph: PlacedGlyph,
    clip: [[u32; 4]; 4],
    after: TextRendererView,
    corner: int,
    i: int,
)
    requires
        renderer.wf(),
        renderer.expands_to(glyph, clip, after),
        0 <= corner < 4,
    ensures
        after.wf(),
        after.vertices.len() == renderer.vertices.len() + 4,
        after.indices.len() == renderer.indices.len() + 6,
        0 <= i < renderer.vertices.len() ==> after.vertices[i] == renderer.vertices[i],
        0 <= i < renderer.indices.len() ==> after.indices[i] == renderer.indices[i],
        after.vertices[renderer.vertices.len() + corner].is_vertex_of(glyph, clip[corner], corner),
        after.vertex_buffer_size == renderer.vertex_buffer_size,
        after.index_buffer_size == renderer.index_buffer_size,
{
    if 0 <= i < renderer.vertices.len() {
        assert(after.vertices.take(renderer.vertices.len() as int)[i] == after.vertices[i]);
    }
    if 0 <= i < renderer.indices.len() {
        assert(after.indices.take(renderer.indices.len() as int)[i] == after.indices[i]);
    }
}

/// Dropping the prepared glyphs leaves no vertices and no indices, and the buffers as they are.
pub proof fn cleared_renderer_is_empty(renderer: TextRendererView)
    ensures
        renderer.cleared().vertices.len() == 0,
        renderer.cleared().indices.len() == 0,
        renderer.cleared().vertex_buffer_size == renderer.vertex_buffer_size,
        renderer.cleared().index_buffer_size == renderer.index_buffer_size,
        renderer.cleared().wf(),
{
}

/// A vertex takes 32 bytes: three coordinates, the size, the texel, the colour, the two numbers and
/// the depth, one after the other.
pub proof fn vertex_fields_stand_at_their_places(vertex: GlyphToRender, order: ByteOrder)
    ensures
        ({
            let all = vertex.spec_bytes(order);
            &&& all.len() == 32 && VERTEX_SIZE == 32 && INDEX_SIZE == 4
            &&& all.subrange(0, 4) == bytes::u32_bytes(vertex.pos[0], order)
            &&& all.subrange(4, 8) == bytes::u32_bytes(vertex.pos[1], order)
            &&& all.subrange(8, 12) == bytes::u32_bytes(vertex.pos[2], order)
            &&& all.subrange(12, 14) == bytes::u16_bytes(vertex.dim[0], order)
            &&& all.subrange(14, 16) == bytes::u16_bytes(vertex.dim[1], order)
            &&& all.subrange(16, 18) == bytes::u16_bytes(vertex.uv[0], order)
            &&& all.subrange(18, 20) == bytes::u16_bytes(vertex.uv[1], order)
            &&& all.subrange(20, 24) == bytes::u32_bytes(vertex.color, order)
            &&& all.subrange(24, 26) == bytes::u16_bytes(vertex.content_type_with_srgb[0], order)
            &&& all.subrange(26, 28) == bytes::u16_bytes(vertex.content_type_with_srgb[1], order)
            &&& all.subrange(28, 32) == bytes::u32_bytes(vertex.depth, order)
        }),
{
    bytes::u32_bytes_are_digits(vertex.pos[0]);
    bytes::u32_bytes_are_digits(vertex.pos[1]);
    bytes::u32_bytes_are_digits(vertex.pos[2]);
    bytes::u16_bytes_are_digits(vertex.dim[0]);
    bytes::u16_bytes_are_digits(vertex.dim[1]);
    bytes::u16_bytes_are_digits(vertex.uv[0]);
    bytes::u16_bytes_are_digits(vertex.uv[1]);
    bytes::u32_bytes_are_digits(vertex.color);
    bytes::u16_bytes_are_digits(vertex.content_type_with_srgb[0]);
    bytes::u16_bytes_are_digits(vertex.content_type_with_srgb[1]);
    bytes::u32_bytes_are_digits(vertex.depth);
    lemma_joined_fields(
        bytes::u32_bytes(vertex.pos[0], order),
        bytes::u32_bytes(vertex.pos[1], order),
        bytes::u32_bytes(vertex.pos[2], order),
        bytes::u16_bytes(vertex.dim[0], order),
        bytes::u16_bytes(vertex.dim[1], order),
        bytes::u16_bytes(vertex.uv[0], order),
        bytes::u16_bytes(vertex.uv[1], order),
        bytes::u32_bytes(vertex.color, order),
        bytes::u16_bytes(vertex.content_type_with_srgb[0], order),
        bytes::u16_bytes(vertex.content_type_with_srgb[1], order),
        bytes::u32_bytes(vertex.depth, order),
    );
}

/// Fields of these lengths that are joined stand one behind the other.
proof fn lemma_joined_fields(
    x: Seq<u8>,
    y: Seq<u8>,
    w: Seq<u8>,
    width: Seq<u8>,
    height: Seq<u8>,
    u: Seq<u8>,
    v: Seq<u8>,
    color: Seq<u8>,
    kind: Seq<u8>,
    conversion: Seq<u8>,
    depth: Seq<u8>,
)
    requires
        x.len() == 4 && y.len() == 4 && w.len() == 4,
        width.len() == 2 && height.len() == 2 && u.len() == 2 && v.len() == 2,
        color.len() == 4 && kind.len() == 2 && conversion.len() == 2 && depth.len() == 4,
    ensures
        ({
            let all = x + y + w + width + height + u + v + color + kind + conversion + depth;
            &&& all.len() == 32
            &&& all.subrange(0, 4) == x && all.subrange(4, 8) == y && all.subrange(8, 12) == w
            &&& all.subrange(12, 14) == width && all.subrange(14, 16) == height
            &&& all.subrange(16, 18) == u && all.subrange(18, 20) == v
            &&& all.subrange(20, 24) == color
            &&& all.subrange(24, 26) == kind && all.subrange(26, 28) == conversion
            &&& all.subrange(28, 32) == depth
        }),
{
    let all = x + y + w + width + height + u + v + color + kind + conversion + depth;
    assert(all.subrange(0, 4) =~= x);
    assert(all.subrange(4, 8) =~= y);
    assert(all.subrange(8, 12) =~= w);
    assert(all.subrange(12, 14) =~= width);
    assert(all.subrange(14, 16) =~= height);
    assert(all.subrange(16, 18) =~= u);
    assert(all.subrange(18, 20) =~= v);
    assert(all.subrange(20, 24) =~= color);
    assert(all.subrange(24, 26) =~= kind);
    assert(all.subrange(26, 28) =~= conversion);
    assert(all.subrange(28, 32) =~= depth);
}

proof fn lemma_vertices_bytes_len(vertices: Seq<GlyphToRender>, order: ByteOrder)
    ensures
        vertices_bytes(vertices, order).len() == 32 * vertices.len(),
    decreases vertices.len(),
{
    if vertices.len() > 0 {
        lemma_vertices_bytes_len(vertices.drop_last(), order);
        vertex_fields_stand_at_their_places(vertices.last(), order);
    }
}

proof fn lemma_parts_of_joined(front: Seq<u8>, back: Seq<u8>, from: int, to: int)
    requires
        0 <= from <= to <= front.len(),
    ensures
        (front + back).subrange(front.len() as int, (front.len() + back.len()) as int) == back,
        (front + back).subrange(from, to) == front.subrange(from, to),
{
    assert((front + back).subrange(front.len() as int, (front.len() + back.len()) as int) =~= back);
    assert((front + back).subrange(from, to) =~= front.subrange(from, to));
}

/// The bytes of vertices are 32 for each, and those of each stand at 32 times its place.
pub proof fn vertex_stands_at_its_place(
    vertices: Seq<GlyphToRender>,
    order: ByteOrder,
    place: int,
)
    requires
        0 <= place < vertices.len(),
    ensures
        vertices_bytes(vertices, order).len() == 32 * vertices.len(),
        vertices_bytes(vertices, order).subrange(32 * place, 32 * place + 32)
            == vertices[place].spec_bytes(order),
    decreases vertices.len(),
{
    let before = vertices.drop_last();
    let front = vertices_bytes(before, order);
    let back = vertices.last().spec_bytes(order);
    lemma_vertices_bytes_len(vertices, order);
    lemma_vertices_bytes_len(before, order);
    assert(back.len() == 32) by {
        vertex_fields_stand_at_their_places(vertices.last(), order);
    }
    if place < before.len() {
        vertex_stands_at_its_place(before, order, place);
        lemma_parts_of_joined(front, back, 32 * place, 32 * place + 32);
    } else {
        lemma_parts_of_joined(front, back, 0, 0);
    }
}

/// Where there are indices, and they can be counted in 32 bits, all of them are drawn, once, with
/// the pipeline, the atlas, the viewport and the two buffers set before. Where there are none,
/// nothing is done.
pub proof fn rendering_draws_all_indices(renderer: TextRendererView)
    requires
        renderer.indices.len() <= u32::MAX,
    ensures
        renderer.indices.len() == 0 ==> renderer.commands().len() == 0,
        renderer.indices.len() > 0 ==> {
            let commands = renderer.commands();
            &&& commands.len() == 6
            &&& commands[0] is SetPipeline
            &&& commands[1] matches RenderCommand::SetAtlasBindGroup { index } && index == 0
            &&& commands[2] matches RenderCommand::SetViewportBindGroup { index } && index == 1
            &&& commands[3] matches RenderCommand::SetVertexBuffer { slot } && slot == 0
            &&& commands[4] is SetIndexBuffer
            &&& commands[5] matches RenderCommand::DrawIndexed {
                first_index,
                end_index,
                base_vertex,
                first_instance,
                end_instance,
            } && {
                &&& first_index == 0
                &&& end_index == renderer.indices.len()
                &&& base_vertex == 0
                &&& first_instance == 0 && end_instance == 1
            }
        },
{
}

/// Where there are indices, the vertices reach a vertex buffer with 32 bytes for each of them and
/// the indices an index buffer with 4 bytes for each of them: the one that exists where it is large
/// enough, and otherwise a new one that is. Where there are none, nothing is uploaded.
pub proof fn upload_holds_all_vertices_and_indices(renderer: TextRendererView)
    requires
        32 * renderer.vertices.len() <= 0x8000_0000_0000_0000,
        4 * renderer.indices.len() <= 0x8000_0000_0000_0000,
    ensures
        match renderer.uploaded() {
            None => renderer.indices.len() == 0,
            Some(upload) => {
                &&& renderer.indices.len() > 0
                &&& match upload.vertices {
                    BufferUpload::Write { offset } => offset == 0 && 32 * renderer.vertices.len()
                        <= renderer.vertex_buffer_size,
                    BufferUpload::Recreate(descriptor) => {
                        &&& 32 * renderer.vertices.len() > renderer.vertex_buffer_size
                        &&& 32 * renderer.vertices.len() <= descriptor.size
                        &&& descriptor.role is Vertices
                        &&& descriptor.mapped_at_creation
                    },
                }
                &&& match upload.indices {
                    BufferUpload::Write { offset } => offset == 0 && 4 * renderer.indices.len()
                        <= renderer.index_buffer_size,
                    BufferUpload::Recreate(descriptor) => {
                        &&& 4 * renderer.indices.len() > renderer.index_buffer_size
                        &&& 4 * renderer.indices.len() <= descriptor.size
                        &&& descriptor.role is Indices
                        &&& descriptor.mapped_at_creation
                    },
                }
            },
        },
{
    buffer::upload_replaces_small_buffers(
        BufferRole::Vertices,
        renderer.vertex_buffer_size,
        (32 * renderer.vertices.len()) as int,
    );
    buffer::upload_replaces_small_buffers(
        BufferRole::Indices,
        renderer.index_buffer_size,
        (4 * renderer.indices.len()) as int,
    );
}

/// An upload keeps the vertices and the indices. The size of a buffer is then that of the new
/// buffer where there is one, and stays what it was otherwise, so that the same glyphs are only
/// written to the buffers the next time.
pub proof fn upload_is_remembered(renderer: TextRendererView)
    requires
        32 * renderer.vertices.len() <= 0x8000_0000_0000_0000,
        4 * renderer.indices.len() <= 0x8000_0000_0000_0000,
    ensures
        ({
            let after = renderer.after_upload();
            &&& after.vertices == renderer.vertices
            &&& after.indices == renderer.indices
            &&& renderer.uploaded() is None ==> after == renderer
            &&& renderer.uploaded() matches Some(upload) ==> {
                &&& after.vertex_buffer_size == match upload.vertices {
                    BufferUpload::Write { .. } => renderer.vertex_buffer_size,
                    BufferUpload::Recreate(descriptor) => descriptor.size,
                }
                &&& after.index_buffer_size == match upload.indices {
                    BufferUpload::Write { .. } => renderer.index_buffer_size,
                    BufferUpload::Recreate(descriptor) => descriptor.size,
                }
                &&& after.uploaded() matches Some(again) && again.vertices is Write
                    && again.indices is Write
            }
        }),
{
    upload_holds_all_vertices_and_indices(renderer);
    let after = renderer.after_upload();
    if renderer.indices.len() > 0 {
        buffer::upload_replaces_small_buffers(
            BufferRole::Vertices,
            renderer.vertex_buffer_size,
            (32 * renderer.vertices.len()) as int,
        );
        buffer::upload_replaces_small_buffers(
            BufferRole::Indices,
            renderer.index_buffer_size,
            (4 * renderer.indices.len()) as int,
        );
        upload_holds_all_vertices_and_indices(after);
    }
}

} // verus!
