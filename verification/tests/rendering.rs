use glyphon::buffer::{BufferDescriptor, BufferRole, BufferUpload};
use glyphon::bytes::ByteOrder;
use glyphon::geometry::GlyphRect;
use glyphon::prepare::PlacedGlyph;
use glyphon::text_render::{RenderCommand, Upload};
use glyphon::{TextRenderer, Viewport};

fn placed(atlas_x: u16, atlas_y: u16, width: u16, height: u16) -> PlacedGlyph {
    PlacedGlyph {
        rect: GlyphRect {
            x: 1,
            y: 2,
            width,
            height,
            atlas_x,
            atlas_y,
        },
        color: 0x0a0b_0c0d,
        content_type: 1,
        conversion: 0,
    }
}

const CLIP: [[u32; 4]; 4] = [
    [1, 2, 3, 4],
    [5, 6, 7, 8],
    [9, 10, 11, 12],
    [13, 14, 15, 16],
];

fn renderer_with(glyphs: usize) -> TextRenderer {
    let (mut renderer, _, _) = TextRenderer::new();
    for _ in 0..glyphs {
        renderer.expand_glyph(placed(10, 20, 3, 4), CLIP);
    }
    renderer
}

#[test]
fn new_renderer_asks_for_two_buffers() {
    let (renderer, vertices, indices) = TextRenderer::new();
    assert!(renderer.vertices().is_empty());
    assert!(renderer.indices().is_empty());
    assert_eq!(
        vertices,
        BufferDescriptor {
            role: BufferRole::Vertices,
            size: 4096,
            mapped_at_creation: false,
        }
    );
    assert_eq!(
        indices,
        BufferDescriptor {
            role: BufferRole::Indices,
            size: 4096,
            mapped_at_creation: false,
        }
    );
}

#[test]
fn glyph_expands_to_four_vertices_and_six_indices() {
    let renderer = renderer_with(1);
    let vertices = renderer.vertices();
    assert_eq!(vertices.len(), 4);
    let uvs: Vec<[u16; 2]> = vertices.iter().map(|vertex| vertex.uv).collect();
    assert_eq!(uvs, vec![[10, 20], [12, 20], [12, 23], [10, 23]]);
    for (vertex, clip) in vertices.iter().zip(CLIP) {
        assert_eq!(vertex.pos, [clip[0], clip[1], clip[3]]);
        assert_eq!(vertex.depth, clip[2]);
        assert_eq!(vertex.dim, [3, 4]);
        assert_eq!(vertex.color, 0x0a0b_0c0d);
        assert_eq!(vertex.content_type_with_srgb, [1, 0]);
    }
    assert_eq!(renderer.indices(), &vec![0, 1, 2, 0, 2, 3]);
}

#[test]
fn later_glyphs_have_their_own_vertices() {
    let renderer = renderer_with(3);
    assert_eq!(renderer.vertices().len(), 12);
    assert_eq!(
        renderer.indices(),
        &vec![0, 1, 2, 0, 2, 3, 4, 5, 6, 4, 6, 7, 8, 9, 10, 8, 10, 11]
    );
}

#[test]
fn texels_saturate() {
    let (mut renderer, _, _) = TextRenderer::new();
    renderer.expand_glyph(placed(u16::MAX - 1, 5, 4, 0), CLIP);
    let uvs: Vec<[u16; 2]> = renderer.vertices().iter().map(|vertex| vertex.uv).collect();
    assert_eq!(
        uvs,
        vec![
            [u16::MAX - 1, 5],
            [u16::MAX, 5],
            [u16::MAX, 5],
            [u16::MAX - 1, 5]
        ]
    );
}

#[test]
fn nothing_is_uploaded_or_drawn_without_glyphs() {
    let mut renderer = renderer_with(0);
    assert_eq!(renderer.upload(), None);
    assert!(renderer.render().is_empty());
}

#[test]
fn few_glyphs_are_written_to_the_first_buffers() {
    let mut renderer = renderer_with(32);
    assert_eq!(
        renderer.upload(),
        Some(Upload {
            vertices: BufferUpload::Write { offset: 0 },
            indices: BufferUpload::Write { offset: 0 },
        })
    );
}

#[test]
fn many_glyphs_get_larger_buffers_once() {
    // 33 glyphs have 4224 bytes of vertices and 792 bytes of indices.
    let mut renderer = renderer_with(33);
    assert_eq!(
        renderer.upload(),
        Some(Upload {
            vertices: BufferUpload::Recreate(BufferDescriptor {
                role: BufferRole::Vertices,
                size: 8192,
                mapped_at_creation: true,
            }),
            indices: BufferUpload::Write { offset: 0 },
        })
    );
    assert_eq!(
        renderer.upload(),
        Some(Upload {
            vertices: BufferUpload::Write { offset: 0 },
            indices: BufferUpload::Write { offset: 0 },
        })
    );
    // 171 glyphs have 4104 bytes of indices.
    let mut renderer = renderer_with(171);
    assert_eq!(
        renderer.upload().map(|upload| upload.indices),
        Some(BufferUpload::Recreate(BufferDescriptor {
            role: BufferRole::Indices,
            size: 8192,
            mapped_at_creation: true,
        }))
    );
}

#[test]
fn every_prepare_drops_the_glyphs_before() {
    let (viewport, _) = Viewport::new();
    let mut renderer = renderer_with(2);
    renderer.prepare(&viewport);
    assert!(renderer.vertices().is_empty() && renderer.indices().is_empty());
    let mut renderer = renderer_with(2);
    renderer.prepare_with_depth(&viewport);
    assert!(renderer.vertices().is_empty() && renderer.indices().is_empty());
    let mut renderer = renderer_with(2);
    renderer.prepare_with_custom(&viewport);
    assert!(renderer.vertices().is_empty() && renderer.indices().is_empty());
    let mut renderer = renderer_with(2);
    renderer.prepare_with_depth_and_custom(&viewport);
    assert!(renderer.vertices().is_empty() && renderer.indices().is_empty());
}

#[test]
fn render_draws_all_indices() {
    let renderer = renderer_with(2);
    assert_eq!(
        renderer.render(),
        vec![
            RenderCommand::SetPipeline,
            RenderCommand::SetAtlasBindGroup { index: 0 },
            RenderCommand::SetViewportBindGroup { index: 1 },
            RenderCommand::SetVertexBuffer { slot: 0 },
            RenderCommand::SetIndexBuffer,
            RenderCommand::DrawIndexed {
                first_index: 0,
                end_index: 12,
                base_vertex: 0,
                first_instance: 0,
                end_instance: 1,
            },
        ]
    );
}

#[test]
fn vertices_and_indices_have_bytes() {
    let renderer = renderer_with(2);
    let bytes = renderer.vertex_bytes(ByteOrder::Little);
    assert_eq!(bytes.len(), 8 * 32);
    // The second corner of the first glyph.
    assert_eq!(
        bytes[32..64],
        [
            5, 0, 0, 0, 6, 0, 0, 0, 8, 0, 0, 0, 3, 0, 4, 0, 12, 0, 20, 0, 0x0d, 0x0c, 0x0b, 0x0a, 1,
            0, 0, 0, 7, 0, 0, 0
        ]
    );
    let bytes = renderer.vertex_bytes(ByteOrder::Big);
    assert_eq!(
        bytes[32..64],
        [
            0, 0, 0, 5, 0, 0, 0, 6, 0, 0, 0, 8, 0, 3, 0, 4, 0, 12, 0, 20, 0x0a, 0x0b, 0x0c, 0x0d, 0,
            1, 0, 0, 0, 0, 0, 7
        ]
    );
    let bytes = renderer.index_bytes(ByteOrder::Little);
    assert_eq!(bytes.len(), 12 * 4);
    assert_eq!(bytes[20..32], [3, 0, 0, 0, 4, 0, 0, 0, 5, 0, 0, 0]);
    assert_eq!(renderer.index_bytes(ByteOrder::Big)[20..24], [0, 0, 0, 3]);
}
