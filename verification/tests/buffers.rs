use glyphon::buffer::{
    create_oversized_buffer, next_copy_buffer_size, upload_buffer, BufferDescriptor, BufferRole,
    BufferUpload,
};
use wgpu::BufferUsages;

#[test]
fn buffer_sizes_are_powers_of_two_from_the_alignment_on() {
    assert_eq!(next_copy_buffer_size(0), 4);
    assert_eq!(next_copy_buffer_size(1), 4);
    assert_eq!(next_copy_buffer_size(2), 4);
    assert_eq!(next_copy_buffer_size(3), 4);
    assert_eq!(next_copy_buffer_size(4), 4);
    assert_eq!(next_copy_buffer_size(5), 8);
    assert_eq!(next_copy_buffer_size(4096), 4096);
    assert_eq!(next_copy_buffer_size(4097), 8192);
    assert_eq!(next_copy_buffer_size(1 << 63), 1 << 63);
    assert_eq!(next_copy_buffer_size((1 << 62) + 1), 1 << 63);
}

#[test]
fn buffer_sizes_agree_with_the_standard_library() {
    let mask = wgpu::COPY_BUFFER_ALIGNMENT - 1;
    for size in 0..5000u64 {
        let expected =
            ((size.next_power_of_two() + mask) & !mask).max(wgpu::COPY_BUFFER_ALIGNMENT);
        assert_eq!(next_copy_buffer_size(size), expected);
    }
}

#[test]
fn labels_and_usages() {
    assert_eq!(BufferRole::Vertices.label(), "glyphon vertices");
    assert_eq!(BufferRole::Indices.label(), "glyphon indices");
    assert_eq!(BufferRole::Params.label(), "glyphon params");
    assert_eq!(
        BufferRole::Vertices.usage(),
        (BufferUsages::VERTEX | BufferUsages::COPY_DST).bits()
    );
    assert_eq!(
        BufferRole::Indices.usage(),
        (BufferUsages::INDEX | BufferUsages::COPY_DST).bits()
    );
    assert_eq!(
        BufferRole::Params.usage(),
        (BufferUsages::UNIFORM | BufferUsages::COPY_DST).bits()
    );
    assert_eq!(BufferRole::Vertices.usage(), 0x28);
    assert_eq!(BufferRole::Indices.usage(), 0x18);
    assert_eq!(BufferRole::Params.usage(), 0x48);
}

#[test]
fn oversized_buffer_is_mapped_at_creation() {
    assert_eq!(
        create_oversized_buffer(BufferRole::Indices, 5000),
        BufferDescriptor {
            role: BufferRole::Indices,
            size: 8192,
            mapped_at_creation: true,
        }
    );
}

#[test]
fn contents_that_fit_are_written() {
    assert_eq!(
        upload_buffer(BufferRole::Vertices, 4096, 4096),
        (BufferUpload::Write { offset: 0 }, 4096)
    );
    assert_eq!(
        upload_buffer(BufferRole::Vertices, 0, 0),
        (BufferUpload::Write { offset: 0 }, 0)
    );
}

#[test]
fn contents_that_do_not_fit_get_a_larger_buffer() {
    let (upload, size) = upload_buffer(BufferRole::Vertices, 4096, 4128);
    assert_eq!(size, 8192);
    assert_eq!(
        upload,
        BufferUpload::Recreate(BufferDescriptor {
            role: BufferRole::Vertices,
            size: 8192,
            mapped_at_creation: true,
        })
    );
    // The larger buffer takes the same contents, and fewer, without another one.
    assert_eq!(
        upload_buffer(BufferRole::Vertices, size, 4128),
        (BufferUpload::Write { offset: 0 }, 8192)
    );
    assert_eq!(
        upload_buffer(BufferRole::Vertices, size, 32),
        (BufferUpload::Write { offset: 0 }, 8192)
    );
}
