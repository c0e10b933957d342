use glyphon::buffer::{BufferDescriptor, BufferRole};
use glyphon::bytes::{words_to_bytes, ByteOrder};
use glyphon::geometry::Resolution;
use glyphon::transform::{is_identity, ONE};
use glyphon::{CameraUniform, Viewport};

#[test]
fn default_camera_is_the_identity() {
    let expected = glam::Mat4::IDENTITY
        .to_cols_array_2d()
        .map(|column| column.map(f32::to_bits));
    assert_eq!(CameraUniform::default().view_proj, expected);
    assert_eq!(expected[2], [0, 0, 0x3f80_0000, 0]);
}

#[test]
fn new_viewport_has_no_pixels() {
    let (viewport, descriptor) = Viewport::new();
    assert_eq!(
        viewport.resolution(),
        Resolution {
            width: 0,
            height: 0
        }
    );
    assert_eq!(viewport.params.view_proj, CameraUniform::default().view_proj);
    assert_eq!(viewport.params.pad, [0, 0]);
    assert_eq!(
        descriptor,
        BufferDescriptor {
            role: BufferRole::Params,
            size: 80,
            mapped_at_creation: false,
        }
    );
}

#[test]
fn update_sets_the_resolution_and_the_camera() {
    let (mut viewport, _) = Viewport::new();
    let resolution = Resolution {
        width: 0x0102_0304,
        height: 7,
    };
    let mut camera = CameraUniform::default();
    camera.view_proj[1][2] = 2.5f32.to_bits();
    let bytes = viewport.update(resolution, camera, ByteOrder::Little);
    assert_eq!(viewport.resolution(), resolution);
    assert_eq!(viewport.params.view_proj, camera.view_proj);
    assert_eq!(bytes.len(), 80);
    assert_eq!(bytes[0..16], [4, 3, 2, 1, 7, 0, 0, 0, 0, 0, 0, 0, 0, 0, 0, 0]);
    let mut expected: Vec<u8> = Vec::new();
    for word in [resolution.width, resolution.height, 0, 0] {
        expected.extend_from_slice(&word.to_le_bytes());
    }
    for column in camera.view_proj {
        for entry in column {
            expected.extend_from_slice(&f32::from_bits(entry).to_le_bytes());
        }
    }
    assert_eq!(bytes, expected);
    // The last update counts.
    let other = Resolution {
        width: 1,
        height: 2,
    };
    let bytes = viewport.update(other, CameraUniform::default(), ByteOrder::Big);
    assert_eq!(viewport.resolution(), other);
    assert_eq!(bytes[0..8], [0, 0, 0, 1, 0, 0, 0, 2]);
    assert_eq!(bytes[16..20], [0x3f, 0x80, 0, 0]);
}

#[test]
fn default_camera_transforms_nothing() {
    assert!(is_identity(&CameraUniform::default().view_proj, ONE));
    assert_eq!(ONE, 1.0f32.to_bits());
}

#[test]
fn words_have_their_bytes_in_order() {
    let words = vec![0x0102_0304, 5];
    assert_eq!(
        words_to_bytes(&words, ByteOrder::Little),
        vec![4, 3, 2, 1, 5, 0, 0, 0]
    );
    assert_eq!(
        words_to_bytes(&words, ByteOrder::Big),
        vec![1, 2, 3, 4, 0, 0, 0, 5]
    );
}
