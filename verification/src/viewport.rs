//! The visible area of all text, and the camera that looks at it.
use vstd::prelude::*;
use crate::buffer::{BufferDescriptor, BufferRole};
use crate::bytes;
use crate::bytes::ByteOrder;
use crate::geometry::Resolution;
use crate::transform;

verus! {

/// Whether these are the columns of the identity matrix, each entry by its bits.
pub open spec fn is_identity_matrix(columns: [[u32; 4]; 4]) -> bool {
    forall|i: int, j: int|
        0 <= i < 4 && 0 <= j < 4 ==> #[trigger] columns[i][j] == (if i == j {
            transform::ONE
        } else {
            0
        })
}

/// The columns of `glam::Mat4::IDENTITY`, from `glam::Mat4::to_cols_array_2d`, each entry by its
/// bits: ones on the diagonal and zeros elsewhere.
#[verifier::external_body]
fn identity_matrix() -> (columns: [[u32; 4]; 4])
    ensures
        is_identity_matrix(columns),
{
    glam::Mat4::IDENTITY.to_cols_array_2d().map(|column| column.map(|entry| entry.to_bits()))
}

/// A camera uniform with the view-projection matrix.
#[derive(Clone, Copy, Debug)]
pub struct CameraUniform {
    /// The columns of the view-projection matrix, each entry by its bits. The identity matrix
    /// stands for no camera transformation.
    pub view_proj: [[u32; 4]; 4],
}

impl Default for CameraUniform {
    /// A camera that transforms nothing.
    fn default() -> (camera: Self)
        ensures
            is_identity_matrix(camera.view_proj),
    {
        CameraUniform { view_proj: identity_matrix() }
    }
}

/// The contents of the uniform buffer.
#[derive(Clone, Copy, Debug)]
pub struct Params {
    pub screen_resolution: Resolution,
    pub pad: [u32; 2],
    pub view_proj: [[u32; 4]; 4],
}

impl Params {
    /// The contents with another resolution and another camera.
    pub open spec fn updated(self, resolution: Resolution, camera: CameraUniform) -> Params {
        Params { screen_resolution: resolution, view_proj: camera.view_proj, ..self }
    }

    /// The words of the uniform buffer, in order.
    pub open spec fn spec_words(self) -> Seq<u32> {
        seq![
            self.screen_resolution.width,
            self.screen_resolution.height,
            self.pad[0],
            self.pad[1],
        ] + Seq::new(16, |i: int| self.view_proj[i / 4][i % 4])
    }

    /// The words of the uniform buffer, in order.
    fn words(&self) -> (words: Vec<u32>)
        ensures
            words@ == self.spec_words(),
    {
        let mut words: Vec<u32> = Vec::with_capacity(20);
        words.push(self.screen_resolution.width);
        words.push(self.screen_resolution.height);
        words.push(self.pad[0]);
        words.push(self.pad[1]);
        let mut column: usize = 0;
        while column < 4
            invariant
                column <= 4,
                words.len() == 4 + 4 * column,
                words@ =~= self.spec_words().take(4 + 4 * column),
            decreases 4 - column,
        {
            words.push(self.view_proj[column][0]);
            words.push(self.view_proj[column][1]);
            words.push(self.view_proj[column][2]);
            words.push(self.view_proj[column][3]);
            column = column + 1;
        }
        words
    }
}

/// The number of bytes of [`Params`] in the uniform buffer.
pub const PARAMS_SIZE: u64 = 80;

/// Controls the visible area of all text for a given renderer. Any text outside of the visible
/// area is clipped.
///
/// Many projects only ever need a single `Viewport`, but several are possible, to draw text to
/// specific areas of a window without bounding each text area.
#[derive(Debug)]
pub struct Viewport {
    pub params: Params,
}

impl Viewport {
    /// A viewport without pixels and without a camera transformation, and the uniform buffer that
    /// is to be created for it.
    pub fn new() -> (made: (Viewport, BufferDescriptor))
        ensures
            made.0.params.screen_resolution == (Resolution { width: 0, height: 0 }),
            made.0.params.pad@ == seq![0u32, 0u32],
            is_identity_matrix(made.0.params.view_proj),
            made.1 == (BufferDescriptor {
                role: BufferRole::Params,
                size: PARAMS_SIZE,
                mapped_at_creation: false,
            }),
    {
        let params = Params {
            screen_resolution: Resolution { width: 0, height: 0 },
            pad: [0, 0],
            view_proj: identity_matrix(),
        };
        let descriptor = BufferDescriptor {
            role: BufferRole::Params,
            size: PARAMS_SIZE,
            mapped_at_creation: false,
        };
        (Viewport { params }, descriptor)
    }

    /// Sets the resolution and the camera, and returns the bytes that are to be written to the
    /// start of the uniform buffer, on a machine with this order of bytes.
    pub fn update(&mut self, resolution: Resolution, camera: CameraUniform, order: ByteOrder) -> (bytes:
        Vec<u8>)
        ensures
            final(self).params == old(self).params.updated(resolution, camera),
            final(self).params.screen_resolution == resolution,
            final(self).params.view_proj == camera.view_proj,
            final(self).params.pad == old(self).params.pad,
            bytes@ == bytes::words_bytes(final(self).params.spec_words(), order),
            bytes@.len() == PARAMS_SIZE,
    {
        self.params.screen_resolution = resolution;
        self.params.view_proj = camera.view_proj;
        bytes::words_to_bytes(&self.params.words(), order)
    }

    /// The current resolution.
    pub fn resolution(&self) -> (resolution: Resolution)
        ensures
            resolution == self.params.screen_resolution,
    {
        self.params.screen_resolution
    }
}

/// The camera of a new viewport, and the default camera, leave text as it is laid out.
pub proof fn identity_matrix_transforms_nothing(columns: [[u32; 4]; 4])
    requires
        is_identity_matrix(columns),
    ensures
        transform::spec_is_identity(columns, transform::ONE),
{
}

/// The uniform buffer holds the width and the height of the screen, two words of padding, and then
/// the entries of the matrix, column by column.
pub proof fn uniforms_stand_at_their_places(params: Params, column: int, row: int)
    requires
        0 <= column < 4,
        0 <= row < 4,
    ensures
        params.spec_words().len() == 20,
        params.spec_words()[0] == params.screen_resolution.width,
        params.spec_words()[1] == params.screen_resolution.height,
        params.spec_words()[2] == params.pad[0],
        params.spec_words()[3] == params.pad[1],
        params.spec_words()[4 + 4 * column + row] == params.view_proj[column][row],
        4 * params.spec_words().len() == PARAMS_SIZE,
{
    assert((4 * column + row) / 4 == column && (4 * column + row) % 4 == row);
}

/// A matrix of no transformation has ones on its diagonal and zeros elsewhere, in the bits of
/// single-precision numbers.
pub proof fn identity_matrix_has_ones_and_zeros(columns: [[u32; 4]; 4], column: int, row: int)
    requires
        is_identity_matrix(columns),
        0 <= column < 4,
        0 <= row < 4,
    ensures
        columns[column][row] == (if column == row {
            0x3f80_0000u32
        } else {
            0u32
        }),
{
}

/// An update sets the resolution and every entry of the camera's matrix, and nothing else.
pub proof fn update_sets_resolution_and_camera(
    params: Params,
    resolution: Resolution,
    camera: CameraUniform,
    column: int,
    row: int,
)
    ensures
        params.updated(resolution, camera).screen_resolution.width == resolution.width,
        params.updated(resolution, camera).screen_resolution.height == resolution.height,
        params.updated(resolution, camera).view_proj[column][row] == camera.view_proj[column][row],
        params.updated(resolution, camera).pad == params.pad,
{
}

} // verus!
