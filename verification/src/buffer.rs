//! GPU buffer sizes and the descriptors of the buffers that the renderer asks for.
use vstd::prelude::*;
use vstd::arithmetic::power2::*;

verus! {

/// The first size among `from`, `2 * from`, `4 * from`, ... that holds `size` bytes.
pub open spec fn doubled_to_hold(from: nat, size: nat) -> nat
    decreases 2 * size - from,
{
    if from >= size || from == 0 {
        from
    } else {
        doubled_to_hold(2 * from, size)
    }
}

/// The size of a buffer that is created to hold `size` bytes: the alignment of buffer copies,
/// doubled until the bytes fit.
pub open spec fn copy_buffer_size(size: nat) -> nat {
    doubled_to_hold(4, size)
}

/// The largest number of bytes for which a buffer size exists in 64 bits.
pub const MAX_CONTENTS: u64 = 0x8000_0000_0000_0000;

/// `wgpu::COPY_BUFFER_ALIGNMENT`, which `wgpu` defines as 4.
#[verifier::external_body]
fn copy_buffer_alignment() -> (alignment: u64)
    ensures
        alignment == 4,
{
    wgpu::COPY_BUFFER_ALIGNMENT
}

/// The usage bits of the vertex buffer: the bits of `wgpu::BufferUsages::VERTEX` (bit 5) and
/// `wgpu::BufferUsages::COPY_DST` (bit 3), united.
#[verifier::external_body]
fn vertex_usage() -> (bits: u32)
    ensures
        bits == 0x28,
{
    (wgpu::BufferUsages::VERTEX | wgpu::BufferUsages::COPY_DST).bits()
}

/// The usage bits of the index buffer: the bits of `wgpu::BufferUsages::INDEX` (bit 4) and
/// `wgpu::BufferUsages::COPY_DST` (bit 3), united.
#[verifier::external_body]
fn index_usage() -> (bits: u32)
    ensures
        bits == 0x18,
{
    (wgpu::BufferUsages::INDEX | wgpu::BufferUsages::COPY_DST).bits()
}

/// The usage bits of a uniform buffer: the bits of `wgpu::BufferUsages::UNIFORM` (bit 6) and
/// `wgpu::BufferUsages::COPY_DST` (bit 3), united.
#[verifier::external_body]
fn uniform_usage() -> (bits: u32)
    ensures
        bits == 0x48,
{
    (wgpu::BufferUsages::UNIFORM | wgpu::BufferUsages::COPY_DST).bits()
}

/// What a GPU buffer of the renderer holds.
#[derive(Clone, Copy, Debug, PartialEq, Eq, Structural)]
pub enum BufferRole {
    Vertices,
    Indices,
    Params,
}

impl BufferRole {
    /// The debug label of a buffer with this role.
    pub open spec fn spec_label(self) -> Seq<char> {
        match self {
            BufferRole::Vertices => "glyphon vertices"@,
            BufferRole::Indices => "glyphon indices"@,
            BufferRole::Params => "glyphon params"@,
        }
    }

    /// The usage bits of a buffer with this role.
    pub open spec fn spec_usage(self) -> u32 {
        match self {
            BufferRole::Vertices => 0x28,
            BufferRole::Indices => 0x18,
            BufferRole::Params => 0x48,
        }
    }

    /// The debug label of a buffer with this role.
    pub fn label(self) -> (label: &'static str)
        ensures
            label@ == self.spec_label(),
    {
        match self {
            BufferRole::Vertices => "glyphon vertices",
            BufferRole::Indices => "glyphon indices",
            BufferRole::Params => "glyphon params",
        }
    }

    /// The usage bits of a buffer with this role, in the numbering of `wgpu::BufferUsages`.
    pub fn usage(self) -> (bits: u32)
        ensures
            bits == self.spec_usage(),
    {
        match self {
            BufferRole::Vertices => vertex_usage(),
            BufferRole::Indices => index_usage(),
            BufferRole::Params => uniform_usage(),
        }
    }
}

/// A buffer to be created. Its label and its usage are those of its role.
#[derive(Clone, Copy, Debug, PartialEq, Eq, Structural)]
pub struct BufferDescriptor {
    pub role: BufferRole,
    pub size: u64,
    pub mapped_at_creation: bool,
}

/// What to do so that a GPU buffer holds new contents from its first byte on.
#[derive(Clone, Copy, Debug, PartialEq, Eq, Structural)]
pub enum BufferUpload {
    /// Write the contents to the buffer that exists, at this offset.
    Write { offset: u64 },
    /// Destroy the buffer that exists, create this one, and copy the contents to its start
    /// while it is mapped.
    Recreate(BufferDescriptor),
}

/// The smallest power of two that is at least `size`.
fn next_power_of_two(size: u64) -> (power: u64)
    requires
        size <= MAX_CONTENTS,
    ensures
        power == doubled_to_hold(1, size as nat),
        size <= power <= MAX_CONTENTS,
        power == 1 || power == 2 || power % 4 == 0,
{
    let mut power: u64 = 1;
    let ghost mut exponent: u64 = 0;
    proof {
        assert(1u64 << 0u64 == 1u64) by (bit_vector);
    }
    while power < size
        invariant
            size <= MAX_CONTENTS,
            exponent <= 63,
            power == 1u64 << exponent,
            power >= 1,
            power == 1 || power == 2 || power % 4 == 0,
            doubled_to_hold(power as nat, size as nat) == doubled_to_hold(1, size as nat),
        decreases 2 * size - power,
    {
        proof {
            assert(exponent < 63 && power <= 0x4000_0000_0000_0000 && 1u64 << ((exponent + 1) as u64) == 2
                * power) by (bit_vector)
                requires
                    exponent <= 63,
                    power == 1u64 << exponent,
                    power < 0x8000_0000_0000_0000u64,
            ;
            exponent = (exponent + 1) as u64;
        }
        power = power * 2;
    }
    proof {
        assert(power <= 0x8000_0000_0000_0000u64) by (bit_vector)
            requires
                exponent <= 63,
                power == 1u64 << exponent,
        ;
    }
    power
}

/// The size of a buffer that is created to hold `size` bytes: a power of two, a multiple of the
/// alignment of buffer copies, and never zero.
pub fn next_copy_buffer_size(size: u64) -> (buffer_size: u64)
    requires
        size <= MAX_CONTENTS,
    ensures
        buffer_size == copy_buffer_size(size as nat),
        size <= buffer_size <= MAX_CONTENTS,
{
    let alignment: u64 = copy_buffer_alignment();
    let align_mask: u64 = alignment - 1;
    let power: u64 = next_power_of_two(size);
    let aligned: u64 = (power + align_mask) & !align_mask;
    proof {
        assert(power % 4 == 0 ==> aligned == power) by (bit_vector)
            requires
                aligned == ((power + 3) as u64) & !3u64,
                power <= 0x8000_0000_0000_0000u64,
        ;
        assert((power == 1 || power == 2) ==> aligned == 4) by (bit_vector)
            requires
                aligned == ((power + 3) as u64) & !3u64,
        ;
        reveal_with_fuel(doubled_to_hold, 3);
    }
    if aligned < alignment {
        alignment
    } else {
        aligned
    }
}

/// The descriptor of a buffer that is created to hold `contents_len` bytes and is filled while
/// it is mapped.
pub fn create_oversized_buffer(role: BufferRole, contents_len: u64) -> (descriptor: BufferDescriptor)
    requires
        contents_len <= MAX_CONTENTS,
    ensures
        descriptor.role == role,
        descriptor.size == copy_buffer_size(contents_len as nat),
        descriptor.size >= contents_len,
        descriptor.mapped_at_creation,
{
    BufferDescriptor {
        role,
        size: next_copy_buffer_size(contents_len),
        mapped_at_creation: true,
    }
}

/// How `contents_len` bytes reach a buffer of `buffer_size` bytes, and the size of the buffer
/// that then holds them.
pub open spec fn upload_of(role: BufferRole, buffer_size: u64, contents_len: int) -> (
    BufferUpload,
    int,
) {
    if buffer_size >= contents_len {
        (BufferUpload::Write { offset: 0 }, buffer_size as int)
    } else {
        let size = copy_buffer_size(contents_len as nat);
        (
            BufferUpload::Recreate(
                BufferDescriptor { role, size: size as u64, mapped_at_creation: true },
            ),
            size as int,
        )
    }
}

/// Decides how `contents_len` bytes reach a buffer of `buffer_size` bytes: they are written to it
/// where it is large enough, and a larger buffer takes its place where it is not.
pub fn upload_buffer(role: BufferRole, buffer_size: u64, contents_len: u64) -> (upload: (
    BufferUpload,
    u64,
))
    requires
        contents_len <= MAX_CONTENTS,
    ensures
        upload.0 == upload_of(role, buffer_size, contents_len as int).0,
        upload.1 == upload_of(role, buffer_size, contents_len as int).1,
{
    if buffer_size >= contents_len {
        (BufferUpload::Write { offset: 0 }, buffer_size)
    } else {
        let descriptor = create_oversized_buffer(role, contents_len);
        (BufferUpload::Recreate(descriptor), descriptor.size)
    }
}

proof fn lemma_doubled_to_hold(from: nat, size: nat)
    requires
        from > 0,
    ensures
        doubled_to_hold(from, size) >= size,
        doubled_to_hold(from, size) >= from,
        doubled_to_hold(from, size) == from || doubled_to_hold(from, size) < 2 * size,
    decreases 2 * size - from,
{
    if from < size {
        lemma_doubled_to_hold(2 * from, size);
    }
}

proof fn lemma_doubled_is_power_of_two(exponent: nat, size: nat)
    ensures
        exists|k: nat|
            k >= exponent && doubled_to_hold(pow2(exponent), size)
                == #[trigger] pow2(k),
    decreases 2 * size - pow2(exponent),
{
    lemma_pow2_pos(exponent);
    if pow2(exponent) < size {
        lemma_pow2_unfold(exponent + 1);
        lemma_doubled_is_power_of_two(exponent + 1, size);
        let k = choose|k: nat|
            k >= exponent + 1 && doubled_to_hold(
                pow2(exponent + 1),
                size,
            ) == #[trigger] pow2(k);
        assert(k >= exponent && doubled_to_hold(pow2(exponent), size)
            == pow2(k));
    }
}

/// A buffer is created with the smallest power of two of bytes that is a multiple of the copy
/// alignment and holds its contents.
pub proof fn copy_buffer_size_is_least_power_of_two(size: nat)
    ensures
        copy_buffer_size(size) >= size,
        copy_buffer_size(size) % 4 == 0,
        exists|k: nat| copy_buffer_size(size) == #[trigger] pow2(k),
        forall|k: nat|
            4 <= #[trigger] pow2(k) && size
                <= pow2(k) ==> copy_buffer_size(size)
                <= pow2(k),
{
    lemma2_to64();
    lemma_doubled_to_hold(4, size);
    lemma_doubled_is_power_of_two(2, size);
    let e = choose|k: nat|
        k >= 2 && doubled_to_hold(pow2(2), size)
            == #[trigger] pow2(k);
    assert(copy_buffer_size(size) == pow2(e));
    assert(copy_buffer_size(size) % 4 == 0) by {
        lemma_pow2_adds(2, (e - 2) as nat);
        let q = pow2((e - 2) as nat);
        assert((4 * q) % 4 == 0);
    }
    assert forall|k: nat|
        4 <= #[trigger] pow2(k) && size
            <= pow2(k) implies copy_buffer_size(size)
        <= pow2(k) by {
        if copy_buffer_size(size) > pow2(k) {
            if k >= e {
                if k > e {
                    lemma_pow2_strictly_increases(e, k);
                }
            } else {
                if k + 1 < e {
                    lemma_pow2_strictly_increases(k + 1, e);
                }
                lemma_pow2_unfold(k + 1);
            }
        }
    }
}

/// Whatever a buffer held before, it has room for the contents that are uploaded to it, it never
/// shrinks, and uploading no more bytes than it then has room for creates no further buffer.
pub proof fn upload_makes_room(role: BufferRole, buffer_size: u64, contents_len: int, next_len: int)
    requires
        0 <= contents_len <= MAX_CONTENTS,
    ensures
        upload_of(role, buffer_size, contents_len).1 >= contents_len,
        upload_of(role, buffer_size, contents_len).1 >= buffer_size,
        upload_of(role, buffer_size, contents_len).1 <= u64::MAX,
        next_len <= contents_len ==> upload_of(
            role,
            upload_of(role, buffer_size, contents_len).1 as u64,
            next_len,
        ).0 == (BufferUpload::Write { offset: 0 }),
{
    lemma_doubled_to_hold(4, contents_len as nat);
    if contents_len > buffer_size {
        lemma_copy_buffer_size_bound(contents_len as nat);
    }
}

proof fn lemma_doubled_bound(exponent: nat, size: nat)
    requires
        exponent <= 63,
        size <= MAX_CONTENTS,
    ensures
        doubled_to_hold(pow2(exponent), size) <= MAX_CONTENTS,
    decreases 63 - exponent,
{
    lemma2_to64();
    lemma2_to64_rest();
    lemma_pow2_pos(exponent);
    if exponent < 63 {
        lemma_pow2_strictly_increases(exponent, 63);
        lemma_pow2_unfold(exponent + 1);
        lemma_doubled_bound(exponent + 1, size);
    }
}

proof fn lemma_copy_buffer_size_bound(size: nat)
    requires
        size <= MAX_CONTENTS,
    ensures
        copy_buffer_size(size) <= MAX_CONTENTS,
{
    lemma2_to64();
    lemma_doubled_bound(2, size);
}

/// Contents are written to the buffer that exists just where it has room for them. Otherwise a
/// buffer of the same role that is mapped and has room for them takes its place, and its size is
/// kept.
pub proof fn upload_replaces_small_buffers(role: BufferRole, buffer_size: u64, contents_len: int)
    requires
        0 <= contents_len <= 0x8000_0000_0000_0000,
    ensures
        ({
            let (upload, size) = upload_of(role, buffer_size, contents_len);
            match upload {
                BufferUpload::Write { offset } => contents_len <= buffer_size && offset == 0 && size
                    == buffer_size,
                BufferUpload::Recreate(descriptor) => {
                    &&& contents_len > buffer_size
                    &&& descriptor.role == role
                    &&& descriptor.mapped_at_creation
                    &&& descriptor.size == size
                    &&& contents_len <= size
                    &&& size < 2 * contents_len || size == 4
                },
            }
        }),
{
    if contents_len > buffer_size {
        lemma_doubled_to_hold(4, contents_len as nat);
        lemma_copy_buffer_size_bound(contents_len as nat);
    }
}

/// Every buffer can be copied to, which is the bit 8, and besides holds vertices (32), indices (16)
/// or uniforms (64), and nothing else.
pub proof fn usage_fits_role(role: BufferRole)
    ensures
        role is Vertices ==> role.spec_usage() == 32 + 8,
        role is Indices ==> role.spec_usage() == 16 + 8,
        role is Params ==> role.spec_usage() == 64 + 8,
{
}

/// Buffers are labelled by what they hold.
pub proof fn label_fits_role(role: BufferRole)
    ensures
        role is Vertices ==> role.spec_label() == "glyphon vertices"@,
        role is Indices ==> role.spec_label() == "glyphon indices"@,
        role is Params ==> role.spec_label() == "glyphon params"@,
{
}

} // verus!
