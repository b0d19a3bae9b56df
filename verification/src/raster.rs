use vstd::prelude::*;

verus! {

/// Side of the square raster, in pixels.
pub const RESOLUTION: u32 = 400;

/// Half the side of the raster: the pixel that maps to the origin of noise
/// space.
pub const HALF_RESOLUTION: u32 = RESOLUTION / 2;

/// Length of a colour buffer: four bytes for each pixel of the raster.
pub const IMAGE_BYTES_COUNT: u32 = RESOLUTION * RESOLUTION * 4;

/// Thickness of the lines of the grid overlay, in pixels.
pub const GRID_THICKNESS: u32 = 2;

/// Half the thickness of a grid line.
pub const HALF_GRID_THICKNESS: u32 = GRID_THICKNESS / 2;

/// A quantized sample. The sign of the sample chooses one of two ramps and
/// the level is the position on it.
#[derive(Clone, Copy, Debug, PartialEq, Eq, Structural)]
pub enum Shade {
    /// A negative sample: the green level, from 0 at magenta up to 255 at
    /// white.
    Negative(u8),
    /// A sample that is not negative: the level of red and of blue, from
    /// 255 at white down to 0 at green.
    NonNegative(u8),
}

/// The four bytes (red, green, blue, alpha) of a shade.
pub open spec fn rgba(shade: Shade) -> Seq<u8> {
    match shade {
        Shade::Negative(g) => seq![255u8, g, 255u8, 255u8],
        Shade::NonNegative(v) => seq![v, 255u8, v, 255u8],
    }
}

/// The colour buffer of a row of shades: the bytes of each shade in turn.
pub open spec fn color_bytes(shades: Seq<Shade>) -> Seq<u8> {
    Seq::new(4 * shades.len(), |k: int| rgba(shades[k / 4])[k % 4])
}

/// The column and the row of the pixel at position `i` of a row-major
/// raster.
pub fn pixel_position(i: usize) -> (p: (u32, u32))
    requires
        i < RESOLUTION * RESOLUTION,
    ensures
        p.0 == i % 400,
        p.1 == i / 400,
        p.0 < RESOLUTION,
        p.1 < RESOLUTION,
        i == p.1 * RESOLUTION + p.0,
{
    ((i % 400) as u32, (i / 400) as u32)
}

/// The position of the pixel at column `x` and row `y` in a row-major
/// raster.
pub fn pixel_index(x: u32, y: u32) -> (i: usize)
    requires
        x < RESOLUTION,
        y < RESOLUTION,
    ensures
        i == y * RESOLUTION + x,
        i < RESOLUTION * RESOLUTION,
{
    (y * RESOLUTION + x) as usize
}

/// A pixel coordinate measured from the centre of the raster. Divided by
/// the scale it gives the coordinate in noise space, so the centre pixel
/// maps to the lattice origin.
pub fn centered(p: u32) -> (c: i32)
    requires
        p < RESOLUTION,
    ensures
        c == p - HALF_RESOLUTION,
{
    p as i32 - HALF_RESOLUTION as i32
}

/// The four bytes of one pixel.
pub fn pixel_bytes(shade: Shade) -> (bytes: [u8; 4])
    ensures
        bytes@ == rgba(shade),
{
    let bytes: [u8; 4] = match shade {
        Shade::Negative(g) => [255, g, 255, 255],
        Shade::NonNegative(v) => [v, 255, v, 255],
    };
    assert(bytes@ =~= rgba(shade));
    bytes
}

/// Lays the shades out as a colour buffer: four bytes for each, in order.
pub fn color_buffer(shades: &Vec<Shade>) -> (buffer: Vec<u8>)
    requires
        4 * shades@.len() <= usize::MAX,
    ensures
        buffer@ == color_bytes(shades@),
        buffer@.len() == 4 * shades@.len(),
{
    let n: usize = shades.len();
    let mut buffer: Vec<u8> = Vec::with_capacity(4 * n);
    let mut i: usize = 0;
    while i < n
        invariant
            n == shades@.len(),
            4 * n <= usize::MAX,
            0 <= i <= n,
            buffer@.len() == 4 * i,
            forall|k: int| 0 <= k < 4 * i ==> buffer@[k] == rgba(shades@[k / 4])[k % 4],
        decreases n - i,
    {
        let bytes: [u8; 4] = pixel_bytes(shades[i]);
        buffer.push(bytes[0]);
        buffer.push(bytes[1]);
        buffer.push(bytes[2]);
        buffer.push(bytes[3]);
        i = i + 1;
    }
    assert(buffer@ =~= color_bytes(shades@));
    buffer
}

/// Whether a buffer of `len` bytes covers the whole raster, as a
/// presentation surface demands.
pub fn is_frame_length(len: usize) -> (b: bool)
    ensures
        b == (len == IMAGE_BYTES_COUNT),
{
    len == IMAGE_BYTES_COUNT as usize
}

/// Equal shades give equal colour buffers, byte for byte.
pub proof fn lemma_color_bytes_deterministic(a: Seq<Shade>, b: Seq<Shade>)
    requires
        a == b,
    ensures
        color_bytes(a) == color_bytes(b),
{
}

/// Each pixel of a colour buffer holds the bytes of its own shade, and its
/// alpha byte is 255.
pub proof fn lemma_color_bytes_pixel(shades: Seq<Shade>, i: int)
    requires
        0 <= i < shades.len(),
    ensures
        color_bytes(shades).subrange(4 * i, 4 * i + 4) =~= rgba(shades[i]),
        color_bytes(shades)[4 * i + 3] == 255,
{
    let b = color_bytes(shades);
    assert forall|c: int| 0 <= c < 4 implies b[4 * i + c] == rgba(shades[i])[c] by {
        assert((4 * i + c) / 4 == i);
        assert((4 * i + c) % 4 == c);
    }
}

} // verus!
