use vstd::arithmetic::power2::{lemma2_to64, pow2};
use vstd::prelude::*;

verus! {

/// First code point of the Unicode braille block: the glyph with no dot raised.
pub const GLYPH_BASE: u32 = 0x2800;

/// Last code point of the Unicode braille block: the glyph with all eight dots raised.
pub const GLYPH_LAST: u32 = 0x28FF;

/// Intensity at which a pixel counts as lit.
pub const LIT: u8 = 0xFF;

/// Width in pixels of the block that one glyph shows.
pub const BLOCK_WIDTH: u32 = 2;

/// Height in pixels of the block that one glyph shows.
pub const BLOCK_HEIGHT: u32 = 4;

/// An 8-bit grayscale image, stored row by row.
pub struct PixelBuffer {
    pub width: u32,
    pub height: u32,
    pub data: Vec<u8>,
}

/// Position in the glyph's mask of the bit for dot `i`, where dot `i` sits at
/// column `i / 4` and row `i % 4` of its block. The braille dots are numbered
///
/// ```text
/// 0 3
/// 1 4
/// 2 5
/// 6 7
/// ```
pub open spec fn dot_position(i: int) -> int {
    if i == 0 {
        0
    } else if i == 1 {
        1
    } else if i == 2 {
        2
    } else if i == 3 {
        6
    } else if i == 4 {
        3
    } else if i == 5 {
        4
    } else if i == 6 {
        5
    } else {
        7
    }
}

/// The mask bit of dot `i`: `1 << dot_position(i)`.
pub open spec fn dot_weight(i: int) -> int {
    pow2(dot_position(i) as nat) as int
}

/// Sum of the weights of dots `0..n`: the largest mask that those dots can give.
pub open spec fn weight_total(n: int) -> int
    decreases n,
{
    if n <= 0 {
        0
    } else {
        weight_total(n - 1) + dot_weight(n - 1)
    }
}

/// The code point of the glyph for `mask`.
pub open spec fn glyph_of(mask: int) -> char {
    (GLYPH_BASE + mask) as char
}

impl PixelBuffer {
    /// The buffer holds exactly one byte per pixel.
    pub open spec fn wf(&self) -> bool {
        self.data@.len() == self.width * self.height
    }

    /// Whether `(x, y)` lies inside the image.
    pub open spec fn in_bounds(&self, x: int, y: int) -> bool {
        0 <= x < self.width && 0 <= y < self.height
    }

    /// The intensity of pixel `(x, y)`, for a pixel inside the image.
    pub open spec fn pixel(&self, x: int, y: int) -> u8 {
        self.data@[y * self.width + x]
    }

    /// A pixel is lit when it lies inside the image at full intensity.
    pub open spec fn lit(&self, x: int, y: int) -> bool {
        self.in_bounds(x, y) && self.pixel(x, y) == LIT
    }

    /// Whether pixel `(x, y)` belongs to the block of glyph `(cx, cy)`.
    pub open spec fn in_block(cx: int, cy: int, x: int, y: int) -> bool {
        2 * cx <= x < 2 * cx + 2 && 4 * cy <= y < 4 * cy + 4
    }

    /// Number of glyphs in one row of output.
    pub open spec fn columns(&self) -> int {
        (self.width + 1) / 2
    }

    /// Number of rows of glyphs.
    pub open spec fn rows(&self) -> int {
        (self.height + 3) / 4
    }

    /// Whether dot `i` of the block of glyph `(cx, cy)` is lit.
    pub open spec fn dot_lit(&self, cx: int, cy: int, i: int) -> bool {
        self.lit(2 * cx + i / 4, 4 * cy + i % 4)
    }

    /// The part of the mask of glyph `(cx, cy)` that dots `0..n` give.
    pub open spec fn mask_prefix(&self, cx: int, cy: int, n: int) -> int
        decreases n,
    {
        if n <= 0 {
            0
        } else {
            self.mask_prefix(cx, cy, n - 1) + if self.dot_lit(cx, cy, n - 1) {
                dot_weight(n - 1)
            } else {
                0
            }
        }
    }

    /// The mask of glyph `(cx, cy)`: the bit of each lit dot of its block.
    pub open spec fn cell_mask(&self, cx: int, cy: int) -> int {
        self.mask_prefix(cx, cy, 8)
    }

    /// The glyphs of the whole image, row by row, left to right.
    pub open spec fn glyphs(&self) -> Seq<char> {
        Seq::new(
            (self.rows() * self.columns()) as nat,
            |j: int| glyph_of(self.cell_mask(j % self.columns(), j / self.columns())),
        )
    }
}

/// Relies on `char::from_u32`: `Some` exactly for Unicode scalar values, holding
/// the value itself.
#[verifier::external_body]
pub(crate) fn char_from_scalar(v: u32) -> (r: Option<char>)
    ensures
        (v < 0xD800 || (0xE000 <= v && v <= 0x10FFFF)) ==> r == Some(v as char),
        !(v < 0xD800 || (0xE000 <= v && v <= 0x10FFFF)) ==> r is None,
{
    char::from_u32(v)
}

/// The braille glyph whose raised dots are the set bits of `mask`.
pub fn braille_char(mask: u8) -> (r: char)
    ensures
        r == glyph_of(mask as int),
        r as int == GLYPH_BASE + mask,
        GLYPH_BASE <= r as int <= GLYPH_LAST,
{
    let code = GLYPH_BASE + mask as u32;
    char_from_scalar(code).unwrap()
}

/// The mask bit of dot `i` of a block.
fn dot_bit(i: u32) -> (r: u8)
    requires
        i < 8,
    ensures
        r == dot_weight(i as int),
{
    let position: u8 = if i == 0 {
        0
    } else if i == 1 {
        1
    } else if i == 2 {
        2
    } else if i == 3 {
        6
    } else if i == 4 {
        3
    } else if i == 5 {
        4
    } else if i == 6 {
        5
    } else {
        7
    };
    let bit: u8 = 1u8 << position;
    assert((position == 0u8 ==> bit == 1u8) && (position == 1u8 ==> bit == 2u8) && (position
        == 2u8 ==> bit == 4u8) && (position == 3u8 ==> bit == 8u8) && (position == 4u8 ==> bit
        == 16u8) && (position == 5u8 ==> bit == 32u8) && (position == 6u8 ==> bit == 64u8) && (
    position == 7u8 ==> bit == 128u8)) by (bit_vector)
        requires
            bit == 1u8 << position,
    ;
    proof {
        lemma2_to64();
    }
    bit
}

/// Whether the pixel `(x, y)` is lit; pixels outside the image are never read
/// and count as unlit.
fn pixel_lit(buffer: &PixelBuffer, x: u32, y: u32) -> (r: bool)
    requires
        buffer.wf(),
    ensures
        r == buffer.lit(x as int, y as int),
{
    if x < buffer.width && y < buffer.height {
        let w = buffer.width as usize;
        let n = buffer.data.len();
        proof {
            lemma_index_in_image(x as int, y as int, buffer.width as int, buffer.height as int);
            assert((y as int) * (w as int) + (x as int) < n as int);
        }
        let index = y as usize * w + x as usize;
        buffer.data[index] == LIT
    } else {
        false
    }
}

proof fn lemma_index_in_image(x: int, y: int, w: int, h: int)
    requires
        0 <= x < w,
        0 <= y < h,
    ensures
        0 <= y * w + x < w * h,
{
    assert(0 <= y * w) by (nonlinear_arith)
        requires
            0 <= y,
            0 <= w,
    ;
    assert(y * w + x < w * h) by (nonlinear_arith)
        requires
            0 <= x < w,
            0 <= y < h,
    ;
}

proof fn lemma_weight_totals()
    ensures
        dot_weight(0) == 1,
        dot_weight(1) == 2,
        dot_weight(2) == 4,
        dot_weight(3) == 64,
        dot_weight(4) == 8,
        dot_weight(5) == 16,
        dot_weight(6) == 32,
        dot_weight(7) == 128,
        weight_total(0) == 0,
        weight_total(1) == 1,
        weight_total(2) == 3,
        weight_total(3) == 7,
        weight_total(4) == 71,
        weight_total(5) == 79,
        weight_total(6) == 95,
        weight_total(7) == 127,
        weight_total(8) == 255,
{
    lemma2_to64();
    reveal_with_fuel(weight_total, 9);
}

proof fn lemma_mask_prefix_bounded(buffer: &PixelBuffer, cx: int, cy: int, n: int)
    ensures
        0 <= buffer.mask_prefix(cx, cy, n) <= weight_total(n),
    decreases n,
{
    if n > 0 {
        lemma_mask_prefix_bounded(buffer, cx, cy, n - 1);
    }
}

/// The mask of glyph `(cx, cy)` of the image.
fn block_mask(buffer: &PixelBuffer, cx: u32, cy: u32) -> (r: u8)
    requires
        buffer.wf(),
        cx < buffer.columns(),
        cy < buffer.rows(),
    ensures
        r == buffer.cell_mask(cx as int, cy as int),
{
    let mut mask: u8 = 0;
    let mut i: u32 = 0;
    proof {
        lemma_weight_totals();
    }
    while i < 8
        invariant
            buffer.wf(),
            cx < buffer.columns(),
            cy < buffer.rows(),
            i <= 8,
            mask == buffer.mask_prefix(cx as int, cy as int, i as int),
        decreases 8 - i,
    {
        let x = cx * BLOCK_WIDTH + i / 4;
        let y = cy * BLOCK_HEIGHT + i % 4;
        proof {
            lemma_mask_prefix_bounded(buffer, cx as int, cy as int, i as int);
            lemma_weight_totals();
        }
        if pixel_lit(buffer, x, y) {
            mask = mask + dot_bit(i);
        }
        i = i + 1;
    }
    mask
}

/// Renders the image as braille glyphs, one per 2x4 block of pixels, row by row
/// and left to right, with no line breaks. A dot is raised exactly when its pixel
/// is at full intensity; blocks cut by the right or bottom edge have the missing
/// dots lowered.
pub fn encode(buffer: &PixelBuffer) -> (r: Vec<char>)
    requires
        buffer.wf(),
    ensures
        r@ == buffer.glyphs(),
{
    let columns: u32 = buffer.width / 2 + buffer.width % 2;
    let rows: u32 = buffer.height / 4 + if buffer.height % 4 == 0 { 0 } else { 1 };
    let mut out: Vec<char> = Vec::new();
    let mut cy: u32 = 0;
    while cy < rows
        invariant
            buffer.wf(),
            columns == buffer.columns(),
            rows == buffer.rows(),
            cy <= rows,
            out@.len() == cy * columns,
            forall|j: int|
                0 <= j < out@.len() ==> #[trigger] out@[j] == buffer.glyphs()[j],
        decreases rows - cy,
    {
        let mut cx: u32 = 0;
        while cx < columns
            invariant
                buffer.wf(),
                columns == buffer.columns(),
                rows == buffer.rows(),
                cy < rows,
                cx <= columns,
                out@.len() == cy * columns + cx,
                forall|j: int|
                    0 <= j < out@.len() ==> #[trigger] out@[j] == buffer.glyphs()[j],
            decreases columns - cx,
        {
            let mask = block_mask(buffer, cx, cy);
            let glyph = braille_char(mask);
            proof {
                let j = cy * columns + cx;
                vstd::arithmetic::div_mod::lemma_fundamental_div_mod_converse(
                    j,
                    columns as int,
                    cy as int,
                    cx as int,
                );
                assert(cy * columns + cx < rows * columns) by (nonlinear_arith)
                    requires
                        cx < columns,
                        cy < rows,
                ;
            }
            out.push(glyph);
            cx = cx + 1;
        }
        proof {
            assert((cy + 1) * columns == cy * columns + columns) by (nonlinear_arith);
        }
        cy = cy + 1;
    }
    proof {
        assert(out@.len() == rows * columns);
    }
    assert(out@ =~= buffer.glyphs());
    out
}

proof fn lemma_mask_unfold(buffer: &PixelBuffer, cx: int, cy: int)
    ensures
        buffer.cell_mask(cx, cy) == (if buffer.dot_lit(cx, cy, 0) { 1int } else { 0 }) + (if buffer.dot_lit(cx, cy, 1) { 2int } else { 0 }) + (if buffer.dot_lit(cx, cy, 2) { 4int } else { 0 }) + (if buffer.dot_lit(cx, cy, 3) { 64int } else { 0 }) + (if buffer.dot_lit(cx, cy, 4) { 8int } else { 0 }) + (if buffer.dot_lit(cx, cy, 5) { 16int } else { 0 }) + (if buffer.dot_lit(cx, cy, 6) { 32int } else { 0 }) + (if buffer.dot_lit(cx, cy, 7) { 128int } else { 0 }),
        buffer.mask_prefix(cx, cy, 4) == (if buffer.dot_lit(cx, cy, 0) { 1int } else { 0 }) + (if buffer.dot_lit(cx, cy, 1) { 2int } else { 0 }) + (if buffer.dot_lit(cx, cy, 2) { 4int } else { 0 }) + (if buffer.dot_lit(cx, cy, 3) { 64int } else { 0 }),
{
    lemma_weight_totals();
    reveal_with_fuel(PixelBuffer::mask_prefix, 9);
}

/// A block none of whose pixels is at full intensity shows the empty glyph.
pub proof fn dark_block_is_empty(buffer: &PixelBuffer, cx: int, cy: int)
    requires
        buffer.wf(),
        0 <= cx < buffer.columns(),
        0 <= cy < buffer.rows(),
        forall|x: int, y: int|
            PixelBuffer::in_block(cx, cy, x, y) && buffer.in_bounds(x, y)
                ==> #[trigger] buffer.pixel(x, y) < LIT,
    ensures
        buffer.cell_mask(cx, cy) == 0,
        buffer.glyphs()[cy * buffer.columns() + cx] == glyph_of(0),
{
    assert forall|i: int| 0 <= i < 8 implies !buffer.dot_lit(cx, cy, i) by {
        let x = 2 * cx + i / 4;
        let y = 4 * cy + i % 4;
        assert(PixelBuffer::in_block(cx, cy, x, y));
        if buffer.in_bounds(x, y) {
            assert(buffer.pixel(x, y) < LIT || buffer.pixel(x, y) == LIT);
        }
    }
    lemma_mask_unfold(buffer, cx, cy);
    lemma_glyph_index(buffer, cx, cy);
}

/// A block all eight of whose pixels are at full intensity shows the glyph with
/// every dot raised.
pub proof fn bright_block_is_full(buffer: &PixelBuffer, cx: int, cy: int)
    requires
        buffer.wf(),
        0 <= cx,
        0 <= cy,
        2 * cx + 1 < buffer.width,
        4 * cy + 3 < buffer.height,
        forall|x: int, y: int|
            PixelBuffer::in_block(cx, cy, x, y) ==> #[trigger] buffer.pixel(x, y) == LIT,
    ensures
        buffer.cell_mask(cx, cy) == 0xFF,
        buffer.glyphs()[cy * buffer.columns() + cx] == glyph_of(0xFF),
{
    assert forall|i: int| 0 <= i < 8 implies buffer.dot_lit(cx, cy, i) by {
        let x = 2 * cx + i / 4;
        let y = 4 * cy + i % 4;
        assert(PixelBuffer::in_block(cx, cy, x, y));
    }
    lemma_mask_unfold(buffer, cx, cy);
    lemma_glyph_index(buffer, cx, cy);
}

/// When only the top-left pixel of a block is lit, its mask is the single bit
/// of dot 0, which is bit 0.
pub proof fn top_left_dot_alone(buffer: &PixelBuffer, cx: int, cy: int)
    requires
        buffer.wf(),
        buffer.lit(2 * cx, 4 * cy),
        forall|x: int, y: int|
            PixelBuffer::in_block(cx, cy, x, y) && (x, y) != (2 * cx, 4 * cy)
                ==> !#[trigger] buffer.lit(x, y),
    ensures
        buffer.cell_mask(cx, cy) == pow2(dot_position(0) as nat),
        buffer.cell_mask(cx, cy) == 1,
{
    lemma2_to64();
    assert forall|i: int| 1 <= i < 8 implies !buffer.dot_lit(cx, cy, i) by {
        let x = 2 * cx + i / 4;
        let y = 4 * cy + i % 4;
        assert(PixelBuffer::in_block(cx, cy, x, y) && (x, y) != (2 * cx, 4 * cy));
        assert(!buffer.lit(x, y));
    }
    assert(buffer.dot_lit(cx, cy, 0));
    lemma_mask_unfold(buffer, cx, cy);
}

/// The glyphs depend on the dimensions and the pixel values alone: two buffers
/// that agree on them encode alike.
pub proof fn encoding_is_deterministic(a: &PixelBuffer, b: &PixelBuffer)
    requires
        a.width == b.width,
        a.height == b.height,
        a.data@ == b.data@,
    ensures
        a.glyphs() == b.glyphs(),
{
    assert(forall|cx: int, cy: int| #[trigger] a.cell_mask(cx, cy) == b.cell_mask(cx, cy)) by {
        assert forall|cx: int, cy: int| #[trigger] a.cell_mask(cx, cy) == b.cell_mask(cx, cy) by {
            lemma_mask_unfold(a, cx, cy);
            lemma_mask_unfold(b, cx, cy);
        }
    }
    assert(a.glyphs() =~= b.glyphs());
}

/// A dot that falls outside the image is never lit, so it sets no bit.
pub proof fn outside_dot_is_unlit(buffer: &PixelBuffer, cx: int, cy: int, i: int)
    requires
        !buffer.in_bounds(2 * cx + i / 4, 4 * cy + i % 4),
    ensures
        !buffer.dot_lit(cx, cy, i),
{
}

/// In the last column of an image of odd width the right-hand dots fall outside
/// it: the mask holds the bits of the left-hand dots (0, 1, 2 and 6) alone.
pub proof fn right_edge_block_uses_left_dots(buffer: &PixelBuffer, cx: int, cy: int)
    requires
        buffer.wf(),
        2 * cx + 1 >= buffer.width,
    ensures
        buffer.cell_mask(cx, cy) == buffer.mask_prefix(cx, cy, 4),
        buffer.cell_mask(cx, cy) <= 71,
        !buffer.dot_lit(cx, cy, 4),
        !buffer.dot_lit(cx, cy, 5),
        !buffer.dot_lit(cx, cy, 6),
        !buffer.dot_lit(cx, cy, 7),
{
    lemma_mask_unfold(buffer, cx, cy);
}

proof fn lemma_glyph_index(buffer: &PixelBuffer, cx: int, cy: int)
    requires
        0 <= cx < buffer.columns(),
        0 <= cy < buffer.rows(),
    ensures
        0 <= cy * buffer.columns() + cx < buffer.rows() * buffer.columns(),
        buffer.glyphs()[cy * buffer.columns() + cx] == glyph_of(buffer.cell_mask(cx, cy)),
{
    let c = buffer.columns();
    let j = cy * c + cx;
    vstd::arithmetic::div_mod::lemma_fundamental_div_mod_converse(j, c, cy, cx);
    assert(0 <= cy * c) by (nonlinear_arith)
        requires
            0 <= cy,
            0 <= c,
    ;
    assert(cy * c + cx < buffer.rows() * c) by (nonlinear_arith)
        requires
            0 <= cx < c,
            0 <= cy < buffer.rows(),
    ;
}

} // verus!
