use vstd::arithmetic::div_mod::{
    lemma_div_multiples_vanish, lemma_div_pos_is_pos, lemma_mod_division_less_than_divisor,
    lemma_multiply_divide_lt,
};
use vstd::prelude::*;

verus! {

/// What the image decoder produces for a byte stream, as a function of the
/// bytes alone: nothing when the stream is not a decodable image, else the
/// width, the height, and the tightly packed RGBA pixel rows.
pub uninterp spec fn decoded_rgba(bytes: Seq<u8>) -> Option<(nat, nat, Seq<u8>)>;

/// Relies on `image::load_from_memory` and `DynamicImage::to_rgba8`:
/// decoding is deterministic in the bytes alone, and the raw buffer of a
/// decoded image converted to RGBA holds exactly `width * height * 4`
/// bytes, row-major from the top row.
#[verifier::external_body]
fn decode_image_rgba(bytes: &Vec<u8>) -> (r: Option<(u32, u32, Vec<u8>)>)
    ensures
        r is Some <==> decoded_rgba(bytes@) is Some,
        r is Some ==> decoded_rgba(bytes@) == Some(
            ((r->Some_0.0 as nat), (r->Some_0.1 as nat), r->Some_0.2@),
        ),
        r is Some ==> r->Some_0.2@.len() == 4 * (r->Some_0.0 as nat) * (r->Some_0.1 as nat),
{
    match image::load_from_memory(bytes) {
        Ok(img) => {
            let rgba = img.to_rgba8();
            let w = rgba.width();
            let h = rgba.height();
            Some((w, h, rgba.into_raw()))
        },
        Err(_) => None,
    }
}

/// Where byte `i` of a row-reversed buffer comes from: the same column of
/// the mirrored row.
pub open spec fn row_flip_index(i: int, row_bytes: int, rows: int) -> int {
    (rows - 1 - i / row_bytes) * row_bytes + i % row_bytes
}

/// The buffer with its `rows` rows of `row_bytes` bytes in reverse order.
pub open spec fn flip_rows_spec(p: Seq<u8>, row_bytes: int, rows: int) -> Seq<u8> {
    Seq::new(p.len(), |i: int| p[row_flip_index(i, row_bytes, rows)])
}

/// Where byte `i` of a column-reversed buffer comes from: the same channel
/// of the mirrored pixel of the same row.
pub open spec fn col_flip_index(i: int, w: int, c: int) -> int {
    let rb = w * c;
    (i / rb) * rb + (w - 1 - (i % rb) / c) * c + (i % rb) % c
}

/// The buffer with the `w` pixels (of `c` channels each) of every row in
/// reverse order.
pub open spec fn flip_cols_spec(p: Seq<u8>, w: int, c: int) -> Seq<u8> {
    Seq::new(p.len(), |i: int| p[col_flip_index(i, w, c)])
}

/// The RGBA buffer with the alpha byte of every pixel dropped.
pub open spec fn drop_alpha_spec(p: Seq<u8>) -> Seq<u8> {
    Seq::new(p.len() / 4 * 3, |i: int| p[i / 3 * 4 + i % 3])
}

/// The source index of a row flip stays inside the buffer.
proof fn lemma_row_flip_index_in_range(i: int, row_bytes: int, rows: int)
    requires
        row_bytes >= 1,
        0 <= i < rows * row_bytes,
    ensures
        0 <= i / row_bytes < rows,
        0 <= i % row_bytes < row_bytes,
        0 <= row_flip_index(i, row_bytes, rows) < rows * row_bytes,
{
    lemma_div_pos_is_pos(i, row_bytes);
    lemma_mod_division_less_than_divisor(i, row_bytes);
    assert(i < row_bytes * rows) by (nonlinear_arith)
        requires
            i < rows * row_bytes,
    ;
    lemma_multiply_divide_lt(i, row_bytes, rows);
    let q = i / row_bytes;
    let m = i % row_bytes;
    assert(0 <= (rows - 1 - q) * row_bytes + m < rows * row_bytes) by (nonlinear_arith)
        requires
            0 <= q < rows,
            0 <= m < row_bytes,
    ;
}

/// The source index of a column flip stays inside the buffer and inside
/// its own row.
proof fn lemma_col_flip_index_in_range(i: int, w: int, c: int, len: int)
    requires
        w >= 1,
        c >= 1,
        0 <= i < len,
        len % (w * c) == 0,
    ensures
        0 <= col_flip_index(i, w, c) < len,
        0 <= i / (w * c),
        (i / (w * c)) * (w * c) <= i,
        0 <= (i % (w * c)) / c < w,
        0 <= (i % (w * c)) % c < c,
        0 <= (w - 1 - (i % (w * c)) / c) * c < w * c,
{
    let rb = w * c;
    assert(rb >= 1) by (nonlinear_arith)
        requires
            w >= 1 && c >= 1 && rb == w * c,
    ;
    lemma_div_pos_is_pos(i, rb);
    lemma_mod_division_less_than_divisor(i, rb);
    let r = i / rb;
    let within = i % rb;
    lemma_div_pos_is_pos(within, c);
    lemma_mod_division_less_than_divisor(within, c);
    assert(within < c * w) by (nonlinear_arith)
        requires
            within < rb,
            rb == w * c,
    ;
    lemma_multiply_divide_lt(within, c, w);
    let col = within / c;
    let ch = within % c;
    let k = len / rb;
    vstd::arithmetic::div_mod::lemma_fundamental_div_mod(len, rb);
    assert(len == rb * k);
    assert(i < rb * k) by (nonlinear_arith)
        requires
            i < len,
            len == rb * k,
    ;
    lemma_multiply_divide_lt(i, rb, k);
    assert(0 <= r * rb + (w - 1 - col) * c + ch < k * rb) by (nonlinear_arith)
        requires
            0 <= r < k,
            0 <= col < w,
            0 <= ch < c,
            rb == w * c,
            c >= 1,
            w >= 1,
    ;
    assert(k * rb == len) by (nonlinear_arith)
        requires
            len == rb * k,
    ;
    vstd::arithmetic::div_mod::lemma_fundamental_div_mod(i, rb);
    assert(r * rb <= i && 0 <= (w - 1 - col) * c < rb) by (nonlinear_arith)
        requires
            i == rb * r + within,
            0 <= within,
            0 <= col < w,
            c >= 1,
            rb == w * c,
    ;
}

/// The source index of an alpha drop stays inside the buffer.
proof fn lemma_drop_alpha_index_in_range(i: int, len: int)
    requires
        0 <= i < len / 4 * 3,
    ensures
        0 <= i / 3 * 4 + i % 3 < len,
        0 <= i / 3,
        0 <= i % 3 < 3,
{
    lemma_div_pos_is_pos(i, 3);
    lemma_mod_division_less_than_divisor(i, 3);
    let n = len / 4;
    assert(i < 3 * n) by (nonlinear_arith)
        requires
            i < n * 3,
    ;
    lemma_multiply_divide_lt(i, 3, n);
    assert(i / 3 * 4 + i % 3 < 4 * n) by (nonlinear_arith)
        requires
            0 <= i / 3 < n,
            0 <= i % 3 < 3,
    ;
    vstd::arithmetic::div_mod::lemma_fundamental_div_mod(len, 4);
    lemma_mod_division_less_than_divisor(len, 4);
}

/// Reverses the order of the `rows` rows of `row_bytes` bytes each.
pub fn flip_rows(p: &Vec<u8>, row_bytes: usize, rows: usize) -> (r: Vec<u8>)
    requires
        row_bytes >= 1,
        p@.len() == rows * row_bytes,
    ensures
        r@ == flip_rows_spec(p@, row_bytes as int, rows as int),
{
    let n = p.len();
    let mut out: Vec<u8> = Vec::new();
    let mut j: usize = 0;
    while j < n
        invariant
            j <= n,
            n == p@.len(),
            p@.len() == rows * row_bytes,
            row_bytes >= 1,
            out@.len() == j,
            forall|k: int|
                0 <= k < j ==> out@[k] == p@[row_flip_index(k, row_bytes as int, rows as int)],
        decreases n - j,
    {
        proof {
            lemma_row_flip_index_in_range(j as int, row_bytes as int, rows as int);
        }
        let q = j / row_bytes;
        let m = j % row_bytes;
        let src = (rows - 1 - q) * row_bytes + m;
        out.push(p[src]);
        j += 1;
    }
    proof {
        assert(out@ =~= flip_rows_spec(p@, row_bytes as int, rows as int));
    }
    out
}

/// Reverses the pixel order within every row of `w` pixels of `c`
/// channels.
pub fn flip_cols(p: &Vec<u8>, w: usize, c: usize) -> (r: Vec<u8>)
    requires
        w >= 1,
        c >= 1,
        w * c <= p@.len(),
        p@.len() as int % ((w as int) * (c as int)) == 0,
    ensures
        r@ == flip_cols_spec(p@, w as int, c as int),
{
    let n = p.len();
    proof {
        assert((w * c) as int == (w as int) * (c as int) && (w as int) * (c as int) >= 1)
            by (nonlinear_arith)
            requires
                w >= 1,
                c >= 1,
        ;
    }
    let rb: usize = w * c;
    let mut out: Vec<u8> = Vec::new();
    let mut j: usize = 0;
    while j < n
        invariant
            j <= n,
            n == p@.len(),
            rb == (w as int) * (c as int),
            rb >= 1,
            w >= 1,
            c >= 1,
            p@.len() as int % ((w as int) * (c as int)) == 0,
            out@.len() == j,
            forall|k: int| 0 <= k < j ==> out@[k] == p@[col_flip_index(k, w as int, c as int)],
        decreases n - j,
    {
        proof {
            lemma_col_flip_index_in_range(j as int, w as int, c as int, n as int);
            lemma_mod_division_less_than_divisor(j as int, rb as int);
            lemma_div_pos_is_pos(j as int, rb as int);
        }
        let r0 = j / rb;
        let within = j % rb;
        let col = within / c;
        let ch = within % c;
        let src = r0 * rb + (w - 1 - col) * c + ch;
        out.push(p[src]);
        j += 1;
    }
    proof {
        assert(out@ =~= flip_cols_spec(p@, w as int, c as int));
    }
    out
}

/// Drops the alpha byte of every RGBA pixel, keeping red, green and blue.
pub fn drop_alpha(p: &Vec<u8>) -> (r: Vec<u8>)
    ensures
        r@ == drop_alpha_spec(p@),
{
    let total = p.len();
    let n = total / 4 * 3;
    let mut out: Vec<u8> = Vec::new();
    let mut j: usize = 0;
    while j < n
        invariant
            j <= n,
            total == p@.len(),
            n == p@.len() / 4 * 3,
            out@.len() == j,
            forall|k: int| 0 <= k < j ==> out@[k] == p@[k / 3 * 4 + k % 3],
        decreases n - j,
    {
        proof {
            lemma_drop_alpha_index_in_range(j as int, p@.len() as int);
            assert((j as int) / 3 * 4 + (j as int) % 3 < p@.len());
        }
        let src = j / 3 * 4 + j % 3;
        out.push(p[src]);
        j += 1;
    }
    proof {
        assert(out@ =~= drop_alpha_spec(p@));
    }
    out
}

/// The channel count of a texture: four with an alpha channel, else three.
pub open spec fn channels_spec(has_alpha: bool) -> int {
    if has_alpha {
        4
    } else {
        3
    }
}

/// The pixel buffer a texture holds for a decoded RGBA image: alpha
/// dropped unless kept, then the requested horizontal and vertical flips.
pub open spec fn texture_pixels_spec(
    decoded: Seq<u8>,
    w: int,
    h: int,
    has_alpha: bool,
    flip_horizontal: bool,
    flip_vertical: bool,
) -> Seq<u8> {
    let c = channels_spec(has_alpha);
    let base = if has_alpha {
        decoded
    } else {
        drop_alpha_spec(decoded)
    };
    let mirrored = if flip_horizontal {
        flip_cols_spec(base, w, c)
    } else {
        base
    };
    if flip_vertical {
        flip_rows_spec(mirrored, w * c, h)
    } else {
        mirrored
    }
}

/// The errors texture creation can report.
#[derive(Clone, Copy, Debug, PartialEq, Eq, Structural)]
pub enum TextureError {
    /// The byte stream could not be decoded as an image.
    DecodeFailed,
}

/// How a sampler reads a texture on the device.
#[derive(Clone, Copy, Debug, PartialEq, Eq, Structural)]
pub enum WrapMode {
    Repeat,
    ClampToEdge,
}

/// How a sampler filters between texels.
#[derive(Clone, Copy, Debug, PartialEq, Eq, Structural)]
pub enum FilterMode {
    Linear,
    Nearest,
}

/// The sampling policy of every texture: it is fixed, not configurable
/// per instance.
#[derive(Clone, Copy, Debug, PartialEq, Eq, Structural)]
pub struct SamplerPolicy {
    pub wrap_s: WrapMode,
    pub wrap_t: WrapMode,
    pub min_filter: FilterMode,
    pub mag_filter: FilterMode,
    pub generate_mipmaps: bool,
}

/// One texture image, decoded, flipped as requested, and bound to a fixed
/// texture unit.  The rendering host uploads `pixels` unchanged.
#[derive(Debug)]
pub struct Texture2D {
    pub unit: u32,
    pub has_alpha: bool,
    pub flip_horizontal: bool,
    pub flip_vertical: bool,
    pub width: u32,
    pub height: u32,
    pub pixels: Vec<u8>,
}

impl Texture2D {
    /// The texture's structural invariant: the pixel buffer holds exactly
    /// its dimensions at its channel count.
    pub open spec fn wf(&self) -> bool {
        self.pixels@.len() == channels_spec(self.has_alpha) * self.width * self.height
    }

    /// Every texture wraps by repetition, filters linearly in both
    /// directions, and has mipmaps generated after upload.
    pub fn sampler_policy() -> (s: SamplerPolicy)
        ensures
            s == (SamplerPolicy {
                wrap_s: WrapMode::Repeat,
                wrap_t: WrapMode::Repeat,
                min_filter: FilterMode::Linear,
                mag_filter: FilterMode::Linear,
                generate_mipmaps: true,
            }),
    {
        SamplerPolicy {
            wrap_s: WrapMode::Repeat,
            wrap_t: WrapMode::Repeat,
            min_filter: FilterMode::Linear,
            mag_filter: FilterMode::Linear,
            generate_mipmaps: true,
        }
    }

    /// Decodes an encoded image and prepares its pixel buffer: succeeds
    /// exactly when the bytes decode, and then holds the decoded rows with
    /// alpha kept or dropped as `has_alpha` says and with the requested
    /// flips applied.
    pub fn from_encoded(
        bytes: &Vec<u8>,
        unit: u32,
        has_alpha: bool,
        flip_horizontal: bool,
        flip_vertical: bool,
    ) -> (r: Result<Texture2D, TextureError>)
        ensures
            r is Ok <==> decoded_rgba(bytes@) is Some,
            r is Err ==> r == Result::<Texture2D, TextureError>::Err(TextureError::DecodeFailed),
            r is Ok ==> ({
                let t = r->Ok_0;
                let d = decoded_rgba(bytes@)->Some_0;
                &&& t.wf()
                &&& t.unit == unit
                &&& t.has_alpha == has_alpha
                &&& t.flip_horizontal == flip_horizontal
                &&& t.flip_vertical == flip_vertical
                &&& t.width as nat == d.0
                &&& t.height as nat == d.1
                &&& t.pixels@ == texture_pixels_spec(
                    d.2,
                    d.0 as int,
                    d.1 as int,
                    has_alpha,
                    flip_horizontal,
                    flip_vertical,
                )
            }),
    {
        let decoded = decode_image_rgba(bytes);
        match decoded {
            None => Err(TextureError::DecodeFailed),
            Some((w, h, rgba)) => {
                proof {
                    lemma_decoded_length(rgba@.len() as int, w as int, h as int, has_alpha);
                }
                let c: usize = if has_alpha {
                    4
                } else {
                    3
                };
                let base: Vec<u8> = if has_alpha {
                    rgba
                } else {
                    drop_alpha(&rgba)
                };
                if base.len() == 0 {
                    proof {
                        lemma_empty_pixels(
                            decoded_rgba(bytes@)->Some_0.2,
                            w as int,
                            h as int,
                            has_alpha,
                            flip_horizontal,
                            flip_vertical,
                        );
                    }
                    Ok(
                        Texture2D {
                            unit,
                            has_alpha,
                            flip_horizontal,
                            flip_vertical,
                            width: w,
                            height: h,
                            pixels: base,
                        },
                    )
                } else {
                    proof {
                        assert((w as int) * (c as int) * (h as int) > 0 ==> w >= 1 && c >= 1 && h
                            >= 1) by (nonlinear_arith);
                        assert((w as int) * (c as int) <= (w as int) * (c as int) * (h as int))
                            by (nonlinear_arith)
                            requires
                                w >= 1 && c >= 1 && h >= 1,
                        ;
                        lemma_row_count(base@.len() as int, w as int, c as int, h as int);
                    }
                    let rb: usize = w as usize * c;
                    let mirrored: Vec<u8> = if flip_horizontal {
                        flip_cols(&base, w as usize, c)
                    } else {
                        base
                    };
                    let pixels: Vec<u8> = if flip_vertical {
                        flip_rows(&mirrored, rb, h as usize)
                    } else {
                        mirrored
                    };
                    Ok(
                        Texture2D {
                            unit,
                            has_alpha,
                            flip_horizontal,
                            flip_vertical,
                            width: w,
                            height: h,
                            pixels,
                        },
                    )
                }
            },
        }
    }
}

/// The base pixel buffer of a decoded image has the length its dimensions
/// and channel count call for.
proof fn lemma_decoded_length(len: int, w: int, h: int, has_alpha: bool)
    requires
        len == 4 * w * h,
        w >= 0,
        h >= 0,
    ensures
        len / 4 * 3 == 3 * w * h,
        channels_spec(true) * w * h == len,
        channels_spec(false) * w * h == len / 4 * 3,
{
    let wh = w * h;
    assert(len == 4 * wh && wh >= 0) by (nonlinear_arith)
        requires
            len == 4 * w * h,
            wh == w * h,
            w >= 0,
            h >= 0,
    ;
    lemma_div_multiples_vanish(wh, 4);
    assert(len / 4 == wh);
    assert(len / 4 * 3 == 3 * wh);
    assert(channels_spec(true) * w * h == 4 * w * h) by (nonlinear_arith)
        requires
            channels_spec(true) == 4,
    ;
    assert(channels_spec(false) * w * h == 3 * w * h && 3 * w * h == 3 * wh)
        by (nonlinear_arith)
        requires
            channels_spec(false) == 3,
            wh == w * h,
    ;
}

/// An empty base buffer passes through the flips unchanged.
proof fn lemma_empty_pixels(
    decoded: Seq<u8>,
    w: int,
    h: int,
    has_alpha: bool,
    flip_horizontal: bool,
    flip_vertical: bool,
)
    requires
        (if has_alpha {
            decoded
        } else {
            drop_alpha_spec(decoded)
        }).len() == 0,
    ensures
        texture_pixels_spec(decoded, w, h, has_alpha, flip_horizontal, flip_vertical) == (
        if has_alpha {
            decoded
        } else {
            drop_alpha_spec(decoded)
        }),
{
    let base = if has_alpha {
        decoded
    } else {
        drop_alpha_spec(decoded)
    };
    let c = channels_spec(has_alpha);
    assert(flip_cols_spec(base, w, c) =~= base);
    assert(flip_rows_spec(base, w * c, h) =~= base);
    assert(flip_rows_spec(flip_cols_spec(base, w, c), w * c, h) =~= base);
}

/// A non-empty base buffer is a whole number of rows.
proof fn lemma_row_count(len: int, w: int, c: int, h: int)
    requires
        len == c * w * h,
        w >= 1,
        c >= 1,
        h >= 1,
    ensures
        len == h * (w * c),
        len % (w * c) == 0,
{
    assert(len == h * (w * c)) by (nonlinear_arith)
        requires
            len == c * w * h,
    ;
    assert((w * c) >= 1) by (nonlinear_arith)
        requires
            w >= 1,
            c >= 1,
    ;
    vstd::arithmetic::div_mod::lemma_mod_multiples_basic(h, w * c);
}

/// Reversing the rows twice gives the original buffer back: the
/// row-reversed relation between two buffers is symmetric.
pub proof fn lemma_flip_rows_involution(p: Seq<u8>, row_bytes: int, rows: int)
    requires
        row_bytes >= 1,
        p.len() == rows * row_bytes,
    ensures
        flip_rows_spec(flip_rows_spec(p, row_bytes, rows), row_bytes, rows) == p,
{
    let f1 = flip_rows_spec(p, row_bytes, rows);
    assert forall|i: int| 0 <= i < p.len() implies flip_rows_spec(f1, row_bytes, rows)[i]
        == p[i] by {
        lemma_row_flip_index_in_range(i, row_bytes, rows);
        let q = i / row_bytes;
        let m = i % row_bytes;
        let j = row_flip_index(i, row_bytes, rows);
        lemma_row_flip_index_in_range(j, row_bytes, rows);
        vstd::arithmetic::div_mod::lemma_fundamental_div_mod_converse_mod(
            j,
            row_bytes,
            rows - 1 - q,
            m,
        );
        vstd::arithmetic::div_mod::lemma_fundamental_div_mod_converse_div(
            j,
            row_bytes,
            rows - 1 - q,
            m,
        );
        assert(j / row_bytes == rows - 1 - q && j % row_bytes == m);
        assert(row_flip_index(j, row_bytes, rows) == q * row_bytes + m);
        vstd::arithmetic::div_mod::lemma_fundamental_div_mod(i, row_bytes);
        assert(q * row_bytes + m == i) by (nonlinear_arith)
            requires
                i == row_bytes * q + m,
        ;
    }
    assert(flip_rows_spec(f1, row_bytes, rows) =~= p);
}

/// Creating the same image with and without the vertical flip gives pixel
/// buffers that are row-reversed copies of one another.
pub proof fn lemma_flip_vertical_reverses_rows(
    decoded: Seq<u8>,
    w: int,
    h: int,
    has_alpha: bool,
    flip_horizontal: bool,
)
    ensures
        texture_pixels_spec(decoded, w, h, has_alpha, flip_horizontal, true) == flip_rows_spec(
            texture_pixels_spec(decoded, w, h, has_alpha, flip_horizontal, false),
            w * channels_spec(has_alpha),
            h,
        ),
{
}

} // verus!
