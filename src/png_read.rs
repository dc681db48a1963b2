use crate::color_conversion::{
    Image, ImageGeometry, expanded, index_bytes, is_palette_format, pal1_to_rgb32,
    pal8_to_rgb32, palette_image_ok, pixel_index, rgba_rows, rows_in_palette,
};
use crate::color_format::{ColorFormat, stride_fits, stride_spec};
use crate::error::Error;
use vstd::prelude::*;

verus! {

/// Chunk type codes, the four ASCII letters read as a big-endian integer.
pub const IHDR: u32 = 0x4948_4452;
pub const IDAT: u32 = 0x4944_4154;
pub const IEND: u32 = 0x4945_4E44;
pub const PLTE: u32 = 0x504C_5445;

/// Offset of the first chunk after the image header chunk.
pub const FIRST_CHUNK: usize = 33;

/// Colour types that an image header can declare.
#[derive(Debug, Clone, Copy, PartialEq, Eq, Structural)]
pub enum PNGColorType {
    Greyscale,
    TrueColor,
    IndexedColor,
    GreyscaleAlpha,
    TrueColorAlpha,
}

/// Per-scanline filter methods.
#[derive(Debug, Clone, Copy, PartialEq, Eq, Structural)]
pub enum PNGFilterType {
    Unfiltered,
    Sub,
    Up,
    Average,
    Paeth,
}

/// The fields of an image header chunk.
#[derive(Debug, Clone, Copy, PartialEq, Eq, Structural)]
pub struct PNGChunkIHDR {
    pub width: u32,
    pub height: u32,
    pub bit_depth: u8,
    pub color_type: PNGColorType,
    pub compression: u8,
    pub filter: u8,
    pub interlace: u8,
}

pub open spec fn color_type_of(v: u8) -> Option<PNGColorType> {
    if v == 0 {
        Some(PNGColorType::Greyscale)
    } else if v == 2 {
        Some(PNGColorType::TrueColor)
    } else if v == 3 {
        Some(PNGColorType::IndexedColor)
    } else if v == 4 {
        Some(PNGColorType::GreyscaleAlpha)
    } else if v == 6 {
        Some(PNGColorType::TrueColorAlpha)
    } else {
        None
    }
}

pub open spec fn filter_type_of(v: u8) -> Option<PNGFilterType> {
    if v == 0 {
        Some(PNGFilterType::Unfiltered)
    } else if v == 1 {
        Some(PNGFilterType::Sub)
    } else if v == 2 {
        Some(PNGFilterType::Up)
    } else if v == 3 {
        Some(PNGFilterType::Average)
    } else if v == 4 {
        Some(PNGFilterType::Paeth)
    } else {
        None
    }
}

/// The pixel layout for a colour type and bit depth, if the pair is supported.
pub open spec fn color_format_of(ct: PNGColorType, depth: u8) -> Option<ColorFormat> {
    match ct {
        PNGColorType::IndexedColor => if depth == 1 {
            Some(ColorFormat::PAL1)
        } else if depth == 2 {
            Some(ColorFormat::PAL2)
        } else if depth == 4 {
            Some(ColorFormat::PAL4)
        } else if depth == 8 {
            Some(ColorFormat::PAL8)
        } else {
            None
        },
        PNGColorType::Greyscale => if depth == 1 {
            Some(ColorFormat::Y1)
        } else if depth == 2 {
            Some(ColorFormat::Y2)
        } else if depth == 4 {
            Some(ColorFormat::Y4)
        } else if depth == 8 {
            Some(ColorFormat::Y8)
        } else if depth == 16 {
            Some(ColorFormat::Y16)
        } else {
            None
        },
        PNGColorType::TrueColor => if depth == 8 {
            Some(ColorFormat::RGB0888)
        } else if depth == 16 {
            Some(ColorFormat::RGB0ggg)
        } else {
            None
        },
        PNGColorType::TrueColorAlpha => if depth == 4 {
            Some(ColorFormat::RGB4444)
        } else if depth == 8 {
            Some(ColorFormat::RGB8888)
        } else if depth == 16 {
            Some(ColorFormat::RGBgggg)
        } else {
            None
        },
        PNGColorType::GreyscaleAlpha => if depth == 8 {
            Some(ColorFormat::YA8)
        } else if depth == 16 {
            Some(ColorFormat::YA16)
        } else {
            None
        },
    }
}

pub fn color_type_from(v: u8) -> (r: Option<PNGColorType>)
    ensures
        r == color_type_of(v),
{
    match v {
        0 => Some(PNGColorType::Greyscale),
        2 => Some(PNGColorType::TrueColor),
        3 => Some(PNGColorType::IndexedColor),
        4 => Some(PNGColorType::GreyscaleAlpha),
        6 => Some(PNGColorType::TrueColorAlpha),
        _ => None,
    }
}

pub fn filter_type_from(v: u8) -> (r: Option<PNGFilterType>)
    ensures
        r == filter_type_of(v),
{
    match v {
        0 => Some(PNGFilterType::Unfiltered),
        1 => Some(PNGFilterType::Sub),
        2 => Some(PNGFilterType::Up),
        3 => Some(PNGFilterType::Average),
        4 => Some(PNGFilterType::Paeth),
        _ => None,
    }
}

/// The pixel layout that an image header declares, if it is supported.
pub fn map_color_format(ihdr: &PNGChunkIHDR) -> (r: Option<ColorFormat>)
    ensures
        r == color_format_of(ihdr.color_type, ihdr.bit_depth),
{
    match ihdr.color_type {
        PNGColorType::IndexedColor => match ihdr.bit_depth {
            1 => Some(ColorFormat::PAL1),
            2 => Some(ColorFormat::PAL2),
            4 => Some(ColorFormat::PAL4),
            8 => Some(ColorFormat::PAL8),
            _ => None,
        },
        PNGColorType::Greyscale => match ihdr.bit_depth {
            1 => Some(ColorFormat::Y1),
            2 => Some(ColorFormat::Y2),
            4 => Some(ColorFormat::Y4),
            8 => Some(ColorFormat::Y8),
            16 => Some(ColorFormat::Y16),
            _ => None,
        },
        PNGColorType::TrueColor => match ihdr.bit_depth {
            8 => Some(ColorFormat::RGB0888),
            16 => Some(ColorFormat::RGB0ggg),
            _ => None,
        },
        PNGColorType::TrueColorAlpha => match ihdr.bit_depth {
            4 => Some(ColorFormat::RGB4444),
            8 => Some(ColorFormat::RGB8888),
            16 => Some(ColorFormat::RGBgggg),
            _ => None,
        },
        PNGColorType::GreyscaleAlpha => match ihdr.bit_depth {
            8 => Some(ColorFormat::YA8),
            16 => Some(ColorFormat::YA16),
            _ => None,
        },
    }
}

/// The Paeth predictor: whichever of left, above and upper-left is closest
/// to `left + above - upper_left`, preferring left, then above.
pub open spec fn paeth_spec(a: u8, b: u8, c: u8) -> u8 {
    let p = a as int + b as int - c as int;
    let pa = if p >= a { p - a } else { a - p };
    let pb = if p >= b { p - b } else { b - p };
    let pc = if p >= c { p - c } else { c - p };
    if pa <= pb && pa <= pc {
        a
    } else if pb <= pc {
        b
    } else {
        c
    }
}

pub fn paeth(a: u8, b: u8, c: u8) -> (r: u8)
    ensures
        r == paeth_spec(a, b, c),
{
    let pa = if b >= c { (b - c) as u32 } else { (c - b) as u32 };
    let pb = if a >= c { (a - c) as u32 } else { (c - a) as u32 };
    let ab = a as u32 + b as u32;
    let c2 = 2 * c as u32;
    let pc = if ab >= c2 { ab - c2 } else { c2 - ab };

    if pc < pa && pc < pb {
        c
    } else if pb < pa {
        b
    } else {
        a
    }
}

/// The value that a filter adds back to a byte, from the reconstructed byte
/// to the left (`a`), the one above (`b`) and the one above-left (`c`).
pub open spec fn predictor(ft: PNGFilterType, a: u8, b: u8, c: u8) -> nat {
    match ft {
        PNGFilterType::Unfiltered => 0,
        PNGFilterType::Sub => a as nat,
        PNGFilterType::Up => b as nat,
        PNGFilterType::Average => (a as nat + b as nat) / 2,
        PNGFilterType::Paeth => paeth_spec(a, b, c) as nat,
    }
}

/// A reconstructed byte: the filtered byte plus its predictor, modulo 256.
pub open spec fn recon_spec(ft: PNGFilterType, x: u8, a: u8, b: u8, c: u8) -> u8 {
    ((x as nat + predictor(ft, a, b, c)) % 256) as u8
}

/// The reconstruction of a filtered scanline, given the reconstructed
/// scanline above it (all zero for the first one); one byte per pixel unit.
pub open spec fn unfilter_row(ft: PNGFilterType, filt: Seq<u8>, prior: Seq<u8>) -> Seq<u8>
    decreases filt.len(),
{
    if filt.len() == 0 {
        Seq::empty()
    } else {
        let i = filt.len() - 1;
        let head = unfilter_row(ft, filt.drop_last(), prior);
        let a = if i == 0 { 0u8 } else { head[i - 1] };
        let c = if i == 0 { 0u8 } else { prior[i - 1] };
        head.push(recon_spec(ft, filt[i], a, prior[i], c))
    }
}

/// A scanline of `n` zero bytes: what lies above the first one.
pub open spec fn zero_row(n: nat) -> Seq<u8> {
    Seq::new(n, |i: int| 0u8)
}

/// The reconstruction of `rows` scanlines of `stride` bytes, each preceded
/// by its filter type byte, starting at `pos` below the scanline `prior`;
/// `None` on an unknown filter type or where the data ends early.
pub open spec fn unfilter_rows(
    data: Seq<u8>,
    stride: nat,
    pos: nat,
    prior: Seq<u8>,
    rows: nat,
) -> Option<Seq<u8>>
    decreases rows,
{
    if rows == 0 {
        Some(Seq::empty())
    } else if pos + 1 + stride > data.len() {
        None
    } else {
        match filter_type_of(data[pos as int]) {
            None => None,
            Some(ft) => {
                let row = unfilter_row(ft, data.subrange((pos + 1) as int, (pos + 1 + stride) as int), prior);
                match unfilter_rows(data, stride, pos + 1 + stride, row, (rows - 1) as nat) {
                    Some(rest) => Some(row + rest),
                    None => None,
                }
            },
        }
    }
}

proof fn lemma_unfilter_row_len(ft: PNGFilterType, filt: Seq<u8>, prior: Seq<u8>)
    ensures
        unfilter_row(ft, filt, prior).len() == filt.len(),
    decreases filt.len(),
{
    if filt.len() > 0 {
        lemma_unfilter_row_len(ft, filt.drop_last(), prior);
    }
}

fn recon(ft: PNGFilterType, x: u8, a: u8, b: u8, c: u8) -> (r: u8)
    ensures
        r == recon_spec(ft, x, a, b, c),
{
    let p: u32 = match ft {
        PNGFilterType::Unfiltered => 0,
        PNGFilterType::Sub => a as u32,
        PNGFilterType::Up => b as u32,
        PNGFilterType::Average => (a as u32 + b as u32) / 2,
        PNGFilterType::Paeth => paeth(a, b, c) as u32,
    };
    ((x as u32 + p) % 256) as u8
}

/// Appends the reconstruction of the first scanline, whose `cx` filtered
/// bytes start at `start`.
fn unfilter_scanline0_byte1(
    out: &mut Vec<u8>,
    data: &[u8],
    start: usize,
    filter_type: PNGFilterType,
    cx: usize,
)
    requires
        start + cx <= data@.len(),
    ensures
        final(out)@ == old(out)@ + unfilter_row(
            filter_type,
            data@.subrange(start as int, start + cx),
            zero_row(cx as nat),
        ),
{
    let ghost filt = data@.subrange(start as int, start + cx);
    let ghost prior = zero_row(cx as nat);
    let ghost base = out@;
    let len = data.len();
    let mut i: usize = 0;
    while i < cx
        invariant
            i <= cx,
            len == data@.len(),
            start + cx <= data@.len(),
            filt == data@.subrange(start as int, start + cx),
            prior == zero_row(cx as nat),
            out@ == base + unfilter_row(filter_type, filt.subrange(0, i as int), prior),
        decreases cx - i,
    {
        proof {
            lemma_unfilter_row_len(filter_type, filt.subrange(0, i as int), prior);
            assert(filt.subrange(0, i + 1).drop_last() =~= filt.subrange(0, i as int));
        }
        let a: u8 = if i == 0 { 0 } else { out[out.len() - 1] };
        let v = recon(filter_type, data[start + i], a, 0, 0);
        out.push(v);
        assert(out@ =~= base + unfilter_row(filter_type, filt.subrange(0, i + 1), prior));
        i = i + 1;
    }
    assert(filt.subrange(0, cx as int) =~= filt);
}

/// Appends the reconstruction of a later scanline, whose `cx` filtered bytes
/// start at `start`; the scanline above is the last `cx` bytes of `out`.
fn unfilter_scanline_n_byte1(
    out: &mut Vec<u8>,
    data: &[u8],
    start: usize,
    filter_type: PNGFilterType,
    cx: usize,
)
    requires
        start + cx <= data@.len(),
        old(out)@.len() >= cx,
    ensures
        final(out)@ == old(out)@ + unfilter_row(
            filter_type,
            data@.subrange(start as int, start + cx),
            old(out)@.subrange(old(out)@.len() - cx, old(out)@.len() as int),
        ),
{
    let ghost filt = data@.subrange(start as int, start + cx);
    let ghost base = out@;
    let prior_start = out.len() - cx;
    let ghost prior = base.subrange(prior_start as int, base.len() as int);
    let len = data.len();
    let mut i: usize = 0;
    while i < cx
        invariant
            i <= cx,
            len == data@.len(),
            start + cx <= data@.len(),
            base.len() >= cx,
            prior_start == base.len() - cx,
            filt == data@.subrange(start as int, start + cx),
            prior == base.subrange(prior_start as int, base.len() as int),
            out@ == base + unfilter_row(filter_type, filt.subrange(0, i as int), prior),
        decreases cx - i,
    {
        proof {
            lemma_unfilter_row_len(filter_type, filt.subrange(0, i as int), prior);
            assert(filt.subrange(0, i + 1).drop_last() =~= filt.subrange(0, i as int));
        }
        let a: u8 = if i == 0 { 0 } else { out[out.len() - 1] };
        let b: u8 = out[prior_start + i];
        let c: u8 = if i == 0 { 0 } else { out[prior_start + i - 1] };
        let v = recon(filter_type, data[start + i], a, b, c);
        out.push(v);
        assert(out@ =~= base + unfilter_row(filter_type, filt.subrange(0, i + 1), prior));
        i = i + 1;
    }
    assert(filt.subrange(0, cx as int) =~= filt);
}

/// Reconstructs `cy` filtered scanlines of `stride` bytes each; `None` on an
/// unknown filter type or where the data ends early.
pub fn unfilter_byte1(data: &[u8], stride: usize, cy: usize) -> (r: Option<Vec<u8>>)
    ensures
        match r {
            Some(v) => unfilter_rows(data@, stride as nat, 0, zero_row(stride as nat), cy as nat)
                == Some(v@),
            None => unfilter_rows(data@, stride as nat, 0, zero_row(stride as nat), cy as nat) is None,
        },
{
    let ghost total = unfilter_rows(data@, stride as nat, 0, zero_row(stride as nat), cy as nat);
    let len = data.len();
    let mut out: Vec<u8> = Vec::new();
    let mut pos: usize = 0;
    let mut y: usize = 0;
    let ghost mut prior = zero_row(stride as nat);
    while y < cy
        invariant
            y <= cy,
            pos <= len,
            len == data@.len(),
            total == unfilter_rows(data@, stride as nat, 0, zero_row(stride as nat), cy as nat),
            y == 0 ==> prior == zero_row(stride as nat) && out@.len() == 0,
            y > 0 ==> out@.len() >= stride && prior == out@.subrange(
                out@.len() - stride,
                out@.len() as int,
            ),
            total == match unfilter_rows(data@, stride as nat, pos as nat, prior, (cy - y) as nat) {
                Some(rest) => Some(out@ + rest),
                None => None,
            },
        decreases cy - y,
    {
        if len - pos < 1 || len - pos - 1 < stride {
            return None;
        }
        let ft = match filter_type_from(data[pos]) {
            Some(ft) => ft,
            None => {
                return None;
            },
        };
        let ghost prev = out@;
        let ghost row = unfilter_row(ft, data@.subrange(pos + 1, pos + 1 + stride), prior);
        let ghost rest = unfilter_rows(data@, stride as nat, (pos + 1 + stride) as nat, row, (cy - y - 1) as nat);
        if y == 0 {
            unfilter_scanline0_byte1(&mut out, data, pos + 1, ft, stride);
        } else {
            unfilter_scanline_n_byte1(&mut out, data, pos + 1, ft, stride);
        }
        proof {
            lemma_unfilter_row_len(ft, data@.subrange(pos + 1, pos + 1 + stride), prior);
            assert(out@ == prev + row);
            assert(row =~= out@.subrange(out@.len() - stride, out@.len() as int));
            if let Some(rs) = rest {
                assert(prev + (row + rs) =~= out@ + rs);
            }
            prior = row;
        }
        pos = pos + 1 + stride;
        y = y + 1;
    }
    Some(out)
}

/// What zlib decompression of `input` yields when the output may hold at
/// most `limit` bytes; `None` when the stream is malformed or longer.
pub uninterp spec fn zlib_inflated(input: Seq<u8>, limit: nat) -> Option<Seq<u8>>;

/// Relies on `miniz_oxide::inflate::decompress_to_vec_zlib_with_limit`: it
/// decodes a zlib stream, fails when the output would exceed `limit`, and
/// depends on its two arguments alone.
#[verifier::external_body]
fn inflate_zlib(input: &[u8], limit: usize) -> (r: Option<Vec<u8>>)
    ensures
        match r {
            Some(v) => zlib_inflated(input@, limit as nat) == Some(v@) && v@.len() <= limit,
            None => zlib_inflated(input@, limit as nat) is None,
        },
{
    miniz_oxide::inflate::decompress_to_vec_zlib_with_limit(input, limit).ok()
}

/// The number of filtered bytes behind a geometry (a filter type byte and a
/// packed scanline per row), when it and the 32-bit colour stride fit in a `usize`.
pub open spec fn raw_size(geo: ImageGeometry) -> Option<nat> {
    let stride = stride_spec(geo.cf, geo.cx as nat, 1);
    if stride_fits(geo.cf, geo.cx as nat, 1) && stride + 1 <= usize::MAX && geo.cy * (stride
        + 1) <= usize::MAX && geo.cx * 4 <= usize::MAX {
        Some((geo.cy * (stride + 1)) as nat)
    } else {
        None
    }
}

/// The 32-bit colour rows, and their stride, decoded from inflated image data.
pub open spec fn decode_spec(d: Seq<u8>, plte: Seq<u32>, geo: ImageGeometry) -> Result<
    (Seq<u8>, nat),
    Error,
> {
    let stride = stride_spec(geo.cf, geo.cx as nat, 1);
    match raw_size(geo) {
        None => Err(Error::InvalidPng),
        Some(n) => if d.len() != n {
            Err(Error::InvalidPng)
        } else if !is_palette_format(geo.cf) {
            Err(Error::InvalidColorFormat)
        } else {
            match unfilter_rows(d, stride, 0, zero_row(stride), geo.cy as nat) {
                None => Err(Error::InvalidPng),
                Some(px) => if rows_in_palette(geo.cf, px, stride, geo.cx as nat, plte, 0, geo.cy as nat) {
                    Ok((rgba_rows(geo.cf, px, stride, geo.cx as nat, plte, 0, geo.cy as nat), (geo.cx * 4) as nat))
                } else {
                    Err(Error::InvalidPng)
                },
            }
        },
    }
}

/// The 32-bit colour rows, and their stride, decoded from compressed image data.
pub open spec fn idat_spec(idat: Seq<u8>, plte: Seq<u32>, geo: ImageGeometry) -> Result<
    (Seq<u8>, nat),
    Error,
> {
    match raw_size(geo) {
        None => Err(Error::InvalidPng),
        Some(n) => match zlib_inflated(idat, n) {
            None => Err(Error::InvalidBitstream),
            Some(d) => decode_spec(d, plte, geo),
        },
    }
}

/// The pixel rows and stride of a decoded image, or the error.
pub open spec fn image_result(r: Result<Image, Error>) -> Result<(Seq<u8>, nat), Error> {
    match r {
        Ok(img) => Ok((img.data@, img.stride as nat)),
        Err(e) => Err(e),
    }
}

proof fn lemma_unfilter_rows_len(data: Seq<u8>, stride: nat, pos: nat, prior: Seq<u8>, rows: nat)
    ensures
        unfilter_rows(data, stride, pos, prior, rows) matches Some(v) ==> v.len() == rows * stride,
    decreases rows,
{
    if rows == 0 {
        assert(rows * stride == 0);
    } else if pos + 1 + stride <= data.len() {
        if let Some(ft) = filter_type_of(data[pos as int]) {
            let row = unfilter_row(ft, data.subrange((pos + 1) as int, (pos + 1 + stride) as int), prior);
            lemma_unfilter_row_len(ft, data.subrange((pos + 1) as int, (pos + 1 + stride) as int), prior);
            lemma_unfilter_rows_len(data, stride, pos + 1 + stride, row, (rows - 1) as nat);
            assert(row.len() == stride);
            assert((rows - 1) as nat * stride + stride == rows * stride) by (nonlinear_arith)
                requires
                    rows > 0,
            {}
        }
    }
}

/// Whether every pixel of `cy` rows of `stride` bytes names a palette entry.
fn indices_in_palette(px: &Vec<u8>, stride: usize, geo: &ImageGeometry, plte: &Vec<u32>) -> (r: bool)
    requires
        is_palette_format(geo.cf),
        stride >= index_bytes(geo.cf, geo.cx as nat),
        px@.len() >= geo.cy * stride,
    ensures
        r == rows_in_palette(geo.cf, px@, stride as nat, geo.cx as nat, plte@, 0, geo.cy as nat),
{
    let len = px.len();
    let mut y: usize = 0;
    let mut pos: usize = 0;
    while y < geo.cy
        invariant
            is_palette_format(geo.cf),
            stride >= index_bytes(geo.cf, geo.cx as nat),
            px@.len() >= geo.cy * stride,
            len == px@.len(),
            y <= geo.cy,
            pos == y * stride,
            rows_in_palette(geo.cf, px@, stride as nat, geo.cx as nat, plte@, 0, geo.cy as nat)
                == rows_in_palette(geo.cf, px@, stride as nat, geo.cx as nat, plte@, pos as nat, (geo.cy - y) as nat),
        decreases geo.cy - y,
    {
        assert((y + 1) * stride == y * stride + stride && y * stride + stride <= geo.cy * stride) by (nonlinear_arith)
            requires
                y < geo.cy,
        {}
        let ghost row = px@.subrange(pos as int, pos + stride);
        let mut x: usize = 0;
        while x < geo.cx
            invariant
                is_palette_format(geo.cf),
                stride >= index_bytes(geo.cf, geo.cx as nat),
                pos + stride <= px@.len(),
                len == px@.len(),
                x <= geo.cx,
                row == px@.subrange(pos as int, pos + stride),
                forall|i: nat| i < x ==> (#[trigger] pixel_index(geo.cf, row, i)) < plte@.len(),
                y < geo.cy,
                pos == y * stride,
                rows_in_palette(geo.cf, px@, stride as nat, geo.cx as nat, plte@, 0, geo.cy as nat)
                    == rows_in_palette(geo.cf, px@, stride as nat, geo.cx as nat, plte@, pos as nat, (geo.cy - y) as nat),
            decreases geo.cx - x,
        {
            if geo.cf == ColorFormat::PAL1 {
                assert(x / 8 < (geo.cx + 7) / 8);
            }
            let idx: u8 = if geo.cf == ColorFormat::PAL1 {
                (px[pos + x / 8] >> ((7 - x % 8) as u8)) & 1u8
            } else {
                px[pos + x]
            };
            assert(idx == pixel_index(geo.cf, row, x as nat));
            if idx as usize >= plte.len() {
                proof {
                    let rows = (geo.cy - y) as nat;
                    assert(rows > 0);
                    assert(!(pixel_index(geo.cf, row, x as nat) < plte@.len()));
                    assert(!rows_in_palette(geo.cf, px@, stride as nat, geo.cx as nat, plte@, pos as nat, rows));
                }
                return false;
            }
            x = x + 1;
        }
        pos = pos + stride;
        y = y + 1;
    }
    true
}

/// The packed stride of a geometry and its filtered size, as `raw_size` says.
fn buffer_layout(geo: &ImageGeometry) -> (r: Option<(usize, usize)>)
    ensures
        match r {
            Some((stride, size)) => stride == stride_spec(geo.cf, geo.cx as nat, 1) && raw_size(*geo)
                == Some(size as nat),
            None => raw_size(*geo) is None,
        },
{
    let stride = match geo.cf.stride(geo.cx, 1) {
        Some(s) => s,
        None => {
            return None;
        },
    };
    let row_bytes = match stride.checked_add(1) {
        Some(n) => n,
        None => {
            return None;
        },
    };
    let size = match geo.cy.checked_mul(row_bytes) {
        Some(n) => n,
        None => {
            return None;
        },
    };
    if geo.cx > usize::MAX / 4 {
        return None;
    }
    Some((stride, size))
}

/// Decodes inflated image data: reconstructs the filtered scanlines and
/// expands the palette indices to 32-bit colour.
pub fn decode_inflated(data: &[u8], plte: Vec<u32>, geo: &ImageGeometry) -> (r: Result<Image, Error>)
    ensures
        image_result(r) == decode_spec(data@, plte@, *geo),
        r matches Ok(img) ==> img.palette@.len() == 0,
{
    let (stride, size) = match buffer_layout(geo) {
        Some(layout) => layout,
        None => {
            return Err(Error::InvalidPng);
        },
    };
    if data.len() != size {
        return Err(Error::InvalidPng);
    }
    if geo.cf != ColorFormat::PAL1 && geo.cf != ColorFormat::PAL8 {
        return Err(Error::InvalidColorFormat);
    }
    let px = match unfilter_byte1(data, stride, geo.cy) {
        Some(px) => px,
        None => {
            return Err(Error::InvalidPng);
        },
    };
    proof {
        lemma_unfilter_rows_len(data@, stride as nat, 0, zero_row(stride as nat), geo.cy as nat);
        assert(stride >= index_bytes(geo.cf, geo.cx as nat));
    }
    if !indices_in_palette(&px, stride, geo, &plte) {
        return Err(Error::InvalidPng);
    }
    let img = Image { data: px, stride, palette: plte };
    if geo.cf == ColorFormat::PAL1 {
        Ok(pal1_to_rgb32(img, geo))
    } else {
        Ok(pal8_to_rgb32(img, geo))
    }
}

/// Decodes compressed image data: inflates it to the size that the geometry
/// asks for, then decodes the scanlines.
pub fn decode_idat(idat: &[u8], plte: Vec<u32>, geo: &ImageGeometry) -> (r: Result<Image, Error>)
    ensures
        image_result(r) == idat_spec(idat@, plte@, *geo),
        r matches Ok(img) ==> img.palette@.len() == 0,
{
    let (stride, size) = match buffer_layout(geo) {
        Some(layout) => layout,
        None => {
            return Err(Error::InvalidPng);
        },
    };
    match inflate_zlib(idat, size) {
        Some(data) => decode_inflated(data.as_slice(), plte, geo),
        None => Err(Error::InvalidBitstream),
    }
}

/// The big-endian 32-bit integer at `i`.
pub open spec fn be32(s: Seq<u8>, i: int) -> nat {
    s[i] as nat * 16777216 + s[i + 1] as nat * 65536 + s[i + 2] as nat * 256 + s[i + 3] as nat
}

/// The eight bytes every PNG file starts with.
pub open spec fn png_signature() -> Seq<u8> {
    seq![137u8, 80u8, 78u8, 71u8, 13u8, 10u8, 26u8, 10u8]
}

/// A header whose fields the decoder accepts.
pub open spec fn header_ok(h: PNGChunkIHDR) -> bool {
    &&& h.width != 0
    &&& h.height != 0
    &&& h.bit_depth != 0
    &&& h.compression == 0
    &&& h.filter == 0
    &&& h.interlace <= 1
}

/// The image geometry that a file's signature and leading header chunk
/// declare, when both are well formed and the pixel layout is supported.
pub open spec fn header_spec(s: Seq<u8>) -> Option<ImageGeometry> {
    if s.len() < FIRST_CHUNK || s.subrange(0, 8) != png_signature() || be32(s, 8) != 13 || be32(s, 12)
        != IHDR {
        None
    } else {
        match color_type_of(s[25]) {
            None => None,
            Some(ct) => {
                let h = PNGChunkIHDR {
                    width: be32(s, 16) as u32,
                    height: be32(s, 20) as u32,
                    bit_depth: s[24],
                    color_type: ct,
                    compression: s[26],
                    filter: s[27],
                    interlace: s[28],
                };
                if !header_ok(h) {
                    None
                } else {
                    match color_format_of(ct, s[24]) {
                        None => None,
                        Some(cf) => Some(
                            ImageGeometry { cx: h.width as usize, cy: h.height as usize, cf },
                        ),
                    }
                }
            },
        }
    }
}

/// A palette colour `0x00RRGGBB`.
pub open spec fn palette_entry(r: u8, g: u8, b: u8) -> u32 {
    (r as nat * 65536 + g as nat * 256 + b as nat) as u32
}

/// The colours of a palette chunk: three bytes, red, green and blue, each.
pub open spec fn palette_of(body: Seq<u8>) -> Seq<u32> {
    Seq::new(
        body.len() / 3,
        |k: int| palette_entry(body[3 * k], body[3 * k + 1], body[3 * k + 2]),
    )
}

/// The compressed image data and the palette gathered from the chunks that
/// start at `pos`, up to the `IEND` chunk; every chunk but `IEND` must hold
/// its data and its four check bytes.
pub open spec fn chunks_spec(s: Seq<u8>, pos: nat, idat: Seq<u8>, plte: Seq<u32>) -> Result<
    (Seq<u8>, Seq<u32>),
    Error,
>
    decreases s.len() - pos,
{
    if pos >= s.len() {
        Err(Error::PngIendMissing)
    } else if pos + 8 > s.len() {
        Err(Error::InvalidPng)
    } else {
        let len = be32(s, pos as int);
        let ty = be32(s, (pos + 4) as int);
        if ty == IEND {
            Ok((idat, plte))
        } else if pos + 12 + len > s.len() {
            Err(Error::InvalidPng)
        } else {
            let body = s.subrange((pos + 8) as int, (pos + 8 + len) as int);
            let next = pos + 12 + len;
            if ty == IDAT {
                chunks_spec(s, next, idat + body, plte)
            } else if ty == PLTE {
                if len % 3 != 0 || len > 768 {
                    Err(Error::InvalidPng)
                } else {
                    chunks_spec(s, next, idat, plte + palette_of(body))
                }
            } else {
                chunks_spec(s, next, idat, plte)
            }
        }
    }
}

/// The geometry, compressed data and palette of a PNG file.
pub open spec fn png_parts(s: Seq<u8>) -> Result<(ImageGeometry, Seq<u8>, Seq<u32>), Error> {
    match header_spec(s) {
        None => Err(Error::InvalidPng),
        Some(geo) => match chunks_spec(s, FIRST_CHUNK as nat, Seq::empty(), Seq::empty()) {
            Err(e) => Err(e),
            Ok((idat, plte)) => Ok((geo, idat, plte)),
        },
    }
}

/// The 32-bit colour rows, and their stride, that a PNG file decodes to.
pub open spec fn png_spec(s: Seq<u8>) -> Result<(Seq<u8>, nat), Error> {
    match png_parts(s) {
        Err(e) => Err(e),
        Ok((geo, idat, plte)) => idat_spec(idat, plte, geo),
    }
}

fn read_be32(s: &[u8], i: usize) -> (r: u32)
    requires
        i + 4 <= s@.len(),
    ensures
        r == be32(s@, i as int),
{
    (s[i] as u32) * 16777216 + (s[i + 1] as u32) * 65536 + (s[i + 2] as u32) * 256 + (s[i
        + 3] as u32)
}

fn append_bytes(out: &mut Vec<u8>, src: &[u8], start: usize, end: usize)
    requires
        start <= end <= src@.len(),
    ensures
        final(out)@ == old(out)@ + src@.subrange(start as int, end as int),
{
    let ghost base = out@;
    let mut i = start;
    while i < end
        invariant
            start <= i <= end <= src@.len(),
            out@ == base + src@.subrange(start as int, i as int),
        decreases end - i,
    {
        out.push(src[i]);
        assert(out@ =~= base + src@.subrange(start as int, i + 1));
        i = i + 1;
    }
}

fn append_palette(plte: &mut Vec<u32>, src: &[u8], start: usize, len: usize)
    requires
        start + len <= src@.len(),
        len % 3 == 0,
    ensures
        final(plte)@ == old(plte)@ + palette_of(src@.subrange(start as int, start + len)),
{
    let ghost base = plte@;
    let ghost body = src@.subrange(start as int, start + len);
    let n = src.len();
    let mut k: usize = 0;
    while k < len / 3
        invariant
            n == src@.len(),
            start + len <= src@.len(),
            len % 3 == 0,
            k <= len / 3,
            body == src@.subrange(start as int, start + len),
            plte@ == base + palette_of(body).subrange(0, k as int),
        decreases len / 3 - k,
    {
        let r = src[start + 3 * k];
        let g = src[start + 3 * k + 1];
        let b = src[start + 3 * k + 2];
        plte.push((r as u32) * 65536 + (g as u32) * 256 + (b as u32));
        assert(plte@ =~= base + palette_of(body).subrange(0, k + 1));
        k = k + 1;
    }
    assert(palette_of(body).subrange(0, (len / 3) as int) =~= palette_of(body));
}

/// Reads the image header; `None` where the signature or header chunk is
/// malformed or the pixel layout is unsupported.
fn read_header(png: &[u8]) -> (r: Option<ImageGeometry>)
    ensures
        r == header_spec(png@),
{
    if png.len() < FIRST_CHUNK {
        return None;
    }
    if !(png[0] == 137 && png[1] == 80 && png[2] == 78 && png[3] == 71 && png[4] == 13 && png[5]
        == 10 && png[6] == 26 && png[7] == 10) {
        assert(png@.subrange(0, 8) != png_signature()) by {
            if png@.subrange(0, 8) == png_signature() {
                assert(png@.subrange(0, 8)[0] == png@[0]);
                assert(png@[0] == png_signature()[0]);
                assert(png@[1] == png@.subrange(0, 8)[1]);
                assert(png@[2] == png@.subrange(0, 8)[2]);
                assert(png@[3] == png@.subrange(0, 8)[3]);
                assert(png@[4] == png@.subrange(0, 8)[4]);
                assert(png@[5] == png@.subrange(0, 8)[5]);
                assert(png@[6] == png@.subrange(0, 8)[6]);
                assert(png@[7] == png@.subrange(0, 8)[7]);
            }
        }
        return None;
    }
    assert(png@.subrange(0, 8) =~= png_signature());
    if read_be32(png, 8) != 13 || read_be32(png, 12) != IHDR {
        return None;
    }
    let color_type = match color_type_from(png[25]) {
        Some(ct) => ct,
        None => {
            return None;
        },
    };
    let ihdr = PNGChunkIHDR {
        width: read_be32(png, 16),
        height: read_be32(png, 20),
        bit_depth: png[24],
        color_type,
        compression: png[26],
        filter: png[27],
        interlace: png[28],
    };
    if ihdr.width == 0 || ihdr.height == 0 || ihdr.bit_depth == 0 || ihdr.compression != 0
        || ihdr.filter != 0 || ihdr.interlace > 1 {
        return None;
    }
    match map_color_format(&ihdr) {
        Some(cf) => Some(ImageGeometry { cx: ihdr.width as usize, cy: ihdr.height as usize, cf }),
        None => None,
    }
}

/// Gathers the compressed image data and the palette from the chunks that
/// follow the image header.
fn read_chunks(png: &[u8]) -> (r: Result<(Vec<u8>, Vec<u32>), Error>)
    requires
        png@.len() >= FIRST_CHUNK,
    ensures
        match r {
            Ok((idat, plte)) => chunks_spec(png@, FIRST_CHUNK as nat, Seq::empty(), Seq::empty())
                == Ok::<(Seq<u8>, Seq<u32>), Error>((idat@, plte@)),
            Err(e) => chunks_spec(png@, FIRST_CHUNK as nat, Seq::empty(), Seq::empty()) == Err::<
                (Seq<u8>, Seq<u32>),
                Error,
            >(e),
        },
{
    let ghost total = chunks_spec(png@, FIRST_CHUNK as nat, Seq::empty(), Seq::empty());
    let len = png.len();
    let mut idat: Vec<u8> = Vec::new();
    let mut plte: Vec<u32> = Vec::new();
    let mut pos: usize = FIRST_CHUNK;
    while pos < len
        invariant
            len == png@.len(),
            pos <= len,
            total == chunks_spec(png@, FIRST_CHUNK as nat, Seq::empty(), Seq::empty()),
            total == chunks_spec(png@, pos as nat, idat@, plte@),
        decreases len - pos,
    {
        if len - pos < 8 {
            return Err(Error::InvalidPng);
        }
        let length = read_be32(png, pos);
        let chunk_type = read_be32(png, pos + 4);
        if chunk_type == IEND {
            return Ok((idat, plte));
        }
        if len - pos - 8 < 4 || len - pos - 12 < length as usize {
            return Err(Error::InvalidPng);
        }
        let start = pos + 8;
        let end = start + length as usize;
        if chunk_type == IDAT {
            append_bytes(&mut idat, png, start, end);
        } else if chunk_type == PLTE {
            if length % 3 != 0 || length > 768 {
                return Err(Error::InvalidPng);
            }
            append_palette(&mut plte, png, start, length as usize);
        }
        pos = end + 4;
    }
    Err(Error::PngIendMissing)
}

/// Decodes a PNG file with a one- or eight-bit palette to rows of red,
/// green, blue and alpha bytes.
pub fn png_read(png: &[u8]) -> (r: Result<Image, Error>)
    ensures
        image_result(r) == png_spec(png@),
        r matches Ok(img) ==> img.palette@.len() == 0,
{
    let geo = match read_header(png) {
        Some(geo) => geo,
        None => {
            return Err(Error::InvalidPng);
        },
    };
    let (idat, plte) = match read_chunks(png) {
        Ok(parts) => parts,
        Err(e) => {
            return Err(e);
        },
    };
    decode_idat(idat.as_slice(), plte, &geo)
}

} // verus!
