use crate::color_format::ColorFormat;
use vstd::prelude::*;

verus! {

/// Size and pixel layout of an image.
#[derive(Debug, Clone, Copy, PartialEq, Eq, Structural)]
pub struct ImageGeometry {
    pub cx: usize,
    pub cy: usize,
    pub cf: ColorFormat,
}

/// Pixel rows of `stride` bytes each, with an optional palette.
#[derive(Debug, Clone)]
pub struct Image {
    pub data: Vec<u8>,
    pub stride: usize,
    pub palette: Vec<u32>,
}

/// The palette formats that can be expanded to 32-bit colour.
pub open spec fn is_palette_format(cf: ColorFormat) -> bool {
    cf == ColorFormat::PAL1 || cf == ColorFormat::PAL8
}

/// Smallest number of bytes that holds the indices of `cx` pixels.
pub open spec fn index_bytes(cf: ColorFormat, cx: nat) -> nat {
    if cf == ColorFormat::PAL1 {
        (cx + 7) / 8
    } else {
        cx
    }
}

/// Palette index of pixel `x` in a row of packed indices: one bit per pixel,
/// most significant bit first, for `PAL1`; one byte per pixel otherwise.
pub open spec fn pixel_index(cf: ColorFormat, row: Seq<u8>, x: nat) -> u8 {
    if cf == ColorFormat::PAL1 {
        (row[(x / 8) as int] >> ((7 - x % 8) as u8)) & 1u8
    } else {
        row[x as int]
    }
}

/// The four bytes red, green, blue, alpha of a `0x00RRGGBB` colour, fully opaque.
pub open spec fn rgba_of(color: u32) -> Seq<u8> {
    seq![(color / 65536 % 256) as u8, (color / 256 % 256) as u8, (color % 256) as u8, 255u8]
}

/// The colours of the first `n` pixels of a row, four bytes each.
pub open spec fn row_rgba(cf: ColorFormat, row: Seq<u8>, pal: Seq<u32>, n: nat) -> Seq<u8>
    decreases n,
{
    if n == 0 {
        Seq::empty()
    } else {
        row_rgba(cf, row, pal, (n - 1) as nat) + rgba_of(
            pal[pixel_index(cf, row, (n - 1) as nat) as int],
        )
    }
}

/// The colours of `rows` rows of `cx` pixels whose indices start at `pos`
/// and lie `stride` bytes apart.
pub open spec fn rgba_rows(
    cf: ColorFormat,
    src: Seq<u8>,
    stride: nat,
    cx: nat,
    pal: Seq<u32>,
    pos: nat,
    rows: nat,
) -> Seq<u8>
    decreases rows,
{
    if rows == 0 {
        Seq::empty()
    } else {
        row_rgba(cf, src.subrange(pos as int, (pos + stride) as int), pal, cx) + rgba_rows(
            cf,
            src,
            stride,
            cx,
            pal,
            pos + stride,
            (rows - 1) as nat,
        )
    }
}

/// Every pixel of those rows names an entry of the palette.
pub open spec fn rows_in_palette(
    cf: ColorFormat,
    src: Seq<u8>,
    stride: nat,
    cx: nat,
    pal: Seq<u32>,
    pos: nat,
    rows: nat,
) -> bool
    decreases rows,
{
    rows == 0 || ((forall|x: nat|
        x < cx ==> (#[trigger] pixel_index(cf, src.subrange(pos as int, (pos + stride) as int), x)) < pal.len())
        && rows_in_palette(cf, src, stride, cx, pal, pos + stride, (rows - 1) as nat))
}

/// What a palette image must satisfy to be expanded to 32-bit colour.
pub open spec fn palette_image_ok(src: Image, geo: ImageGeometry) -> bool {
    &&& is_palette_format(geo.cf)
    &&& src.stride >= index_bytes(geo.cf, geo.cx as nat)
    &&& src.data@.len() >= geo.cy * src.stride
    &&& geo.cx * 4 <= usize::MAX
    &&& rows_in_palette(geo.cf, src.data@, src.stride as nat, geo.cx as nat, src.palette@, 0, geo.cy as nat)
}

/// The 32-bit colour image that a palette image expands to.
pub open spec fn expanded(src: Image, geo: ImageGeometry) -> Seq<u8> {
    rgba_rows(geo.cf, src.data@, src.stride as nat, geo.cx as nat, src.palette@, 0, geo.cy as nat)
}

/// Bytes needed for `cy` rows of `stride` bytes.
pub fn make_buffersize(stride: usize, cy: usize) -> (r: usize)
    requires
        stride * cy <= usize::MAX,
    ensures
        r == stride * cy,
{
    stride * cy
}

proof fn lemma_next_row(y: nat, cy: nat, stride: nat)
    requires
        y < cy,
    ensures
        (y + 1) * stride == y * stride + stride,
        y * stride + stride <= cy * stride,
{
    assert((y + 1) * stride == y * stride + stride) by (nonlinear_arith);
    assert(y * stride + stride <= cy * stride) by (nonlinear_arith)
        requires
            y < cy,
    {}
}

/// Appends the colours of the `cx` pixels whose indices start at `pos`.
fn expand_row(out: &mut Vec<u8>, src: &Image, pos: usize, cx: usize, cf: ColorFormat)
    requires
        is_palette_format(cf),
        src.stride >= index_bytes(cf, cx as nat),
        pos + src.stride <= src.data@.len(),
        forall|x: nat|
            x < cx ==> (#[trigger] pixel_index(
                cf,
                src.data@.subrange(pos as int, pos + src.stride),
                x,
            )) < src.palette@.len(),
    ensures
        final(out)@ == old(out)@ + row_rgba(
            cf,
            src.data@.subrange(pos as int, pos + src.stride),
            src.palette@,
            cx as nat,
        ),
{
    let ghost row = src.data@.subrange(pos as int, pos + src.stride);
    let ghost base = out@;
    let len = src.data.len();
    let mut x: usize = 0;
    while x < cx
        invariant
            x <= cx,
            row == src.data@.subrange(pos as int, pos + src.stride),
            pos + src.stride <= src.data@.len(),
            src.stride >= index_bytes(cf, cx as nat),
            is_palette_format(cf),
            forall|x: nat| x < cx ==> (#[trigger] pixel_index(cf, row, x)) < src.palette@.len(),
            out@ == base + row_rgba(cf, row, src.palette@, x as nat),
            len == src.data@.len(),
        decreases cx - x,
    {
        if cf == ColorFormat::PAL1 {
            assert(x / 8 < (cx + 7) / 8);
        } else {
            assert(x < src.stride);
        }
        let idx: u8 = if cf == ColorFormat::PAL1 {
            (src.data[pos + x / 8] >> ((7 - x % 8) as u8)) & 1u8
        } else {
            src.data[pos + x]
        };
        assert(idx == pixel_index(cf, row, x as nat));
        assert(idx < src.palette@.len());
        let color = src.palette[idx as usize];
        out.push((color / 65536 % 256) as u8);
        out.push((color / 256 % 256) as u8);
        out.push((color % 256) as u8);
        out.push(255u8);
        proof {
            assert(row_rgba(cf, row, src.palette@, (x + 1) as nat) == row_rgba(
                cf,
                row,
                src.palette@,
                x as nat,
            ) + rgba_of(color));
            assert(out@ =~= base + row_rgba(cf, row, src.palette@, (x + 1) as nat));
        }
        x = x + 1;
    }
}

/// Expands a palette image in `PAL1` or `PAL8` to rows of red, green, blue
/// and alpha bytes.
fn expand_palette(src: &Image, geo: &ImageGeometry) -> (r: Image)
    requires
        palette_image_ok(*src, *geo),
    ensures
        r.data@ == expanded(*src, *geo),
        r.stride == geo.cx * 4,
        r.palette@.len() == 0,
{
    let mut out: Vec<u8> = Vec::new();
    let mut y: usize = 0;
    let mut pos: usize = 0;
    let ghost total = expanded(*src, *geo);
    let ghost stride = src.stride as nat;
    let len = src.data.len();
    while y < geo.cy
        invariant
            palette_image_ok(*src, *geo),
            total == expanded(*src, *geo),
            stride == src.stride,
            len == src.data@.len(),
            y <= geo.cy,
            pos == y * stride,
            rows_in_palette(geo.cf, src.data@, stride, geo.cx as nat, src.palette@, pos as nat, (geo.cy - y) as nat),
            out@ + rgba_rows(geo.cf, src.data@, stride, geo.cx as nat, src.palette@, pos as nat, (geo.cy - y) as nat) == total,
        decreases geo.cy - y,
    {
        proof {
            lemma_next_row(y as nat, geo.cy as nat, stride);
        }
        let ghost prev = out@;
        let ghost row = row_rgba(geo.cf, src.data@.subrange(pos as int, pos + stride), src.palette@, geo.cx as nat);
        let ghost rest = rgba_rows(geo.cf, src.data@, stride, geo.cx as nat, src.palette@, (pos + stride) as nat, (geo.cy - y - 1) as nat);
        expand_row(&mut out, src, pos, geo.cx, geo.cf);
        assert(out@ + rest =~= prev + (row + rest));
        assert(pos + stride <= src.data@.len());
        pos = pos + src.stride;
        y = y + 1;
    }
    Image { data: out, stride: geo.cx * 4, palette: Vec::new() }
}

/// Expands a one-bit palette image to rows of red, green, blue and alpha bytes.
pub fn pal1_to_rgb32(pal1: Image, geo: &ImageGeometry) -> (r: Image)
    requires
        geo.cf == ColorFormat::PAL1,
        palette_image_ok(pal1, *geo),
    ensures
        r.data@ == expanded(pal1, *geo),
        r.stride == geo.cx * 4,
        r.palette@.len() == 0,
{
    expand_palette(&pal1, geo)
}

/// Expands an eight-bit palette image to rows of red, green, blue and alpha bytes.
pub fn pal8_to_rgb32(pal8: Image, geo: &ImageGeometry) -> (r: Image)
    requires
        geo.cf == ColorFormat::PAL8,
        palette_image_ok(pal8, *geo),
    ensures
        r.data@ == expanded(pal8, *geo),
        r.stride == geo.cx * 4,
        r.palette@.len() == 0,
{
    expand_palette(&pal8, geo)
}

} // verus!
