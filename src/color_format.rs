use vstd::prelude::*;

verus! {

/// Pixel layouts that images can be stored in.
#[allow(non_camel_case_types)]
#[derive(Debug, Clone, Copy, PartialEq, Eq, Structural)]
pub enum ColorFormat {
    PAL1,
    PAL2,
    PAL4,
    PAL8,
    Y1,
    Y2,
    Y4,
    Y8,
    Y16,
    YA8,
    YA16,
    RGB0888,
    RGB0ggg,
    RGB4444,
    RGB8888,
    RGBgggg,
    YCbCr420,
}

/// Number of bits that one pixel occupies in a packed scanline.
pub open spec fn bits_per_pixel(cf: ColorFormat) -> nat {
    match cf {
        ColorFormat::PAL1 | ColorFormat::Y1 => 1,
        ColorFormat::PAL2 | ColorFormat::Y2 => 2,
        ColorFormat::PAL4 | ColorFormat::Y4 => 4,
        ColorFormat::PAL8 | ColorFormat::Y8 | ColorFormat::YCbCr420 => 8,
        ColorFormat::Y16 | ColorFormat::YA8 | ColorFormat::RGB4444 => 16,
        ColorFormat::RGB0888 => 24,
        ColorFormat::YA16 | ColorFormat::RGB8888 => 32,
        ColorFormat::RGB0ggg => 48,
        ColorFormat::RGBgggg => 64,
    }
}

/// Bytes in a scanline of `cx` pixels, padded to a multiple of `align`.
pub open spec fn stride_spec(cf: ColorFormat, cx: nat, align: nat) -> nat
    recommends
        align > 0,
{
    let bytes = (cx * bits_per_pixel(cf) + 7) / 8;
    (((bytes + align - 1) as int) / (align as int)) as nat * align
}

/// Whether the stride, and the bit count it is derived from, fit in a `usize`.
pub open spec fn stride_fits(cf: ColorFormat, cx: nat, align: nat) -> bool {
    &&& cx * bits_per_pixel(cf) + 7 <= usize::MAX
    &&& stride_spec(cf, cx, align) <= usize::MAX
}

impl ColorFormat {
    pub fn bits_per_pixel(self) -> (r: usize)
        ensures
            r == bits_per_pixel(self),
    {
        match self {
            ColorFormat::PAL1 | ColorFormat::Y1 => 1,
            ColorFormat::PAL2 | ColorFormat::Y2 => 2,
            ColorFormat::PAL4 | ColorFormat::Y4 => 4,
            ColorFormat::PAL8 | ColorFormat::Y8 | ColorFormat::YCbCr420 => 8,
            ColorFormat::Y16 | ColorFormat::YA8 | ColorFormat::RGB4444 => 16,
            ColorFormat::RGB0888 => 24,
            ColorFormat::YA16 | ColorFormat::RGB8888 => 32,
            ColorFormat::RGB0ggg => 48,
            ColorFormat::RGBgggg => 64,
        }
    }

    /// Bytes in a scanline of `cx` pixels, padded to a multiple of `align`;
    /// `None` when that number does not fit in a `usize`.
    pub fn stride(self, cx: usize, align: usize) -> (r: Option<usize>)
        requires
            align > 0,
        ensures
            r == (if stride_fits(self, cx as nat, align as nat) {
                Some(stride_spec(self, cx as nat, align as nat) as usize)
            } else {
                None
            }),
    {
        let bpp = self.bits_per_pixel();
        let bits = match cx.checked_mul(bpp) {
            Some(b) => b,
            None => {
                return None;
            },
        };
        let bits = match bits.checked_add(7) {
            Some(b) => b,
            None => {
                return None;
            },
        };
        let bytes = bits / 8;
        let units = bytes / align;
        let rem = bytes % align;
        let units = if rem == 0 { units } else { units + 1 };
        proof {
            lemma_round_up(bytes as nat, align as nat, units as nat);
        }
        match units.checked_mul(align) {
            Some(r) => Some(r),
            None => None,
        }
    }
}

proof fn lemma_round_up(bytes: nat, align: nat, units: nat)
    requires
        align > 0,
        units == (if bytes % align == 0 { bytes / align } else { bytes / align + 1 }),
    ensures
        units == ((bytes + align - 1) as int) / (align as int),
{
    vstd::arithmetic::div_mod::lemma_fundamental_div_mod(bytes as int, align as int);
    vstd::arithmetic::div_mod::lemma_fundamental_div_mod((bytes + align - 1) as int, align as int);
    assert(units == ((bytes + align - 1) as int) / (align as int)) by (nonlinear_arith)
        requires
            align > 0,
            units == (if bytes % align == 0 { bytes / align } else { bytes / align + 1 }),
            bytes == align * (bytes / align) + bytes % align,
            0 <= bytes % align < align,
            (bytes + align - 1) == align * (((bytes + align - 1) as int) / (align as int)) + ((bytes + align - 1) as int) % (align as int),
            0 <= ((bytes + align - 1) as int) % (align as int) < align,
    {}
}

} // verus!
