use engine::color_conversion::{ImageGeometry, Image, make_buffersize, pal1_to_rgb32, pal8_to_rgb32};
use engine::color_format::ColorFormat;
use engine::error::Error;
use engine::png_read::{decode_inflated, paeth, png_read, unfilter_byte1};

fn chunk(out: &mut Vec<u8>, ty: &[u8; 4], body: &[u8]) {
    out.extend_from_slice(&(body.len() as u32).to_be_bytes());
    out.extend_from_slice(ty);
    out.extend_from_slice(body);
    out.extend_from_slice(&[0, 0, 0, 0]);
}

fn header(width: u32, height: u32, depth: u8, color_type: u8) -> Vec<u8> {
    let mut png = vec![137, 80, 78, 71, 13, 10, 26, 10];
    let mut ihdr = Vec::new();
    ihdr.extend_from_slice(&width.to_be_bytes());
    ihdr.extend_from_slice(&height.to_be_bytes());
    ihdr.extend_from_slice(&[depth, color_type, 0, 0, 0]);
    chunk(&mut png, b"IHDR", &ihdr);
    png
}

fn indexed_png(width: u32, height: u32, depth: u8, palette: &[u8], raw: &[u8]) -> Vec<u8> {
    let mut png = header(width, height, depth, 3);
    chunk(&mut png, b"PLTE", palette);
    let z = miniz_oxide::deflate::compress_to_vec_zlib(raw, 6);
    let (a, b) = z.split_at(z.len() / 2);
    chunk(&mut png, b"IDAT", a);
    chunk(&mut png, b"tEXt", b"comment");
    chunk(&mut png, b"IDAT", b);
    chunk(&mut png, b"IEND", &[]);
    png
}

const PALETTE: [u8; 9] = [10, 20, 30, 200, 100, 50, 0, 255, 1];

#[test]
fn png_pal8_unfiltered() {
    let raw = [0, 0, 1, 0, 0, 2, 1, 0];
    let img = png_read(&indexed_png(3, 2, 8, &PALETTE, &raw)).unwrap();
    assert_eq!(img.stride, 12);
    assert!(img.palette.is_empty());
    assert_eq!(
        img.data,
        vec![
            10, 20, 30, 255, 200, 100, 50, 255, 10, 20, 30, 255, //
            0, 255, 1, 255, 200, 100, 50, 255, 10, 20, 30, 255,
        ]
    );
}

#[test]
fn png_pal8_sub_and_up_filters() {
    // row 0: Sub, deltas 0,1,1 -> 0,1,2; row 1: Up, deltas 2,0,255 -> 2,1,1
    let raw = [1, 0, 1, 1, 2, 2, 0, 255];
    let img = png_read(&indexed_png(3, 2, 8, &PALETTE, &raw)).unwrap();
    let idx: Vec<u8> = img
        .data
        .chunks(4)
        .map(|px| PALETTE.chunks(3).position(|c| c[0] == px[0] && c[1] == px[1]).unwrap() as u8)
        .collect();
    assert_eq!(idx, vec![0, 1, 2, 2, 1, 1]);
}

#[test]
fn png_pal1_bits_msb_first() {
    // 10 pixels: 1010_0000 01.. (two bytes per row)
    let raw = [0, 0b1010_0000, 0b0100_0000];
    let img = png_read(&indexed_png(10, 1, 1, &PALETTE[..6], &raw)).unwrap();
    assert_eq!(img.stride, 40);
    let firsts: Vec<u8> = img.data.chunks(4).map(|px| px[0]).collect();
    assert_eq!(firsts, vec![200, 10, 200, 10, 10, 10, 10, 10, 10, 200]);
}

#[test]
fn png_rejects_bad_signature() {
    let mut png = indexed_png(1, 1, 8, &PALETTE, &[0, 0]);
    png[1] = b'Q';
    assert_eq!(png_read(&png).unwrap_err(), Error::InvalidPng);
    assert_eq!(png_read(&[137, 80]).unwrap_err(), Error::InvalidPng);
    assert_eq!(png_read(&[]).unwrap_err(), Error::InvalidPng);
}

#[test]
fn png_rejects_bad_header_fields() {
    // zero width
    let mut png = header(0, 1, 8, 3);
    chunk(&mut png, b"IEND", &[]);
    assert_eq!(png_read(&png).unwrap_err(), Error::InvalidPng);
    // unknown colour type
    let mut png = header(1, 1, 8, 5);
    chunk(&mut png, b"IEND", &[]);
    assert_eq!(png_read(&png).unwrap_err(), Error::InvalidPng);
    // unsupported depth for the colour type
    let mut png = header(1, 1, 3, 3);
    chunk(&mut png, b"IEND", &[]);
    assert_eq!(png_read(&png).unwrap_err(), Error::InvalidPng);
}

#[test]
fn png_missing_iend() {
    let mut png = indexed_png(1, 1, 8, &PALETTE, &[0, 0]);
    png.truncate(png.len() - 12);
    assert_eq!(png_read(&png).unwrap_err(), Error::PngIendMissing);
}

#[test]
fn png_truncated_chunk() {
    let mut png = indexed_png(1, 1, 8, &PALETTE, &[0, 0]);
    png.truncate(png.len() - 14);
    assert_eq!(png_read(&png).unwrap_err(), Error::InvalidPng);
}

#[test]
fn png_bad_palette_length() {
    let mut png = header(1, 1, 8, 3);
    chunk(&mut png, b"PLTE", &[1, 2, 3, 4]);
    chunk(&mut png, b"IEND", &[]);
    assert_eq!(png_read(&png).unwrap_err(), Error::InvalidPng);
}

#[test]
fn png_truecolor_is_not_decoded() {
    let mut png = header(1, 1, 8, 2);
    let z = miniz_oxide::deflate::compress_to_vec_zlib(&[0, 1, 2, 3], 6);
    chunk(&mut png, b"IDAT", &z);
    chunk(&mut png, b"IEND", &[]);
    assert_eq!(png_read(&png).unwrap_err(), Error::InvalidColorFormat);
}

#[test]
fn png_corrupt_stream() {
    let mut png = header(1, 1, 8, 3);
    chunk(&mut png, b"PLTE", &PALETTE);
    chunk(&mut png, b"IDAT", &[1, 2, 3, 4, 5]);
    chunk(&mut png, b"IEND", &[]);
    assert_eq!(png_read(&png).unwrap_err(), Error::InvalidBitstream);
}

#[test]
fn png_wrong_data_size() {
    // three bytes of filtered data where two are needed: the stream overruns
    let png = indexed_png(1, 1, 8, &PALETTE, &[0, 0, 0]);
    assert_eq!(png_read(&png).unwrap_err(), Error::InvalidBitstream);
    // two bytes where three are needed
    let png = indexed_png(2, 1, 8, &PALETTE, &[0, 0]);
    assert_eq!(png_read(&png).unwrap_err(), Error::InvalidPng);
}

#[test]
fn png_index_outside_palette() {
    let png = indexed_png(1, 1, 8, &PALETTE, &[0, 7]);
    assert_eq!(png_read(&png).unwrap_err(), Error::InvalidPng);
}

#[test]
fn png_unknown_filter_type() {
    let png = indexed_png(1, 1, 8, &PALETTE, &[9, 0]);
    assert_eq!(png_read(&png).unwrap_err(), Error::InvalidPng);
}

#[test]
fn paeth_predictor_values() {
    assert_eq!(paeth(0, 0, 0), 0);
    assert_eq!(paeth(10, 20, 10), 20);
    assert_eq!(paeth(20, 10, 10), 20);
    assert_eq!(paeth(10, 20, 20), 10);
    assert_eq!(paeth(100, 100, 0), 100);
    assert_eq!(paeth(50, 60, 200), 50);
    assert_eq!(paeth(5, 8, 6), 8);
}

#[test]
fn unfilter_each_filter_type() {
    // stride 2, four rows: Sub, Up, Average, Paeth
    let data = [
        1, 100, 200, //
        2, 1, 1, //
        3, 10, 10, //
        4, 1, 2,
    ];
    let out = unfilter_byte1(&data, 2, 4).unwrap();
    // row0: 100, 44 (200 + 100 wraps); row1: 101, 45
    // row2: 10 + 50 = 60, 10 + (60 + 45) / 2 = 62
    // row3: 1 + paeth(0, 60, 0) = 61, 2 + paeth(61, 62, 60) = 2 + 62 = 64
    assert_eq!(out, vec![100, 44, 101, 45, 60, 62, 61, 64]);
}

#[test]
fn unfilter_average_first_row() {
    let out = unfilter_byte1(&[3, 10, 10, 10], 3, 1).unwrap();
    assert_eq!(out, vec![10, 15, 17]);
}

#[test]
fn unfilter_bad_filter_and_short_data() {
    assert_eq!(unfilter_byte1(&[5, 1], 1, 1), None);
    assert_eq!(unfilter_byte1(&[0, 1], 1, 2), None);
    assert_eq!(unfilter_byte1(&[], 4, 0), Some(vec![]));
}

#[test]
fn decode_inflated_pal8() {
    let geo = ImageGeometry { cx: 2, cy: 1, cf: ColorFormat::PAL8 };
    let img = decode_inflated(&[0, 1, 0], vec![0x00112233, 0x00AABBCC], &geo).unwrap();
    assert_eq!(img.data, vec![0xAA, 0xBB, 0xCC, 255, 0x11, 0x22, 0x33, 255]);
    assert_eq!(img.stride, 8);
    let err = decode_inflated(&[0, 1], vec![0], &geo).unwrap_err();
    assert_eq!(err, Error::InvalidPng);
    let geo = ImageGeometry { cx: 2, cy: 1, cf: ColorFormat::Y8 };
    assert_eq!(decode_inflated(&[0, 1, 0], vec![], &geo).unwrap_err(), Error::InvalidColorFormat);
}

#[test]
fn palette_expansion() {
    let geo = ImageGeometry { cx: 3, cy: 2, cf: ColorFormat::PAL8 };
    let src = Image { data: vec![0, 1, 1, 9, 1, 0, 0, 9], stride: 4, palette: vec![0x010203, 0xFFFEFD] };
    let out = pal8_to_rgb32(src, &geo);
    assert_eq!(out.stride, 12);
    assert_eq!(
        out.data,
        vec![1, 2, 3, 255, 255, 254, 253, 255, 255, 254, 253, 255, 255, 254, 253, 255, 1, 2, 3, 255, 1, 2, 3, 255]
    );
    let geo = ImageGeometry { cx: 9, cy: 1, cf: ColorFormat::PAL1 };
    let src = Image { data: vec![0b0000_0001, 0b1000_0000], stride: 2, palette: vec![0, 0xFFFFFF] };
    let out = pal1_to_rgb32(src, &geo);
    let firsts: Vec<u8> = out.data.chunks(4).map(|px| px[0]).collect();
    assert_eq!(firsts, vec![0, 0, 0, 0, 0, 0, 0, 255, 255]);
}

#[test]
fn buffer_sizes() {
    assert_eq!(make_buffersize(12, 3), 36);
    assert_eq!(ColorFormat::PAL1.stride(10, 1), Some(2));
    assert_eq!(ColorFormat::PAL8.stride(10, 4), Some(12));
    assert_eq!(ColorFormat::RGB8888.stride(3, 1), Some(12));
    assert_eq!(ColorFormat::RGBgggg.stride(usize::MAX / 8, 1), None);
}
