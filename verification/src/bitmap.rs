//! The two headers that stand before the pixel bytes in the bitmap file.
//!
//! Every field is little-endian. The pixel bytes follow the headers as the
//! image buffer holds them.

use vstd::prelude::*;

verus! {

/// Length of the file header.
pub const FILE_HEADER_LEN: u32 = 14;

/// Length of the info header.
pub const INFO_HEADER_LEN: u32 = 40;

/// Where the pixel bytes start in the file: after both headers.
pub const PIXEL_DATA_OFFSET: u32 = 54;

/// Bits per pixel: three bytes.
pub const BITS_PER_PIXEL: u16 = 24;

/// The horizontal print resolution that the info header declares, in pixels
/// per metre. The vertical one is left at 0.
pub const PRINT_RESOLUTION: u32 = 2835;

/// The two bytes of `value`, the low one first.
pub open spec fn le16(value: int) -> Seq<u8> {
    seq![(value % 256) as u8, ((value / 256) % 256) as u8]
}

/// The four bytes of `value`, the lowest first.
pub open spec fn le32(value: int) -> Seq<u8> {
    seq![
        (value % 256) as u8,
        ((value / 256) % 256) as u8,
        ((value / 65536) % 256) as u8,
        ((value / 16777216) % 256) as u8,
    ]
}

/// Number of pixel bytes of an image: three per pixel.
pub open spec fn pixel_data_len(width: int, height: int) -> int {
    width * height * 3
}

/// The whole file, headers and pixel bytes, is short enough for its length
/// to be written into the file header.
pub open spec fn fits_bitmap(width: int, height: int) -> bool {
    PIXEL_DATA_OFFSET + pixel_data_len(width, height) <= u32::MAX
}

/// The file header: the letters `BM`, the length of the whole file, four
/// unused bytes, and the place where the pixel bytes start.
pub open spec fn file_header_of(width: int, height: int) -> Seq<u8> {
    seq![0x42u8, 0x4Du8] + le32(PIXEL_DATA_OFFSET + pixel_data_len(width, height)) + le32(0)
        + le32(PIXEL_DATA_OFFSET as int)
}

/// The info header: its own length, width and height of the image, one
/// colour plane, 24 bits per pixel, no compression, the number of pixel
/// bytes, the print resolution, and no colour table.
pub open spec fn info_header_of(width: int, height: int) -> Seq<u8> {
    le32(INFO_HEADER_LEN as int) + le32(width) + le32(height) + le16(1) + le16(
        BITS_PER_PIXEL as int,
    ) + le32(0) + le32(pixel_data_len(width, height)) + le32(PRINT_RESOLUTION as int) + le32(0)
        + le32(0) + le32(0)
}

/// Appends the two bytes of `value`, the low one first.
fn push_le16(out: &mut Vec<u8>, value: u16)
    ensures
        final(out)@ == old(out)@ + le16(value as int),
{
    out.push((value % 256) as u8);
    out.push(((value / 256) % 256) as u8);
    assert(out@ =~= old(out)@ + le16(value as int));
}

/// Appends the four bytes of `value`, the lowest first.
fn push_le32(out: &mut Vec<u8>, value: u32)
    ensures
        final(out)@ == old(out)@ + le32(value as int),
{
    out.push((value % 256) as u8);
    out.push(((value / 256) % 256) as u8);
    out.push(((value / 65536) % 256) as u8);
    out.push(((value / 16777216) % 256) as u8);
    assert(out@ =~= old(out)@ + le32(value as int));
}

/// Number of pixel bytes of the image, where the file can hold them.
pub fn data_len(width: u32, height: u32) -> (len: Option<u32>)
    ensures
        len is Some <==> fits_bitmap(width as int, height as int),
        len matches Some(n) ==> n == pixel_data_len(width as int, height as int),
{
    assert(width * height <= u64::MAX) by (nonlinear_arith)
        requires
            width <= u32::MAX,
            height <= u32::MAX,
    ;
    let pixels: u64 = (width as u64) * (height as u64);
    let most: u64 = ((u32::MAX - PIXEL_DATA_OFFSET) / 3) as u64;
    if pixels > most {
        None
    } else {
        Some((pixels * 3) as u32)
    }
}

/// The file header for an image of `width` by `height`, or `None` where the
/// file would be too long for its length field.
pub fn file_header(width: u32, height: u32) -> (header: Option<Vec<u8>>)
    ensures
        header is Some <==> fits_bitmap(width as int, height as int),
        header matches Some(bytes) ==> bytes@ == file_header_of(width as int, height as int),
{
    match data_len(width, height) {
        None => None,
        Some(len) => {
            let mut bytes: Vec<u8> = Vec::new();
            bytes.push(0x42);
            bytes.push(0x4D);
            assert(bytes@ =~= seq![0x42u8, 0x4Du8]);
            push_le32(&mut bytes, PIXEL_DATA_OFFSET + len);
            push_le32(&mut bytes, 0);
            push_le32(&mut bytes, PIXEL_DATA_OFFSET);
            Some(bytes)
        },
    }
}

/// The info header for an image of `width` by `height`, or `None` where the
/// file would be too long for the length field of the file header.
pub fn info_header(width: u32, height: u32) -> (header: Option<Vec<u8>>)
    ensures
        header is Some <==> fits_bitmap(width as int, height as int),
        header matches Some(bytes) ==> bytes@ == info_header_of(width as int, height as int),
{
    match data_len(width, height) {
        None => None,
        Some(len) => {
            let mut bytes: Vec<u8> = Vec::new();
            push_le32(&mut bytes, INFO_HEADER_LEN);
            assert(bytes@ =~= le32(INFO_HEADER_LEN as int));
            push_le32(&mut bytes, width);
            push_le32(&mut bytes, height);
            push_le16(&mut bytes, 1);
            push_le16(&mut bytes, BITS_PER_PIXEL);
            push_le32(&mut bytes, 0);
            push_le32(&mut bytes, len);
            push_le32(&mut bytes, PRINT_RESOLUTION);
            push_le32(&mut bytes, 0);
            push_le32(&mut bytes, 0);
            push_le32(&mut bytes, 0);
            Some(bytes)
        },
    }
}

} // verus!
