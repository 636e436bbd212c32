//! Plain (ASCII) PPM encoding of a finished image.
//!
//! The file is a header of three lines, the format's magic number,
//! `<width> <height>` and `255`,
//! followed by one line `<r> <g> <b>` per pixel in scan order, each channel a
//! level in `0..=255` written in decimal.

use vstd::prelude::*;

verus! {

/// The largest channel level of the image.
pub const MAX_LEVEL: u8 = 255;

/// ASCII `0`.
pub const ASCII_ZERO: u8 = 48;
/// ASCII `3`.
pub const ASCII_THREE: u8 = 51;
/// ASCII `P`.
pub const ASCII_P: u8 = 80;
/// ASCII space.
pub const ASCII_SPACE: u8 = 32;
/// ASCII line feed.
pub const ASCII_NEWLINE: u8 = 10;

/// The quantized, gamma-corrected levels of one pixel.
#[derive(Clone, Copy, Debug, PartialEq, Eq, Structural)]
pub struct Rgb8 {
    pub r: u8,
    pub g: u8,
    pub b: u8,
}

/// The ASCII digit of `d`, for `d` in `0..10`.
pub open spec fn digit(d: nat) -> u8 {
    (ASCII_ZERO + d) as u8
}

/// `n` written in decimal, most significant digit first, without leading zeros.
pub open spec fn decimal(n: nat) -> Seq<u8>
    decreases n,
{
    if n < 10 {
        seq![digit(n)]
    } else {
        decimal(n / 10).push(digit(n % 10))
    }
}

/// The three header lines of an image of `width` by `height` pixels.
pub open spec fn header_bytes(width: nat, height: nat) -> Seq<u8> {
    seq![ASCII_P, ASCII_THREE, ASCII_NEWLINE] + decimal(width) + seq![ASCII_SPACE] + decimal(height)
        + seq![ASCII_NEWLINE]
        + decimal(MAX_LEVEL as nat) + seq![ASCII_NEWLINE]
}

/// The line of one pixel.
pub open spec fn pixel_bytes(c: Rgb8) -> Seq<u8> {
    decimal(c.r as nat) + seq![ASCII_SPACE] + decimal(c.g as nat) + seq![ASCII_SPACE] + decimal(c.b as nat)
        + seq![ASCII_NEWLINE]
}

/// The lines of `pixels`, in order.
pub open spec fn pixels_bytes(pixels: Seq<Rgb8>) -> Seq<u8>
    decreases pixels.len(),
{
    if pixels.len() == 0 {
        Seq::empty()
    } else {
        pixels_bytes(pixels.drop_last()) + pixel_bytes(pixels.last())
    }
}

/// A whole image file.
pub open spec fn image_bytes(width: nat, height: nat, pixels: Seq<Rgb8>) -> Seq<u8> {
    header_bytes(width, height) + pixels_bytes(pixels)
}

/// Appends `n` in decimal to `out`.
fn push_decimal(out: &mut Vec<u8>, n: usize)
    ensures
        final(out)@ == old(out)@ + decimal(n as nat),
    decreases n,
{
    if n >= 10 {
        push_decimal(out, n / 10);
    }
    let d: u8 = (n % 10) as u8;
    out.push(ASCII_ZERO + d);
    assert(out@ =~= old(out)@ + decimal(n as nat));
}

/// Appends one byte to `out`.
fn push_byte(out: &mut Vec<u8>, b: u8)
    ensures
        final(out)@ == old(out)@ + seq![b],
{
    out.push(b);
    assert(out@ =~= old(out)@ + seq![b]);
}

/// Appends the header lines of a `width` by `height` image to `out`.
fn push_header(out: &mut Vec<u8>, width: usize, height: usize)
    ensures
        final(out)@ == old(out)@ + header_bytes(width as nat, height as nat),
{
    push_byte(out, ASCII_P);
    push_byte(out, ASCII_THREE);
    push_byte(out, ASCII_NEWLINE);
    push_decimal(out, width);
    push_byte(out, ASCII_SPACE);
    push_decimal(out, height);
    push_byte(out, ASCII_NEWLINE);
    push_decimal(out, MAX_LEVEL as usize);
    push_byte(out, ASCII_NEWLINE);
    assert(out@ =~= old(out)@ + header_bytes(width as nat, height as nat));
}

/// Appends the line of pixel `c` to `out`.
fn push_pixel(out: &mut Vec<u8>, c: Rgb8)
    ensures
        final(out)@ == old(out)@ + pixel_bytes(c),
{
    push_decimal(out, c.r as usize);
    push_byte(out, ASCII_SPACE);
    push_decimal(out, c.g as usize);
    push_byte(out, ASCII_SPACE);
    push_decimal(out, c.b as usize);
    push_byte(out, ASCII_NEWLINE);
    assert(out@ =~= old(out)@ + pixel_bytes(c));
}

/// The header lines of a `width` by `height` image.
pub fn encode_header(width: usize, height: usize) -> (bytes: Vec<u8>)
    ensures
        bytes@ == header_bytes(width as nat, height as nat),
{
    let mut bytes: Vec<u8> = Vec::new();
    push_header(&mut bytes, width, height);
    assert(bytes@ =~= header_bytes(width as nat, height as nat));
    bytes
}

/// The line of one pixel.
pub fn encode_pixel(c: Rgb8) -> (bytes: Vec<u8>)
    ensures
        bytes@ == pixel_bytes(c),
{
    let mut bytes: Vec<u8> = Vec::new();
    push_pixel(&mut bytes, c);
    assert(bytes@ =~= pixel_bytes(c));
    bytes
}

/// The whole file of a `width` by `height` image whose pixels, in scan order,
/// are `pixels`; `None` when there are not exactly `width * height` of them.
pub fn encode_image(width: usize, height: usize, pixels: &Vec<Rgb8>) -> (r: Option<Vec<u8>>)
    ensures
        pixels@.len() == width * height <==> r is Some,
        r matches Some(bytes) ==> bytes@ == image_bytes(width as nat, height as nat, pixels@),
{
    let len = pixels.len();
    match width.checked_mul(height) {
        None => {
            return None;
        },
        Some(n) => {
            if len != n {
                return None;
            }
        },
    }
    let mut bytes: Vec<u8> = Vec::new();
    push_header(&mut bytes, width, height);
    let mut i: usize = 0;
    while i < pixels.len()
        invariant
            i <= pixels@.len(),
            bytes@ == header_bytes(width as nat, height as nat) + pixels_bytes(
                pixels@.subrange(0, i as int),
            ),
        decreases pixels@.len() - i,
    {
        proof {
            let next = pixels@.subrange(0, i + 1);
            assert(next.drop_last() =~= pixels@.subrange(0, i as int));
            assert(next.last() == pixels@[i as int]);
        }
        push_pixel(&mut bytes, pixels[i]);
        i += 1;
        proof {
            assert(bytes@ =~= header_bytes(width as nat, height as nat) + pixels_bytes(
                pixels@.subrange(0, i as int),
            ));
        }
    }
    assert(pixels@.subrange(0, pixels@.len() as int) =~= pixels@);
    Some(bytes)
}

} // verus!
