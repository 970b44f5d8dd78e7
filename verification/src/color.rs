//! Colours and their text form in a plain-text pixel map.
pub use crate::vec3::Vec3 as Color;
use crate::scalar::Scalar;
use vstd::prelude::*;

verus! {

/// The ASCII code of the digit zero.
pub const DIGIT_ZERO: u8 = 48;

/// The ASCII code of the digit three.
pub const DIGIT_THREE: u8 = 51;

/// The ASCII code of the space.
pub const SPACE: u8 = 32;

/// The ASCII code of the line feed.
pub const LINE_FEED: u8 = 10;

/// The ASCII code of the capital letter P.
pub const LETTER_P: u8 = 80;

/// The largest channel that the header of a pixel map announces.
pub const MAX_CHANNEL: u32 = 255;

/// The decimal digits of `n` in ASCII, without leading zeros.
pub open spec fn decimal_digits(n: nat) -> Seq<u8>
    decreases n,
{
    if n < 10 {
        seq![(DIGIT_ZERO + n) as u8]
    } else {
        decimal_digits(n / 10).push((DIGIT_ZERO + n % 10) as u8)
    }
}

/// The integer that stands for a colour component: the integer part of the
/// component times 255.999, clamped to `0 ..= u32::MAX`.
pub open spec fn channel(component: Scalar) -> u32 {
    component.times(Scalar { raw: 255_999_000 }).spec_to_u32()
}

/// The line of a colour: its three channels in decimal, with one space
/// between them and a line feed at the end.
pub open spec fn color_line(color: Color) -> Seq<u8> {
    decimal_digits(channel(color.0) as nat) + seq![SPACE] + decimal_digits(channel(color.1) as nat)
        + seq![SPACE] + decimal_digits(channel(color.2) as nat) + seq![LINE_FEED]
}

/// The header of a plain-text pixel map of `width` by `height` pixels: the
/// letter P and the digit 3, the two sizes with a space between them, and
/// the largest channel, each of the three on a line of its own.
pub open spec fn header(width: u32, height: u32) -> Seq<u8> {
    seq![LETTER_P, DIGIT_THREE, LINE_FEED] + decimal_digits(width as nat) + seq![SPACE] + decimal_digits(
        height as nat,
    ) + seq![
        LINE_FEED,
    ] + decimal_digits(MAX_CHANNEL as nat) + seq![LINE_FEED]
}

/// Appends the decimal digits of `n` to `out`.
pub fn write_decimal(out: &mut Vec<u8>, n: u32)
    ensures
        final(out)@ == old(out)@ + decimal_digits(n as nat),
    decreases n,
{
    if n >= 10 {
        write_decimal(out, n / 10);
    }
    out.push(DIGIT_ZERO + (n % 10) as u8);
    assert(out@ =~= old(out)@ + decimal_digits(n as nat));
}

/// Appends the line of `color` to `out`.
pub fn write_color(out: &mut Vec<u8>, color: Color)
    ensures
        final(out)@ == old(out)@ + color_line(color),
{
    let scale = Scalar { raw: 255_999_000 };
    let ir = (color.x() * scale).to_u32();
    let ig = (color.y() * scale).to_u32();
    let ib = (color.z() * scale).to_u32();
    write_decimal(out, ir);
    out.push(SPACE);
    write_decimal(out, ig);
    out.push(SPACE);
    write_decimal(out, ib);
    out.push(LINE_FEED);
    assert(out@ =~= old(out)@ + color_line(color));
}

/// Appends the header of a pixel map of `width` by `height` pixels to `out`.
pub fn write_header(out: &mut Vec<u8>, width: u32, height: u32)
    ensures
        final(out)@ == old(out)@ + header(width, height),
{
    out.push(LETTER_P);
    out.push(DIGIT_THREE);
    out.push(LINE_FEED);
    write_decimal(out, width);
    out.push(SPACE);
    write_decimal(out, height);
    out.push(LINE_FEED);
    write_decimal(out, MAX_CHANNEL);
    out.push(LINE_FEED);
    assert(out@ =~= old(out)@ + header(width, height));
}

} // verus!
