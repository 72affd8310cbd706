//! Plain-text image output.
//!
//! A finalized two-dimensional grid of quantized pixels leaves the
//! renderer as an ASCII image file: a `P3` magic number, the image
//! dimensions, the maximum channel value, and one `R G B` triple per
//! pixel, all newline-separated.  This module produces those bytes
//! exactly; writing them to disk is the front end's job.

use vstd::prelude::*;

verus! {

/// The decimal numeral of `n` in ASCII, most significant digit first,
/// without leading zeros (a single `0` for zero).
pub open spec fn spec_decimal(n: nat) -> Seq<u8>
    decreases n,
{
    if n < 10 {
        seq![(48 + n) as u8]
    } else {
        spec_decimal(n / 10).push((48 + n % 10) as u8)
    }
}

/// One image row entry: the three channel numerals separated by single
/// spaces, closed by a newline.
pub open spec fn spec_triple(p: (u8, u8, u8)) -> Seq<u8> {
    spec_decimal(p.0 as nat) + seq![32u8] + spec_decimal(p.1 as nat) + seq![32u8] + spec_decimal(
        p.2 as nat,
    ) + seq![10u8]
}

/// The whole pixel section: each pixel's triple, in row-major order.
pub open spec fn spec_pixel_lines(pixels: Seq<(u8, u8, u8)>) -> Seq<u8>
    decreases pixels.len(),
{
    if pixels.len() == 0 {
        Seq::empty()
    } else {
        spec_pixel_lines(pixels.drop_last()) + spec_triple(pixels.last())
    }
}

/// A complete image file: `P3`, the width and height, the maximum
/// channel value 255, and the pixel triples.
pub open spec fn spec_ppm(width: nat, height: nat, pixels: Seq<(u8, u8, u8)>) -> Seq<u8> {
    seq![80u8, 51u8, 10u8] + spec_decimal(width) + seq![32u8] + spec_decimal(height) + seq![10u8]
        + spec_decimal(255) + seq![10u8] + spec_pixel_lines(pixels)
}

/// Appends the decimal numeral of `n` to `out`.
fn push_decimal(out: &mut Vec<u8>, n: usize)
    ensures
        final(out)@ == old(out)@ + spec_decimal(n as nat),
    decreases n,
{
    if n < 10 {
        out.push(48 + (n as u8));
        proof {
            assert(final(out)@ =~= old(out)@ + spec_decimal(n as nat));
        }
    } else {
        push_decimal(out, n / 10);
        out.push(48 + ((n % 10) as u8));
        proof {
            assert(final(out)@ =~= old(out)@ + spec_decimal(n as nat));
        }
    }
}

/// Encodes a row-major pixel buffer of the given dimensions as an ASCII
/// image file, byte for byte as `spec_ppm` describes it.
pub fn ppm_encode(width: usize, height: usize, pixels: &Vec<(u8, u8, u8)>) -> (r: Vec<u8>)
    requires
        pixels@.len() == width * height,
    ensures
        r@ == spec_ppm(width as nat, height as nat, pixels@),
{
    let mut out: Vec<u8> = Vec::new();
    out.push(80);
    out.push(51);
    out.push(10);
    push_decimal(&mut out, width);
    out.push(32);
    push_decimal(&mut out, height);
    out.push(10);
    push_decimal(&mut out, 255);
    out.push(10);
    proof {
        assert(out@ =~= seq![80u8, 51u8, 10u8] + spec_decimal(width as nat) + seq![32u8]
            + spec_decimal(height as nat) + seq![10u8] + spec_decimal(255) + seq![10u8]);
    }
    let ghost header = out@;
    let mut k: usize = 0;
    while k < pixels.len()
        invariant
            k <= pixels@.len(),
            out@ == header + spec_pixel_lines(pixels@.take(k as int)),
        decreases pixels@.len() - k,
    {
        let p = pixels[k];
        push_decimal(&mut out, p.0 as usize);
        out.push(32);
        push_decimal(&mut out, p.1 as usize);
        out.push(32);
        push_decimal(&mut out, p.2 as usize);
        out.push(10);
        proof {
            let taken = pixels@.take(k as int + 1);
            assert(taken.drop_last() =~= pixels@.take(k as int));
            assert(taken.last() == pixels@[k as int]);
            assert(out@ =~= header + spec_pixel_lines(taken));
        }
        k = k + 1;
    }
    proof {
        assert(pixels@.take(pixels@.len() as int) =~= pixels@);
    }
    out
}

} // verus!
