use vstd::prelude::*;

use crate::ppm::Img;

verus! {

/// The ASCII digits of `n`, most significant first.
pub open spec fn digits(n: nat) -> Seq<u8>
    decreases n,
{
    if n < 10 {
        seq![(48 + n) as u8]
    } else {
        digits(n / 10) + seq![(48 + n % 10) as u8]
    }
}

/// `n` written in decimal, with a leading `-` when negative.
pub open spec fn decimal(n: int) -> Seq<u8> {
    if n < 0 {
        seq![45u8] + digits((-n) as nat)
    } else {
        digits(n as nat)
    }
}

/// The comment line that every encoded image carries:
/// `# Created by leland batey RustPPM`.
pub open spec fn ppm_comment() -> Seq<u8> {
    seq![
        35u8, 32u8, 67u8, 114u8, 101u8, 97u8, 116u8, 101u8, 100u8, 32u8, 98u8, 121u8, 32u8, 108u8, 101u8, 108u8, 97u8, 110u8, 100u8, 32u8, 98u8, 97u8, 116u8, 101u8, 121u8, 32u8, 82u8, 117u8, 115u8, 116u8, 80u8, 80u8, 77u8, 10u8,
    ]
}

/// The header of a plain (`P3`) PPM file.
pub open spec fn ppm_header(width: int, height: int, maxval: int) -> Seq<u8> {
    seq![80u8, 51u8, 10u8] + ppm_comment() + decimal(width) + seq![32u8] + decimal(height) + seq![
        10u8,
    ] + decimal(maxval) + seq![10u8]
}

/// The first `n` pixel lines: red, green and blue values separated by spaces.
pub open spec fn ppm_rows(r: Seq<i64>, g: Seq<i64>, b: Seq<i64>, n: int) -> Seq<u8>
    decreases n,
{
    if n <= 0 {
        Seq::empty()
    } else {
        ppm_rows(r, g, b, n - 1) + decimal(r[n - 1] as int) + seq![32u8] + decimal(g[n - 1] as int)
            + seq![32u8] + decimal(b[n - 1] as int) + seq![10u8]
    }
}

/// A plain PPM file with one pixel line for each value of `r`.
pub open spec fn ppm_text(
    width: int,
    height: int,
    maxval: int,
    r: Seq<i64>,
    g: Seq<i64>,
    b: Seq<i64>,
) -> Seq<u8> {
    ppm_header(width, height, maxval) + ppm_rows(r, g, b, r.len() as int)
}

fn push_digits(out: &mut Vec<u8>, n: u64)
    ensures
        final(out)@ == old(out)@ + digits(n as nat),
    decreases n,
{
    if n >= 10 {
        push_digits(out, n / 10);
    }
    out.push(48u8 + (n % 10) as u8);
    assert(final(out)@ =~= old(out)@ + digits(n as nat));
}

/// Appends `n` in decimal.
pub fn push_decimal(out: &mut Vec<u8>, n: i64)
    ensures
        final(out)@ == old(out)@ + decimal(n as int),
{
    if n < 0 {
        out.push(45u8);
        let m: u64 = (-(n as i128)) as u64;
        push_digits(out, m);
        assert(final(out)@ =~= old(out)@ + decimal(n as int));
    } else {
        push_digits(out, n as u64);
    }
}

fn push_bytes(out: &mut Vec<u8>, bytes: &[u8])
    ensures
        final(out)@ == old(out)@ + bytes@,
{
    let mut i: usize = 0;
    while i < bytes.len()
        invariant
            i <= bytes@.len(),
            out@ == old(out)@ + bytes@.subrange(0, i as int),
        decreases bytes@.len() - i,
    {
        out.push(bytes[i]);
        assert(out@ =~= old(out)@ + bytes@.subrange(0, i + 1));
        i = i + 1;
    }
    assert(bytes@.subrange(0, bytes@.len() as int) =~= bytes@);
}

/// Encodes three channels of values as a plain PPM file.
pub fn encode_ppm(
    width: i64,
    height: i64,
    maxval: i64,
    r: &Vec<i64>,
    g: &Vec<i64>,
    b: &Vec<i64>,
) -> (out: Vec<u8>)
    requires
        g@.len() >= r@.len(),
        b@.len() >= r@.len(),
    ensures
        out@ == ppm_text(width as int, height as int, maxval as int, r@, g@, b@),
{
    let mut out: Vec<u8> = Vec::new();
    let magic: [u8; 3] = [80u8, 51u8, 10u8];
    let comment: [u8; 34] = [
        35u8, 32u8, 67u8, 114u8, 101u8, 97u8, 116u8, 101u8, 100u8, 32u8, 98u8, 121u8, 32u8, 108u8, 101u8, 108u8, 97u8, 110u8, 100u8, 32u8, 98u8, 97u8, 116u8, 101u8, 121u8, 32u8, 82u8, 117u8, 115u8, 116u8, 80u8, 80u8, 77u8, 10u8,
    ];
    push_bytes(&mut out, &magic);
    assert(magic@ =~= seq![80u8, 51u8, 10u8]);
    push_bytes(&mut out, &comment);
    assert(comment@ =~= ppm_comment());
    push_decimal(&mut out, width);
    out.push(32u8);
    push_decimal(&mut out, height);
    out.push(10u8);
    push_decimal(&mut out, maxval);
    out.push(10u8);
    assert(out@ =~= ppm_header(width as int, height as int, maxval as int));
    let ghost header = out@;
    let mut i: usize = 0;
    while i < r.len()
        invariant
            i <= r@.len(),
            g@.len() >= r@.len(),
            b@.len() >= r@.len(),
            out@ == header + ppm_rows(r@, g@, b@, i as int),
        decreases r@.len() - i,
    {
        push_decimal(&mut out, r[i]);
        out.push(32u8);
        push_decimal(&mut out, g[i]);
        out.push(32u8);
        push_decimal(&mut out, b[i]);
        out.push(10u8);
        i = i + 1;
        assert(out@ =~= header + ppm_rows(r@, g@, b@, i as int));
    }
    out
}

/// The larger of two counts.
fn larger(a: i64, b: i64) -> (r: i64)
    ensures
        r as int == crate::ppm::max_int(a as int, b as int),
{
    if a >= b {
        a
    } else {
        b
    }
}

/// The plain PPM file of the channels `imgs[0]`, `imgs[1]`, `imgs[2]` (red,
/// green, blue): the size of the first, the largest running maximum of the
/// three, then one line per pixel.
pub fn write_ppm(imgs: &Vec<Img>) -> (out: Vec<u8>)
    requires
        imgs@.len() >= 3,
        imgs@[1]@.pixels.len() >= imgs@[0]@.pixels.len(),
        imgs@[2]@.pixels.len() >= imgs@[0]@.pixels.len(),
    ensures
        out@ == ppm_text(
            imgs@[0]@.width,
            imgs@[0]@.height,
            crate::ppm::max_int(
                imgs@[0]@.maximum,
                crate::ppm::max_int(imgs@[1]@.maximum, imgs@[2]@.maximum),
            ),
            imgs@[0]@.pixels,
            imgs@[1]@.pixels,
            imgs@[2]@.pixels,
        ),
{
    let maxval = larger(imgs[0].maximum(), larger(imgs[1].maximum(), imgs[2].maximum()));
    encode_ppm(
        imgs[0].width(),
        imgs[0].height(),
        maxval,
        imgs[0].pixels(),
        imgs[1].pixels(),
        imgs[2].pixels(),
    )
}

} // verus!
