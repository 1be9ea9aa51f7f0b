use crate::color::RGBColour;
use vstd::prelude::*;

verus! {

/// Byte offset of image row `row` in the final buffer. The buffer is
/// row-major with the top image row first, while the camera's row
/// index grows upward, so row `row` lands at the flipped position
/// `height - 1 - row`, three bytes per pixel.
pub open spec fn line_offset(width: u32, height: u32, row: u32) -> int {
    3 * (width as int) * (height as int - 1 - row as int)
}

/// The bytes a buffer holds for image row `row`.
pub open spec fn row_slice(buf: Seq<u8>, width: u32, height: u32, row: u32) -> Seq<u8> {
    buf.subrange(line_offset(width, height, row), line_offset(width, height, row) + 3 * (
    width as int))
}

/// Whether some rendered scanline in `lines` carries image row `row`.
pub open spec fn has_row(lines: Seq<(Vec<u8>, u32)>, row: u32) -> bool {
    exists|i: int| 0 <= i < lines.len() && lines[i].1 == row
}

/// One scanline of all-zero bytes.
pub open spec fn zero_row(width: u32) -> Seq<u8> {
    Seq::new((3 * width) as nat, |k: int| 0u8)
}

proof fn lemma_scaled_range(w: int, f: int, h: int)
    by (nonlinear_arith)
    requires
        0 <= w,
        0 <= f < h,
    ensures
        0 <= 3 * w * f,
        3 * w * f + 3 * w <= 3 * w * h,
{
}

proof fn lemma_scaled_disjoint(w: int, f1: int, f2: int)
    by (nonlinear_arith)
    requires
        0 <= w,
        0 <= f1,
        0 <= f2,
        f1 != f2,
    ensures
        3 * w * f1 + 3 * w <= 3 * w * f2 || 3 * w * f2 + 3 * w <= 3 * w * f1,
{
}

/// The range of buffer offsets of image row `row` lies inside a
/// buffer of `3 * width * height` bytes.
pub proof fn lemma_line_offset_bounds(width: u32, height: u32, row: u32)
    requires
        row < height,
    ensures
        0 <= line_offset(width, height, row),
        line_offset(width, height, row) + 3 * (width as int) <= 3 * (width as int) * (
        height as int),
{
    lemma_scaled_range(width as int, height as int - 1 - row as int, height as int);
}

/// Distinct image rows occupy disjoint byte ranges of the buffer.
pub proof fn lemma_line_ranges_disjoint(width: u32, height: u32, r1: u32, r2: u32)
    requires
        r1 < height,
        r2 < height,
        r1 != r2,
    ensures
        line_offset(width, height, r1) + 3 * (width as int) <= line_offset(width, height, r2)
            || line_offset(width, height, r2) + 3 * (width as int) <= line_offset(
            width,
            height,
            r1,
        ),
{
    lemma_scaled_disjoint(
        width as int,
        height as int - 1 - r1 as int,
        height as int - 1 - r2 as int,
    );
}

/// Flatten one scanline of pixels into bytes, three per pixel, in
/// channel order red, green, blue.
pub fn line_bytes(pixels: &Vec<RGBColour>) -> (bytes: Vec<u8>)
    requires
        pixels@.len() * 3 <= usize::MAX,
    ensures
        bytes@.len() == pixels@.len() * 3,
        forall|i: int| 0 <= i < pixels@.len() ==> bytes@[3 * i] == (#[trigger] pixels@[i]).r
            && bytes@[3 * i + 1] == pixels@[i].g && bytes@[3 * i + 2] == pixels@[i].b,
{
    let mut bytes: Vec<u8> = Vec::new();
    let mut x: usize = 0;
    while x < pixels.len()
        invariant
            x <= pixels@.len(),
            pixels@.len() * 3 <= usize::MAX,
            bytes@.len() == x * 3,
            forall|i: int| 0 <= i < x ==> bytes@[3 * i] == (#[trigger] pixels@[i]).r && bytes@[3 * i
                + 1] == pixels@[i].g && bytes@[3 * i + 2] == pixels@[i].b,
        decreases pixels@.len() - x,
    {
        let p = pixels[x];
        bytes.push(p.r);
        bytes.push(p.g);
        bytes.push(p.b);
        x = x + 1;
    }
    bytes
}

/// Image-space coordinates of the pixel stored at `index` of the
/// row-major output buffer: pixels run left to right with the top
/// image row first, while the camera's vertical coordinate grows
/// upward, so the stored row `index / width` reads camera row
/// `height - 1 - index / width`.
pub fn frame_coords(index: usize, width: u32, height: u32) -> (xy: (u32, u32))
    requires
        1 <= width,
        index < width as int * height as int,
    ensures
        xy.0 == index as int % width as int,
        xy.1 == height as int - 1 - index as int / width as int,
        xy.0 < width,
        xy.1 < height,
{
    proof {
        assert((index as int) / (width as int) < (height as int) && 0 <= (index as int) / (
        width as int) && (index as int) % (width as int) < (width as int) && 0 <= (index as int) % (
        width as int)) by (nonlinear_arith)
            requires
                index < width as int * height as int,
                1 <= width,
        ;
    }
    let x = index % (width as usize);
    let flipped = index / (width as usize);
    ((x as u32), height - 1 - (flipped as u32))
}

/// Write one rendered scanline into its place in the output buffer,
/// leaving every byte outside that row's range unchanged.
pub fn write_line(buf: &mut Vec<u8>, width: u32, height: u32, row: u32, line: &Vec<u8>)
    requires
        3 * (width as int) * (height as int) <= usize::MAX,
        old(buf)@.len() == 3 * (width as int) * (height as int),
        row < height,
        line@.len() == 3 * (width as int),
    ensures
        final(buf)@.len() == old(buf)@.len(),
        row_slice(final(buf)@, width, height, row) == line@,
        forall|b: int| 0 <= b < final(buf)@.len() && !(line_offset(width, height, row) <= b
            < line_offset(width, height, row) + 3 * (width as int)) ==> final(buf)@[b] == old(
            buf,
        )@[b],
        forall|other: u32| other < height && other != row ==> row_slice(
            final(buf)@,
            width,
            height,
            other,
        ) == row_slice(old(buf)@, width, height, other),
{
    proof {
        lemma_line_offset_bounds(width, height, row);
        assert(3 * (width as int) <= 3 * (width as int) * (height as int)) by (nonlinear_arith)
            requires
                1 <= height as int,
        ;
    }
    let off: usize = 3 * (width as usize) * ((height - 1 - row) as usize);
    let ghost off_int = line_offset(width, height, row);
    assert(off == off_int);
    let mut k: usize = 0;
    while k < line.len()
        invariant
            k <= line@.len(),
            line@.len() == 3 * (width as int),
            buf@.len() == old(buf)@.len(),
            old(buf)@.len() == 3 * (width as int) * (height as int),
            3 * (width as int) * (height as int) <= usize::MAX,
            off == off_int,
            off_int == line_offset(width, height, row),
            row < height,
            off_int + line@.len() <= buf@.len(),
            forall|b: int| 0 <= b < buf@.len() && !(off_int <= b < off_int + k) ==> buf@[b] == old(
                buf,
            )@[b],
            forall|b: int| off_int <= b < off_int + k ==> buf@[b] == line@[b - off_int],
        decreases line@.len() - k,
    {
        let value = line[k];
        buf[off + k] = value;
        k = k + 1;
    }
    proof {
        assert(row_slice(buf@, width, height, row) =~= line@);
        assert forall|other: u32| other < height && other != row implies row_slice(
            buf@,
            width,
            height,
            other,
        ) == row_slice(old(buf)@, width, height, other) by {
            lemma_line_ranges_disjoint(width, height, row, other);
            lemma_line_offset_bounds(width, height, other);
            assert(row_slice(buf@, width, height, other) =~= row_slice(
                old(buf)@,
                width,
                height,
                other,
            ));
        }
    }
}

/// Merge the scanlines the workers produced into one row-major image
/// buffer, each at the offset of its own row; rows no scanline covers
/// stay black. Every scanline must carry a distinct row below
/// `height` and hold exactly `3 * width` bytes.
pub fn merge_lines(width: u32, height: u32, lines: &Vec<(Vec<u8>, u32)>) -> (buf: Vec<u8>)
    requires
        3 * (width as int) * (height as int) <= usize::MAX,
        forall|i: int| 0 <= i < lines@.len() ==> (#[trigger] lines@[i]).1 < height
            && lines@[i].0@.len() == 3 * (width as int),
        forall|i: int, j: int| 0 <= i < j < lines@.len() ==> lines@[i].1 != lines@[j].1,
    ensures
        buf@.len() == 3 * (width as int) * (height as int),
        forall|i: int| 0 <= i < lines@.len() ==> row_slice(
            buf@,
            width,
            height,
            (#[trigger] lines@[i]).1,
        ) == lines@[i].0@,
        forall|row: u32| row < height && !has_row(lines@, row) ==> (#[trigger] row_slice(
            buf@,
            width,
            height,
            row,
        )) == zero_row(width),
{
    proof {
        assert(0 <= (width as int) * (height as int) && (width as int) * (height as int) <= 3 * (
        width as int) * (height as int) && 3 * ((width as int) * (height as int)) == 3 * (
        width as int) * (height as int)) by (nonlinear_arith);
    }
    let total: usize = 3 * ((width as usize) * (height as usize));
    let mut buf: Vec<u8> = Vec::new();
    while buf.len() < total
        invariant
            buf@.len() <= total,
            total == 3 * (width as int) * (height as int),
            forall|b: int| 0 <= b < buf@.len() ==> buf@[b] == 0,
        decreases total - buf@.len(),
    {
        buf.push(0u8);
    }
    proof {
        assert forall|row: u32| row < height implies #[trigger] row_slice(buf@, width, height, row)
            == zero_row(width) by {
            lemma_line_offset_bounds(width, height, row);
            assert(row_slice(buf@, width, height, row) =~= zero_row(width));
        }
    }
    let mut i: usize = 0;
    while i < lines.len()
        invariant
            i <= lines@.len(),
            3 * (width as int) * (height as int) <= usize::MAX,
            buf@.len() == 3 * (width as int) * (height as int),
            forall|j: int| 0 <= j < lines@.len() ==> (#[trigger] lines@[j]).1 < height
                && lines@[j].0@.len() == 3 * (width as int),
            forall|j: int, j2: int| 0 <= j < j2 < lines@.len() ==> lines@[j].1 != lines@[j2].1,
            forall|j: int| 0 <= j < i ==> row_slice(buf@, width, height, (#[trigger] lines@[j]).1)
                == lines@[j].0@,
            forall|row: u32| row < height && (forall|j: int| 0 <= j < i ==> (#[trigger] lines@[j]).1
                != row) ==> (#[trigger] row_slice(buf@, width, height, row)) == zero_row(width),
        decreases lines@.len() - i,
    {
        let pair: &(Vec<u8>, u32) = &lines[i];
        let row = pair.1;
        write_line(&mut buf, width, height, row, &pair.0);
        i = i + 1;
    }
    buf
}

} // verus!
