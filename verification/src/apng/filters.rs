//! The five PNG row filters, their exact byte-level model, and the proof
//! that each one is inverted by the PNG reconstruction.
//!
//! A filtered image is a sequence of scanlines; each scanline is emitted
//! as one tag byte followed by the filtered bytes of the row. All filter
//! arithmetic is byte-wise modulo 256. `a` is the byte `pixel_bytes` to
//! the left, `b` the byte directly above, `c` the byte above-left; each
//! is zero where it falls off the edge (the row above the top row is
//! all zeros).

use vstd::prelude::*;
use vstd::arithmetic::div_mod::{lemma_fundamental_div_mod, lemma_mod_multiples_basic};
use vstd::arithmetic::mul::{lemma_mul_inequality, lemma_mul_nonnegative};
use vstd::math::{max, min};
use super::compress::{compress, zlib_of};
use super::chunks::push_bytes;

verus! {

/// The five PNG row filters, in tag order.
#[derive(Clone, Copy, Debug, Eq, PartialEq, Structural)]
pub enum Filter {
    NoFilter,
    Sub,
    Up,
    Average,
    Paeth,
}

/// The tag byte written before each scanline.
pub open spec fn filter_tag(f: Filter) -> u8 {
    match f {
        Filter::NoFilter => 0,
        Filter::Sub => 1,
        Filter::Up => 2,
        Filter::Average => 3,
        Filter::Paeth => 4,
    }
}

/// Byte-wise wrapping subtraction: `a - b` modulo 256.
pub open spec fn wsub(a: u8, b: u8) -> u8 {
    if a - b < 0 {
        (a - b + 256) as u8
    } else {
        (a - b) as u8
    }
}

/// Byte-wise wrapping addition: `a + b` modulo 256.
pub open spec fn wadd(a: u8, b: u8) -> u8 {
    if a + b > 255 {
        (a + b - 256) as u8
    } else {
        (a + b) as u8
    }
}

/// The Average predictor: the floor of the mean of left and above,
/// computed without overflow.
pub open spec fn average_predictor(a: u8, b: u8) -> u8 {
    ((a + b) / 2) as u8
}

/// The Paeth predictor: whichever of left, above, above-left lies
/// closest to `a + b - c`, ties broken in that order.
pub open spec fn paeth_predictor(a: u8, b: u8, c: u8) -> u8 {
    let p = a + b - c;
    let da = if p - a >= 0 { p - a } else { a - p };
    let db = if p - b >= 0 { p - b } else { b - p };
    let dc = if p - c >= 0 { p - c } else { c - p };
    if da <= db && da <= dc {
        a
    } else if db <= dc {
        b
    } else {
        c
    }
}

/// An all-zero row, standing above the top scanline.
pub open spec fn zero_row(stride: int) -> Seq<u8> {
    Seq::new(stride as nat, |i: int| 0u8)
}

/// Scanline `k` of `data` split into rows of `stride` bytes.
pub open spec fn row_of(data: Seq<u8>, stride: int, k: int) -> Seq<u8> {
    data.subrange(k * stride, (k + 1) * stride)
}

/// The row above scanline `k`: all zeros for the top row.
pub open spec fn prev_row_of(data: Seq<u8>, stride: int, k: int) -> Seq<u8> {
    if k == 0 {
        zero_row(stride)
    } else {
        row_of(data, stride, k - 1)
    }
}

/// Byte `i` of the row filtered with `f`, given the reconstructed row
/// `prev` above it.
pub open spec fn filtered_byte(f: Filter, prev: Seq<u8>, row: Seq<u8>, bpp: int, i: int) -> u8
    recommends
        prev.len() == row.len(),
        0 <= i < row.len(),
{
    let a = if i >= bpp { row[i - bpp] } else { 0u8 };
    let b = prev[i];
    let c = if i >= bpp { prev[i - bpp] } else { 0u8 };
    match f {
        Filter::NoFilter => row[i],
        Filter::Sub => wsub(row[i], a),
        Filter::Up => wsub(row[i], b),
        Filter::Average => wsub(row[i], average_predictor(a, b)),
        Filter::Paeth => wsub(row[i], paeth_predictor(a, b, c)),
    }
}

/// One whole scanline filtered with `f`.
pub open spec fn filtered_row(f: Filter, prev: Seq<u8>, row: Seq<u8>, bpp: int) -> Seq<u8>
    recommends
        prev.len() == row.len(),
{
    Seq::new(row.len(), |i: int| filtered_byte(f, prev, row, bpp, i))
}

/// The first `n` scanlines of `data`, each emitted as a tag byte and its
/// filtered bytes.
pub open spec fn filtered_lines(f: Filter, data: Seq<u8>, stride: int, bpp: int, n: int) -> Seq<u8>
    decreases n,
{
    if n <= 0 {
        Seq::empty()
    } else {
        filtered_lines(f, data, stride, bpp, n - 1) + seq![filter_tag(f)] + filtered_row(
            f,
            prev_row_of(data, stride, n - 1),
            row_of(data, stride, n - 1),
            bpp,
        )
    }
}

/// The whole filtered stream: every `stride`-byte scanline of `data`,
/// filtered with `f`.
pub open spec fn filtered_data(f: Filter, data: Seq<u8>, stride: int, bpp: int) -> Seq<u8>
    recommends
        stride > 0,
        data.len() as int % stride == 0,
{
    filtered_lines(f, data, stride, bpp, data.len() as int / stride)
}

/// The Paeth predictor, computed as the decoder does.
fn paeth_byte(a: u8, b: u8, c: u8) -> (r: u8)
    ensures
        r == paeth_predictor(a, b, c),
{
    let p: i32 = a as i32 + b as i32 - c as i32;
    let da: i32 = if p >= a as i32 {
        p - a as i32
    } else {
        a as i32 - p
    };
    let db: i32 = if p >= b as i32 {
        p - b as i32
    } else {
        b as i32 - p
    };
    let dc: i32 = if p >= c as i32 {
        p - c as i32
    } else {
        c as i32 - p
    };
    if da <= db && da <= dc {
        a
    } else if db <= dc {
        b
    } else {
        c
    }
}

impl Filter {
    /// The tag byte of this filter.
    pub fn tag(self) -> (r: u8)
        ensures
            r == filter_tag(self),
    {
        match self {
            Filter::NoFilter => 0,
            Filter::Sub => 1,
            Filter::Up => 2,
            Filter::Average => 3,
            Filter::Paeth => 4,
        }
    }

    /// Filters every `row_stride`-byte scanline of `image_data`, emitting
    /// one tag byte and the filtered bytes per line.
    pub fn apply(self, image_data: &[u8], row_stride: usize, pixel_bytes: usize) -> (out: Vec<
        u8,
    >)
        requires
            row_stride > 0,
            image_data@.len() as int % row_stride as int == 0,
        ensures
            out@ == filtered_data(self, image_data@, row_stride as int, pixel_bytes as int),
    {
        let ghost data = image_data@;
        let ghost stride = row_stride as int;
        let ghost bpp = pixel_bytes as int;
        let len = image_data.len();
        let n = len / row_stride;
        proof {
            lemma_fundamental_div_mod(len as int, stride);
            assert(stride * (len as int / stride) == (len as int / stride) * stride)
                by (nonlinear_arith);
        }
        let mut out: Vec<u8> = Vec::new();
        let mut k: usize = 0;
        while k < n
            invariant
                k <= n,
                n == data.len() as int / stride,
                n * stride == data.len(),
                stride == row_stride as int,
                bpp == pixel_bytes as int,
                data == image_data@,
                row_stride > 0,
                len == data.len(),
                out@ == filtered_lines(self, data, stride, bpp, k as int),
            decreases n - k,
        {
            proof {
                lemma_mul_inequality(k as int + 1, n as int, stride);
                lemma_mul_nonnegative(k as int, stride);
                assert((k as int + 1) * stride == k as int * stride + stride)
                    by (nonlinear_arith);
                if k > 0 {
                    lemma_mul_inequality(1, k as int, stride);
                    assert(k as int * stride - stride == (k as int - 1) * stride)
                        by (nonlinear_arith);
                }
            }
            let base: usize = k * row_stride;
            out.push(self.tag());
            let ghost row = row_of(data, stride, k as int);
            let ghost prev = prev_row_of(data, stride, k as int);
            proof {
                assert(row.len() == stride);
                assert(prev.len() == stride);
                assert(row =~= data.subrange(base as int, base as int + stride));
                if k > 0 {
                    assert(prev =~= data.subrange(base as int - stride, base as int));
                }
            }
            let mut i: usize = 0;
            while i < row_stride
                invariant
                    i <= row_stride,
                    k < n,
                    n * stride == data.len(),
                    stride == row_stride as int,
                    bpp == pixel_bytes as int,
                    data == image_data@,
                    row_stride > 0,
                    len == data.len(),
                    base == k as int * stride,
                    base + row_stride <= len,
                    k > 0 ==> base >= row_stride,
                    row == row_of(data, stride, k as int),
                    prev == prev_row_of(data, stride, k as int),
                    row.len() == stride,
                    prev.len() == stride,
                    row == data.subrange(base as int, base as int + stride),
                    k > 0 ==> prev == data.subrange(base as int - stride, base as int),
                    k == 0 ==> prev == zero_row(stride),
                    out@ == filtered_lines(self, data, stride, bpp, k as int) + seq![
                        filter_tag(self),
                    ] + filtered_row(self, prev, row, bpp).subrange(0, i as int),
                decreases row_stride - i,
            {
                let x = image_data[base + i];
                let a = if i >= pixel_bytes {
                    image_data[base + i - pixel_bytes]
                } else {
                    0
                };
                let b = if k > 0 {
                    image_data[base - row_stride + i]
                } else {
                    0
                };
                let c = if k > 0 && i >= pixel_bytes {
                    image_data[base - row_stride + i - pixel_bytes]
                } else {
                    0
                };
                let v = match self {
                    Filter::NoFilter => x,
                    Filter::Sub => x.wrapping_sub(a),
                    Filter::Up => x.wrapping_sub(b),
                    Filter::Average => {
                        let p = ((a as u16 + b as u16) / 2) as u8;
                        x.wrapping_sub(p)
                    },
                    Filter::Paeth => x.wrapping_sub(paeth_byte(a, b, c)),
                };
                proof {
                    assert(row[i as int] == data[base as int + i]);
                    assert(i as int >= bpp ==> row[i as int - bpp] == data[
                        base as int + i - bpp
                    ]);
                    if k > 0 {
                        assert(prev[i as int] == data[base as int - stride + i]);
                        assert(i as int >= bpp ==> prev[i as int - bpp] == data[
                            base as int - stride + i - bpp
                        ]);
                    } else {
                        assert(prev[i as int] == 0);
                        assert(i as int >= bpp ==> prev[i as int - bpp] == 0);
                    }
                    assert(v == filtered_byte(self, prev, row, bpp, i as int));
                }
                out.push(v);
                i = i + 1;
                proof {
                    assert(out@ =~= filtered_lines(self, data, stride, bpp, k as int) + seq![
                        filter_tag(self),
                    ] + filtered_row(self, prev, row, bpp).subrange(0, i as int));
                }
            }
            k = k + 1;
            proof {
                assert(filtered_row(self, prev, row, bpp).subrange(0, stride) =~= filtered_row(
                    self,
                    prev,
                    row,
                    bpp,
                ));
                assert(out@ =~= filtered_lines(self, data, stride, bpp, k as int));
            }
        }
        out
    }
}

/// Byte `i` of the PNG reconstruction of the filtered scanline `filt`,
/// given the reconstructed row `prev` above it. The left neighbors are
/// the already reconstructed bytes of the same row.
pub open spec fn unfiltered_byte(f: Filter, prev: Seq<u8>, filt: Seq<u8>, bpp: int, i: int) -> u8
    recommends
        prev.len() == filt.len(),
        0 <= i < filt.len(),
        bpp >= 1,
    decreases i,
{
    let a = if i >= bpp && bpp >= 1 {
        unfiltered_byte(f, prev, filt, bpp, i - bpp)
    } else {
        0u8
    };
    let b = prev[i];
    let c = if i >= bpp { prev[i - bpp] } else { 0u8 };
    match f {
        Filter::NoFilter => filt[i],
        Filter::Sub => wadd(filt[i], a),
        Filter::Up => wadd(filt[i], b),
        Filter::Average => wadd(filt[i], average_predictor(a, b)),
        Filter::Paeth => wadd(filt[i], paeth_predictor(a, b, c)),
    }
}

/// One whole scanline reconstructed from its filtered form.
pub open spec fn unfiltered_row(f: Filter, prev: Seq<u8>, filt: Seq<u8>, bpp: int) -> Seq<u8>
    recommends
        prev.len() == filt.len(),
        bpp >= 1,
{
    Seq::new(filt.len(), |i: int| unfiltered_byte(f, prev, filt, bpp, i))
}

/// Wrapping subtraction is inverted by wrapping addition.
proof fn lemma_wadd_wsub(x: u8, p: u8)
    ensures
        wadd(wsub(x, p), p) == x,
{
}

proof fn lemma_unfiltered_byte(f: Filter, prev: Seq<u8>, row: Seq<u8>, bpp: int, i: int)
    requires
        prev.len() == row.len(),
        bpp >= 1,
        0 <= i < row.len(),
    ensures
        unfiltered_byte(f, prev, filtered_row(f, prev, row, bpp), bpp, i) == row[i],
    decreases i,
{
    if i >= bpp {
        lemma_unfiltered_byte(f, prev, row, bpp, i - bpp);
    }
    let a = if i >= bpp { row[i - bpp] } else { 0u8 };
    let b = prev[i];
    let c = if i >= bpp { prev[i - bpp] } else { 0u8 };
    match f {
        Filter::NoFilter => {
        },
        Filter::Sub => {
            lemma_wadd_wsub(row[i], a);
        },
        Filter::Up => {
            lemma_wadd_wsub(row[i], b);
        },
        Filter::Average => {
            lemma_wadd_wsub(row[i], average_predictor(a, b));
        },
        Filter::Paeth => {
            lemma_wadd_wsub(row[i], paeth_predictor(a, b, c));
        },
    }
}

/// Filter idempotence: decoding a filtered scanline with the PNG
/// reconstruction reproduces the original row exactly, for every filter,
/// every pixel width, and every row above (the top row decodes against
/// the all-zero row).
pub proof fn lemma_filter_round_trip(f: Filter, prev: Seq<u8>, row: Seq<u8>, bpp: int)
    requires
        prev.len() == row.len(),
        bpp >= 1,
    ensures
        unfiltered_row(f, prev, filtered_row(f, prev, row, bpp), bpp) =~= row,
{
    let filt = filtered_row(f, prev, row, bpp);
    assert forall|i: int| 0 <= i < row.len() implies unfiltered_byte(f, prev, filt, bpp, i)
        == row[i] by {
        lemma_unfiltered_byte(f, prev, row, bpp, i);
    }
}

/// The scanlines sampled for filter inference: ten lines each from the
/// top, the middle and the bottom when the image has more than fifty
/// lines, else the first up-to-ten lines.
pub open spec fn sample_of(data: Seq<u8>, stride: int) -> Seq<u8>
    recommends
        stride > 0,
        data.len() as int % stride == 0,
{
    let lines = data.len() as int / stride;
    if 50 < lines {
        let top_end = 10 * stride;
        let middle_start = max(top_end, (lines / 2) * stride);
        let middle_end = min(middle_start + 10 * stride, data.len() as int);
        let bottom_start = max(middle_end, (max(lines, 10) - 10) * stride);
        data.subrange(0, top_end) + data.subrange(middle_start, middle_end) + data.subrange(
            bottom_start,
            data.len() as int,
        )
    } else {
        data.subrange(0, min(10, lines) * stride)
    }
}

/// The compressed length of the sample of `data` filtered with `f`.
pub open spec fn sample_compressed_len(f: Filter, data: Seq<u8>, stride: int, bpp: int) -> int {
    zlib_of(filtered_data(f, sample_of(data, stride), stride, bpp)).len() as int
}

/// The filter that sampling selects: the one whose compressed sample
/// is largest, later tags winning ties.
pub open spec fn best_filter(data: Seq<u8>, stride: int, bpp: int) -> Filter {
    let s0 = sample_compressed_len(Filter::NoFilter, data, stride, bpp);
    let s1 = sample_compressed_len(Filter::Sub, data, stride, bpp);
    let s2 = sample_compressed_len(Filter::Up, data, stride, bpp);
    let s3 = sample_compressed_len(Filter::Average, data, stride, bpp);
    let s4 = sample_compressed_len(Filter::Paeth, data, stride, bpp);
    if s4 >= s0 && s4 >= s1 && s4 >= s2 && s4 >= s3 {
        Filter::Paeth
    } else if s3 >= s0 && s3 >= s1 && s3 >= s2 {
        Filter::Average
    } else if s2 >= s0 && s2 >= s1 {
        Filter::Up
    } else if s1 >= s0 {
        Filter::Sub
    } else {
        Filter::NoFilter
    }
}

/// Filters `image_data` with `filter`, compresses the result, and
/// returns the compressed length.
pub fn get_compressed_size(
    filter: Filter,
    image_data: &[u8],
    row_stride: usize,
    pixel_bytes: usize,
) -> (r: usize)
    requires
        row_stride > 0,
        image_data@.len() as int % row_stride as int == 0,
    ensures
        r == zlib_of(
            filtered_data(filter, image_data@, row_stride as int, pixel_bytes as int),
        ).len(),
{
    let filtered = filter.apply(image_data, row_stride, pixel_bytes);
    let compressed = compress(filtered.as_slice());
    compressed.len()
}

/// Selects a filter by compressing a sample of the scanlines with each
/// of the five filters and keeping the one whose compressed sample is
/// largest, later tags winning ties.
pub fn infer_best_filter(image_data: &[u8], row_stride: usize, pixel_bytes: usize) -> (r: Filter)
    requires
        row_stride > 0,
        image_data@.len() as int % row_stride as int == 0,
    ensures
        r == best_filter(image_data@, row_stride as int, pixel_bytes as int),
{
    let ghost data = image_data@;
    let ghost stride = row_stride as int;
    let len = image_data.len();
    let lines = len / row_stride;
    proof {
        lemma_fundamental_div_mod(len as int, stride);
    }
    let mut sample: Vec<u8> = Vec::new();
    if 50 < lines {
        let half = lines / 2;
        proof {
            assert(half <= lines) by (nonlinear_arith)
                requires half == lines / 2 && lines >= 0;
            lemma_mul_inequality(10, lines as int, stride);
            lemma_mul_inequality(half as int, lines as int, stride);
        }
        let top_end = 10 * row_stride;
        let factor_ms: usize = if 10 > half { 10 } else { half };
        proof {
            lemma_mul_inequality(factor_ms as int, lines as int, stride);
        }
        let ms = factor_ms * row_stride;
        let factor_me: usize = if lines - factor_ms < 10 { lines } else { factor_ms + 10 };
        proof {
            lemma_mul_inequality(factor_me as int, lines as int, stride);
        }
        let me = factor_me * row_stride;
        let factor_bs: usize = if factor_me > lines - 10 { factor_me } else { lines - 10 };
        proof {
            lemma_mul_inequality(factor_bs as int, lines as int, stride);
        }
        let bs = factor_bs * row_stride;
        proof {
            // The factor forms agree with the byte-level max/min.
            if 10 > half {
                lemma_mul_inequality(half as int, 10, stride);
            } else {
                lemma_mul_inequality(10, half as int, stride);
            }
            assert(ms == max(10 * stride, half as int * stride));
            assert((factor_ms as int + 10) * stride == factor_ms as int * stride + 10 * stride)
                by (nonlinear_arith);
            if lines - factor_ms < 10 {
                lemma_mul_inequality(lines as int, factor_ms as int + 10, stride);
                assert(me == min(ms as int + 10 * stride, len as int));
            } else {
                assert(me == min(ms as int + 10 * stride, len as int));
            }
            if factor_me > lines - 10 {
                lemma_mul_inequality(lines as int - 10, factor_me as int, stride);
                assert(bs == max(me as int, (lines as int - 10) * stride));
            } else {
                lemma_mul_inequality(factor_me as int, lines as int - 10, stride);
                assert(bs == max(me as int, (lines as int - 10) * stride));
            }
            assert(factor_ms <= factor_me <= lines);
            assert(ms <= me);
            assert(me <= bs);
        }
        push_bytes(&mut sample, &image_data[0..top_end]);
        push_bytes(&mut sample, &image_data[ms..me]);
        push_bytes(&mut sample, &image_data[bs..len]);
        proof {
            assert(sample@ =~= sample_of(data, stride));
            let f_total = 10 + (factor_me - factor_ms) + (lines - factor_bs);
            assert(sample@.len() as int == f_total as int * stride) by (nonlinear_arith)
                requires
                    sample@.len() as int == 10 * stride + (factor_me as int * stride
                        - factor_ms as int * stride) + (lines as int * stride
                        - factor_bs as int * stride),
                    f_total == 10 + (factor_me - factor_ms) + (lines - factor_bs),
                    factor_ms <= factor_me <= lines,
                    factor_bs <= lines,
                    len as int == lines as int * stride,
                    sample@.len() <= len,
            ;
            lemma_mod_multiples_basic(f_total as int, stride);
        }
    } else {
        let take: usize = if lines < 10 { lines } else { 10 };
        proof {
            lemma_mul_inequality(take as int, lines as int, stride);
        }
        push_bytes(&mut sample, &image_data[0..take * row_stride]);
        proof {
            assert(sample@ =~= sample_of(data, stride));
            lemma_mod_multiples_basic(take as int, stride);
        }
    }
    let s0 = get_compressed_size(Filter::NoFilter, sample.as_slice(), row_stride, pixel_bytes);
    let s1 = get_compressed_size(Filter::Sub, sample.as_slice(), row_stride, pixel_bytes);
    let s2 = get_compressed_size(Filter::Up, sample.as_slice(), row_stride, pixel_bytes);
    let s3 = get_compressed_size(Filter::Average, sample.as_slice(), row_stride, pixel_bytes);
    let s4 = get_compressed_size(Filter::Paeth, sample.as_slice(), row_stride, pixel_bytes);
    let mut r = Filter::NoFilter;
    let mut r_size = s0;
    if s1 >= r_size {
        r = Filter::Sub;
        r_size = s1;
    }
    if s2 >= r_size {
        r = Filter::Up;
        r_size = s2;
    }
    if s3 >= r_size {
        r = Filter::Average;
        r_size = s3;
    }
    if s4 >= r_size {
        r = Filter::Paeth;
        r_size = s4;
    }
    r
}

} // verus!
