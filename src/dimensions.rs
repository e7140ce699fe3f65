use vstd::prelude::*;
use crate::grid::BrightnessGrid;
use crate::quantize::build_charset;

verus! {

/// Why a request for new dimensions could not be carried out.
#[derive(Debug, Clone, Copy, PartialEq, Eq, Structural)]
pub enum DimensionsError {
    /// The text is not of the form `WIDTHxHEIGHT` with two decimal `u32` values.
    Malformed,
    /// The image to resample has no rows or no columns.
    EmptyImage,
    /// A side reaches `MAX_RESAMPLED_SIDE`, or the resampling buffers would
    /// not fit in memory's address range.
    TooLarge,
}

pub open spec fn is_digit(c: char) -> bool {
    '0' <= c <= '9'
}

/// The value of a string of decimal digits.
pub open spec fn digits_value(d: Seq<char>) -> int
    decreases d.len(),
{
    if d.len() == 0 {
        0
    } else {
        digits_value(d.drop_last()) * 10 + ((d.last() as u32) - 48)
    }
}

/// The digits of a number's text once an optional leading `+` is taken off.
pub open spec fn unsigned_digits(s: Seq<char>) -> Seq<char> {
    if s.len() > 0 && s[0] == '+' {
        s.drop_first()
    } else {
        s
    }
}

/// The `u32` that `s` spells in decimal: an optional `+`, then one or more
/// digits whose value fits in a `u32`.
pub open spec fn parse_u32_spec(s: Seq<char>) -> Option<u32> {
    let d = unsigned_digits(s);
    if d.len() > 0 && (forall|k: int| 0 <= k < d.len() ==> is_digit(#[trigger] d[k]))
        && digits_value(d) <= u32::MAX {
        Some(digits_value(d) as u32)
    } else {
        None
    }
}

/// `i` is the position of the first `x` in `s`.
pub open spec fn is_first_x(s: Seq<char>, i: int) -> bool {
    &&& 0 <= i < s.len()
    &&& s[i] == 'x'
    &&& forall|j: int| 0 <= j < i ==> #[trigger] s[j] != 'x'
}

/// The width and height that `s` spells as `WIDTHxHEIGHT`, split at its first `x`.
pub open spec fn dimensions_spec(s: Seq<char>) -> Option<(u32, u32)> {
    if exists|i: int| is_first_x(s, i) {
        let i = choose|i: int| is_first_x(s, i);
        match (parse_u32_spec(s.take(i)), parse_u32_spec(s.skip(i + 1))) {
            (Some(w), Some(h)) => Some((w, h)),
            _ => None,
        }
    } else {
        None
    }
}

proof fn lemma_digits_value_grows(d: Seq<char>, j: int)
    requires
        0 <= j <= d.len(),
        forall|k: int| 0 <= k < d.len() ==> is_digit(#[trigger] d[k]),
    ensures
        digits_value(d.take(j)) <= digits_value(d),
        0 <= digits_value(d.take(j)),
    decreases d.len(),
{
    if j == d.len() {
        assert(d.take(j) == d);
        if d.len() > 0 {
            lemma_digits_value_grows(d.drop_last(), j - 1);
            assert(d.drop_last().take(j - 1) == d.drop_last());
        }
    } else {
        let e = d.drop_last();
        assert(e.take(j) == d.take(j));
        lemma_digits_value_grows(e, j);
        assert(e.take(e.len() as int) == e);
        lemma_digits_value_grows(e, e.len() as int);
    }
}

/// The `u32` that `chars[start..end]` spells in decimal.
fn parse_u32(chars: &Vec<char>, start: usize, end: usize) -> (r: Option<u32>)
    requires
        start <= end <= chars@.len(),
    ensures
        r == parse_u32_spec(chars@.subrange(start as int, end as int)),
{
    let ghost s = chars@.subrange(start as int, end as int);
    let mut first: usize = start;
    if start < end && chars[start] == '+' {
        first = start + 1;
    }
    let ghost d = chars@.subrange(first as int, end as int);
    assert(d == unsigned_digits(s));
    if first == end {
        return None;
    }
    let mut value: u64 = 0;
    for j in first..end
        invariant
            d == chars@.subrange(first as int, end as int),
            d == unsigned_digits(s),
            s == chars@.subrange(start as int, end as int),
            start <= first,
            d.len() > 0,
            first <= end <= chars@.len(),
            value <= u32::MAX,
            value == digits_value(d.take(j - first)),
            forall|k: int| 0 <= k < j - first ==> is_digit(#[trigger] d[k]),
    {
        let c = chars[j];
        if !('0' <= c && c <= '9') {
            assert(!is_digit(d[j - first]));
            assert(!(forall|k: int| 0 <= k < d.len() ==> is_digit(#[trigger] d[k])));
            return None;
        }
        assert(d.take(j - first + 1).drop_last() == d.take(j - first));
        value = value * 10 + ((c as u32) - 48) as u64;
        if value > 0xffff_ffff {
            proof {
                if forall|k: int| 0 <= k < d.len() ==> is_digit(#[trigger] d[k]) {
                    lemma_digits_value_grows(d, j - first + 1);
                }
            }
            return None;
        }
    }
    assert(d.take(d.len() as int) == d);
    Some(value as u32)
}

/// The width and height that `text` spells as `WIDTHxHEIGHT`.
pub fn parse_dimensions(text: &str) -> (r: Option<(u32, u32)>)
    ensures
        r == dimensions_spec(text@),
{
    // one entry per character of the text
    let chars = build_charset(text);
    let n: usize = chars.len();
    let mut i: usize = 0;
    while i < n
        invariant
            chars@ == text@,
            n == chars@.len(),
            i <= n,
            forall|j: int| 0 <= j < i ==> #[trigger] chars@[j] != 'x',
        decreases n - i,
    {
        if chars[i] == 'x' {
            let ghost s = chars@;
            assert(is_first_x(s, i as int));
            proof {
                let c = choose|c: int| is_first_x(s, c);
                assert(c == i as int) by {
                    if c < i as int {
                        assert(s[c] != 'x');
                    } else if c > i as int {
                        assert(s[i as int] != 'x');
                    }
                }
            }
            assert(s.take(i as int) == s.subrange(0, i as int));
            assert(s.skip(i + 1) == s.subrange(i + 1, n as int));
            let w = parse_u32(&chars, 0, i);
            let h = parse_u32(&chars, i + 1, n);
            return match (w, h) {
                (Some(w), Some(h)) => Some((w, h)),
                _ => None,
            };
        }
        i = i + 1;
    }
    None
}

/// Resampling places each output row and column in the source with `f32`
/// arithmetic; below this many rows or columns those positions stay within a
/// quarter of a row of the exact ones.
pub const MAX_RESAMPLED_SIDE: u32 = 1048576;

/// Whether resampling a `width` x `height` image to `new_width` x
/// `new_height` can go ahead, and if not, why.
pub open spec fn resize_refusal(width: u32, height: u32, new_width: u32, new_height: u32) -> Option<
    DimensionsError,
> {
    if new_width == width && new_height == height {
        None
    } else if width == 0 || height == 0 {
        Some(DimensionsError::EmptyImage)
    } else if width >= MAX_RESAMPLED_SIDE || height >= MAX_RESAMPLED_SIDE || new_width
        >= MAX_RESAMPLED_SIDE || new_height >= MAX_RESAMPLED_SIDE {
        Some(DimensionsError::TooLarge)
    } else if 4 * width * new_height > usize::MAX || new_width * new_height > usize::MAX {
        Some(DimensionsError::TooLarge)
    } else {
        None
    }
}

/// Relies on `image::imageops::resize` with `FilterType::Lanczos3` on a
/// `GrayImage` built by `ImageBuffer::from_raw`: the result holds
/// `new_width * new_height` samples, and is an exact copy when the dimensions
/// do not change. It panics when its buffers' lengths (four channels per
/// sample in between) overflow `usize`; an image with no rows or no columns is
/// only handed to it when nothing is resampled. It also panics when a window
/// of source samples gets weights that are all zero (the sum it divides by is
/// then zero, and the `NaN` that follows does not convert to `u8`): it relies
/// on every side staying below `MAX_RESAMPLED_SIDE`, so that its `f32` source
/// positions stay within a quarter of a row of the exact ones and each window
/// holds a sample less than one row from its centre, whose weight is positive.
#[verifier::external_body]
fn lanczos3_resize(samples: &Vec<u8>, width: u32, height: u32, new_width: u32, new_height: u32) -> (r:
    Vec<u8>)
    requires
        samples@.len() == width * height,
        resize_refusal(width, height, new_width, new_height) is None,
    ensures
        r@.len() == new_width * new_height,
        new_width == width && new_height == height ==> r@ == samples@,
{
    let source = image::GrayImage::from_raw(width, height, samples.clone()).unwrap();
    let filter = image::imageops::FilterType::Lanczos3;
    image::imageops::resize(&source, new_width, new_height, filter).into_raw()
}

/// `grid` resampled to the dimensions that `dimensions` spells as
/// `WIDTHxHEIGHT`.
pub fn resize_to(grid: &BrightnessGrid, dimensions: &str) -> (r: Result<
    BrightnessGrid,
    DimensionsError,
>)
    requires
        grid.wf(),
    ensures
        dimensions_spec(dimensions@) is None ==> r == Err::<BrightnessGrid, DimensionsError>(
            DimensionsError::Malformed,
        ),
        dimensions_spec(dimensions@) matches Some((w, h)) ==> match resize_refusal(
            grid.spec_width() as u32,
            grid.spec_height() as u32,
            w,
            h,
        ) {
            Some(e) => r == Err::<BrightnessGrid, DimensionsError>(e),
            None => r matches Ok(g) && g.wf() && g.spec_width() == w && g.spec_height() == h && (w
                == grid.spec_width() && h == grid.spec_height() ==> g@ == grid@),
        },
{
    let (w, h) = match parse_dimensions(dimensions) {
        Some(d) => d,
        None => return Err(DimensionsError::Malformed),
    };
    let width = grid.width();
    let height = grid.height();
    if !(w == width && h == height) {
        if width == 0 || height == 0 {
            return Err(DimensionsError::EmptyImage);
        }
        if width >= MAX_RESAMPLED_SIDE || height >= MAX_RESAMPLED_SIDE || w >= MAX_RESAMPLED_SIDE
            || h >= MAX_RESAMPLED_SIDE {
            return Err(DimensionsError::TooLarge);
        }
        assert(4 * (width as int) * (h as int) <= 4 * 0xffff_ffff * 0xffff_ffff) by (nonlinear_arith)
            requires
                width <= 0xffff_ffff,
                h <= 0xffff_ffff,
        ;
        assert((w as int) * (h as int) <= 0xffff_ffff * 0xffff_ffff) by (nonlinear_arith)
            requires
                w <= 0xffff_ffff,
                h <= 0xffff_ffff,
        ;
        let buffer: u128 = 4 * (width as u128) * (h as u128);
        let output: u128 = (w as u128) * (h as u128);
        if buffer > usize::MAX as u128 || output > usize::MAX as u128 {
            return Err(DimensionsError::TooLarge);
        }
    }
    let samples = lanczos3_resize(grid.samples(), width, height, w, h);
    let resized = BrightnessGrid::from_samples(w, h, samples);
    Ok(resized.unwrap())
}

} // verus!
