use vstd::prelude::*;
use crate::quantize::{ConfigurationError, get_char, lemma_bucket_in_range, select_spec};
use vstd::arithmetic::div_mod::lemma_fundamental_div_mod_converse;

verus! {

/// A rectangular grid of brightness samples, stored row by row.
pub struct BrightnessGrid {
    width: u32,
    height: u32,
    samples: Vec<u8>,
}

impl View for BrightnessGrid {
    type V = Seq<u8>;

    closed spec fn view(&self) -> Seq<u8> {
        self.samples@
    }
}

impl BrightnessGrid {
    pub closed spec fn spec_width(&self) -> nat {
        self.width as nat
    }

    pub closed spec fn spec_height(&self) -> nat {
        self.height as nat
    }

    /// The sample count matches the dimensions.
    pub open spec fn wf(&self) -> bool {
        self@.len() == self.spec_width() * self.spec_height()
    }

    /// A grid of the given dimensions over `samples`, or `None` when their
    /// count is not `width * height`.
    pub fn from_samples(width: u32, height: u32, samples: Vec<u8>) -> (r: Option<BrightnessGrid>)
        ensures
            (samples@.len() == width as nat * height as nat) <==> r is Some,
            r matches Some(g) ==> g.wf() && g.spec_width() == width && g.spec_height() == height
                && g@ == samples@,
    {
        assert((width as int) * (height as int) <= 0xffff_ffff * 0xffff_ffff) by (nonlinear_arith)
            requires
                width <= 0xffff_ffff,
                height <= 0xffff_ffff,
        ;
        let count: u64 = (width as u64) * (height as u64);
        if samples.len() as u64 == count {
            Some(BrightnessGrid { width, height, samples })
        } else {
            None
        }
    }

    pub fn width(&self) -> (r: u32)
        ensures
            r == self.spec_width(),
    {
        self.width
    }

    pub fn height(&self) -> (r: u32)
        ensures
            r == self.spec_height(),
    {
        self.height
    }

    pub fn samples(&self) -> (r: &Vec<u8>)
        ensures
            r@ == self@,
    {
        &self.samples
    }
}

/// The character of the text at position `i`: each row of `width` samples
/// becomes `width` characters followed by a line feed.
pub open spec fn rendered_at(charset: Seq<char>, samples: Seq<u8>, width: int, i: int) -> char {
    if i % (width + 1) == width {
        '\n'
    } else {
        select_spec(charset, samples[(i / (width + 1)) * width + i % (width + 1)])
    }
}

/// The full text for a grid of `height` rows of `width` samples.
pub open spec fn rendered(charset: Seq<char>, samples: Seq<u8>, width: nat, height: nat) -> Seq<
    char,
> {
    Seq::new(height * (width + 1), |i: int| rendered_at(charset, samples, width as int, i))
}

/// One character per sample, in the same order, or an error when the set is
/// empty.
pub fn charify(charset: &[char], brightness_map: &BrightnessGrid) -> (r: Result<
    Vec<char>,
    ConfigurationError,
>)
    ensures
        charset@.len() == 0 ==> r == Err::<Vec<char>, ConfigurationError>(
            ConfigurationError::EmptyCharset,
        ),
        charset@.len() > 0 ==> (r matches Ok(map) && map@ == brightness_map@.map_values(
            |b: u8| select_spec(charset@, b),
        )),
{
    if charset.len() == 0 {
        return Err(ConfigurationError::EmptyCharset);
    }
    let samples = &brightness_map.samples;
    let mut character_map: Vec<char> = Vec::new();
    for i in 0..samples.len()
        invariant
            samples@ == brightness_map@,
            charset@.len() >= 1,
            character_map@ == samples@.take(i as int).map_values(|b: u8| select_spec(charset@, b)),
    {
        let character = get_char(charset, &samples[i]);
        character_map.push(character);
        assert(samples@.take(i + 1) == samples@.take(i as int).push(samples@[i as int]));
    }
    assert(samples@.take(samples@.len() as int) == samples@);
    Ok(character_map)
}

/// The text for `grid`: one line per row, each holding one character per
/// sample of the row and ending in a line feed. Fails, producing nothing, when
/// the character set is empty.
pub fn render(charset: &[char], grid: &BrightnessGrid) -> (r: Result<Vec<char>, ConfigurationError>)
    requires
        grid.wf(),
    ensures
        charset@.len() == 0 ==> r == Err::<Vec<char>, ConfigurationError>(
            ConfigurationError::EmptyCharset,
        ),
        charset@.len() > 0 ==> (r matches Ok(text) && text@ == rendered(
            charset@,
            grid@,
            grid.spec_width(),
            grid.spec_height(),
        )),
{
    let chars = match charify(charset, grid) {
        Ok(chars) => chars,
        Err(e) => return Err(e),
    };
    let w: usize = grid.width as usize;
    let h: usize = grid.height as usize;
    let total: usize = grid.samples.len();
    let ghost s = grid@;
    let ghost wi = w as int;
    let mut text: Vec<char> = Vec::new();
    assert(0 * (wi + 1) == 0);
    for y in 0..h
        invariant
            w == grid.spec_width(),
            h == grid.spec_height(),
            chars@.len() == s.len(),
            s.len() == w * h,
            s.len() == total,
            wi == w,
            forall|k: int| 0 <= k < s.len() ==> chars@[k] == select_spec(charset@, s[k]),
            text@.len() == y * (wi + 1),
            forall|i: int| 0 <= i < text@.len() ==> text@[i] == rendered_at(charset@, s, wi, i),
    {
        assert((y as int) * wi + wi <= (h as int) * wi) by (nonlinear_arith)
            requires
                y < h,
                wi >= 0,
        ;
        for x in 0..w
            invariant
                w == grid.spec_width(),
                chars@.len() == s.len(),
                s.len() == w * h,
                s.len() == total,
                wi == w,
                y < h,
                (y as int) * wi + wi <= (h as int) * wi,
                forall|k: int| 0 <= k < s.len() ==> chars@[k] == select_spec(charset@, s[k]),
                text@.len() == y * (wi + 1) + x,
                forall|i: int| 0 <= i < text@.len() ==> text@[i] == rendered_at(charset@, s, wi, i),
        {
            let ghost pos = text@.len() as int;
            proof {
                lemma_fundamental_div_mod_converse(pos, wi + 1, y as int, x as int);
                assert((h as int) * wi == wi * h);
            }
            assert((y as int) * wi + x < s.len());
            text.push(chars[y * w + x]);
        }
        let ghost pos = text@.len() as int;
        proof {
            lemma_fundamental_div_mod_converse(pos, wi + 1, y as int, wi);
        }
        text.push('\n');
        assert(text@.len() == (y + 1) * (wi + 1)) by (nonlinear_arith)
            requires
                text@.len() == y * (wi + 1) + wi + 1,
        ;
    }
    assert(text@ =~= rendered(charset@, s, grid.spec_width(), grid.spec_height()));
    Ok(text)
}

/// With a character set that holds no line feed, the text of a grid of
/// `height` rows of `width` samples has exactly `height` lines of exactly
/// `width` characters: its length is `height * (width + 1)` and a line feed
/// stands at a position exactly when that position ends a line.
pub proof fn lemma_render_shape(charset: Seq<char>, samples: Seq<u8>, width: nat, height: nat)
    requires
        charset.len() >= 1,
        samples.len() == width * height,
        forall|k: int| 0 <= k < charset.len() ==> charset[k] != '\n',
    ensures
        rendered(charset, samples, width, height).len() == height * (width + 1),
        forall|i: int|
            0 <= i < height * (width + 1) ==> (#[trigger] rendered(
                charset,
                samples,
                width,
                height,
            )[i] == '\n' <==> i % (width as int + 1) == width),
{
    let t = rendered(charset, samples, width, height);
    let w = width as int;
    assert forall|i: int| 0 <= i < height * (width + 1) implies (#[trigger] t[i] == '\n' <==> i
        % (w + 1) == w) by {
        if i % (w + 1) != w {
            let k = (i / (w + 1)) * w + i % (w + 1);
            lemma_bucket_in_range(charset.len() as int, samples[k] as int);
        }
    }
}

/// Rendering is a function of its inputs: equal inputs give equal text.
pub proof fn lemma_render_deterministic(
    charset1: Seq<char>,
    samples1: Seq<u8>,
    width1: nat,
    height1: nat,
    charset2: Seq<char>,
    samples2: Seq<u8>,
    width2: nat,
    height2: nat,
)
    requires
        charset1 == charset2,
        samples1 == samples2,
        width1 == width2,
        height1 == height2,
    ensures
        rendered(charset1, samples1, width1, height1) == rendered(
            charset2,
            samples2,
            width2,
            height2,
        ),
{
}

} // verus!
