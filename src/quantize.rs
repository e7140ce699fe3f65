use vstd::prelude::*;

verus! {

/// The character set used when the caller supplies none, from emptiest to densest.
pub const DEFAULT_CHARSET: &'static str = " \u{2591}\u{2592}\u{2593}\u{2588}";

/// Raised when a conversion is asked for with an unusable configuration.
#[derive(Debug, Clone, Copy, PartialEq, Eq, Structural)]
pub enum ConfigurationError {
    /// The character set holds no character.
    EmptyCharset,
}

/// The bucket that brightness `b` falls in when `[0, 256)` is cut into `n`
/// buckets of equal width.
pub open spec fn bucket_index(n: int, b: int) -> int {
    n * b / 256
}

/// The character of `charset` that stands for brightness `b`.
pub open spec fn select_spec(charset: Seq<char>, b: u8) -> char {
    charset[bucket_index(charset.len() as int, b as int)]
}

/// The bucket of every brightness lies in `[0, n)`.
pub proof fn lemma_bucket_in_range(n: int, b: int)
    requires
        n >= 1,
        0 <= b < 256,
    ensures
        0 <= bucket_index(n, b) < n,
{
    assert(0 <= n * b) by (nonlinear_arith)
        requires
            n >= 1,
            b >= 0,
    ;
    assert(n * b < n * 256) by (nonlinear_arith)
        requires
            n >= 1,
            b < 256,
    ;
}

/// Every bucket of a set of at most 256 characters is reached by some brightness.
pub proof fn lemma_bucket_reachable(n: int, i: int)
    requires
        1 <= n <= 256,
        0 <= i < n,
    ensures
        exists|b: int| 0 <= b < 256 && #[trigger] bucket_index(n, b) == i,
{
    let b = (256 * i + n - 1) / n;
    assert(n * b >= 256 * i && n * b < 256 * i + n) by (nonlinear_arith)
        requires
            n >= 1,
            i >= 0,
            b == (256 * i + n - 1) / n,
    ;
    assert(b <= 255) by (nonlinear_arith)
        requires
            1 <= n <= 256,
            0 <= i < n,
            n * b < 256 * i + n,
    ;
    assert(0 <= b) by (nonlinear_arith)
        requires
            n >= 1,
            i >= 0,
            b == (256 * i + n - 1) / n,
    ;
    assert(bucket_index(n, b) == i) by (nonlinear_arith)
        requires
            n * b >= 256 * i,
            n * b < 256 * i + 256,
    ;
}

/// A brighter sample never maps to an earlier character of the set.
pub proof fn lemma_bucket_monotonic(n: int, b1: int, b2: int)
    requires
        n >= 1,
        0 <= b1 <= b2 < 256,
    ensures
        bucket_index(n, b1) <= bucket_index(n, b2),
{
    assert(n * b1 <= n * b2) by (nonlinear_arith)
        requires
            n >= 1,
            b1 <= b2,
    ;
    assert(n * b1 / 256 <= n * b2 / 256) by (nonlinear_arith)
        requires
            n * b1 <= n * b2,
            0 <= n * b1,
    ;
}

/// A set of one character maps every brightness to that character.
pub proof fn lemma_single_character(charset: Seq<char>, b: u8)
    requires
        charset.len() == 1,
    ensures
        select_spec(charset, b) == charset[0],
{
    lemma_bucket_in_range(1, b as int);
}

/// The character of `charset` that stands for `brightness`.
pub fn get_char(charset: &[char], brightness: &u8) -> (r: char)
    requires
        charset@.len() >= 1,
    ensures
        r == select_spec(charset@, *brightness),
{
    let n: usize = charset.len();
    proof {
        lemma_bucket_in_range(n as int, *brightness as int);
    }
    let product: u128 = (n as u128) * (*brightness as u128);
    let index: u128 = product / 256;
    charset[index as usize]
}

/// The character of `charset` that stands for `brightness`, or an error when
/// the set is empty.
pub fn select(charset: &[char], brightness: u8) -> (r: Result<char, ConfigurationError>)
    ensures
        charset@.len() == 0 <==> r == Err::<char, ConfigurationError>(
            ConfigurationError::EmptyCharset,
        ),
        charset@.len() > 0 ==> r == Ok::<char, ConfigurationError>(
            select_spec(charset@, brightness),
        ),
{
    if charset.len() == 0 {
        Err(ConfigurationError::EmptyCharset)
    } else {
        Ok(get_char(charset, &brightness))
    }
}

/// One entry per character of `raw`, in order.
pub fn build_charset(raw: &str) -> (r: Vec<char>)
    ensures
        r@ == raw@,
{
    let mut out: Vec<char> = Vec::new();
    for c in it: raw.chars()
        invariant
            out@ == it.seq().take(it.index() as int),
            it.seq() == raw@,
    {
        out.push(c);
    }
    out
}

/// The default character set, as a sequence.
pub fn default_charset() -> (r: Vec<char>)
    ensures
        r@ == seq![' ', '\u{2591}', '\u{2592}', '\u{2593}', '\u{2588}'],
{
    proof {
        reveal_strlit(" \u{2591}\u{2592}\u{2593}\u{2588}");
    }
    build_charset(DEFAULT_CHARSET)
}

/// Selection is a function of its inputs: equal inputs give equal characters.
pub proof fn lemma_select_deterministic(charset1: Seq<char>, b1: u8, charset2: Seq<char>, b2: u8)
    requires
        charset1 == charset2,
        b1 == b2,
    ensures
        select_spec(charset1, b1) == select_spec(charset2, b2),
{
}

} // verus!
