//! Value types describing a camera and the formats it can capture in.
use vstd::prelude::*;
use crate::error::NokhwaError;
use crate::frame_format::FrameFormat;

verus! {

// ---------------------------------------------------------------- camera index

/// The index of a camera: a number, or a string such as a device id.
#[derive(Clone, Debug, Hash, Ord, PartialOrd, Eq, PartialEq)]
pub enum CameraIndex {
    Index(u32),
    String(String),
}

pub open spec fn is_decimal_digit(c: char) -> bool {
    '0' <= c && c <= '9'
}

pub open spec fn digit_value(c: char) -> int {
    (c as u32) - ('0' as u32)
}

/// The value of a string of decimal digits.
pub open spec fn digits_value(s: Seq<char>) -> int
    decreases s.len(),
{
    if s.len() == 0 {
        0
    } else {
        digits_value(s.drop_last()) * 10 + digit_value(s.last())
    }
}

/// The text after an optional leading `+`.
pub open spec fn unsigned_part(s: Seq<char>) -> Seq<char> {
    if s.len() > 0 && s[0] == '+' {
        s.drop_first()
    } else {
        s
    }
}

/// Whether the text is an optional `+` and one or more decimal digits whose value
/// fits in a `u32`.
pub open spec fn reads_as_u32(s: Seq<char>) -> bool {
    let d = unsigned_part(s);
    &&& d.len() > 0
    &&& forall|i: int| 0 <= i < d.len() ==> is_decimal_digit(#[trigger] d[i])
    &&& digits_value(d) <= u32::MAX
}

pub open spec fn digit_char(d: int) -> char {
    if d == 0 {
        '0'
    } else if d == 1 {
        '1'
    } else if d == 2 {
        '2'
    } else if d == 3 {
        '3'
    } else if d == 4 {
        '4'
    } else if d == 5 {
        '5'
    } else if d == 6 {
        '6'
    } else if d == 7 {
        '7'
    } else if d == 8 {
        '8'
    } else {
        '9'
    }
}

/// The decimal digits of `n`, most significant first, without leading zeros.
pub open spec fn decimal_digits(n: nat) -> Seq<char>
    decreases n,
{
    if n < 10 {
        seq![digit_char(n as int)]
    } else {
        decimal_digits(n / 10).push(digit_char((n % 10) as int))
    }
}

/// Relies on `str::parse::<u32>`: an optional `+` followed by decimal digits only,
/// accepted exactly when the value fits.
#[verifier::external_body]
fn parse_u32(s: &str) -> (r: Option<u32>)
    ensures
        r is Some <==> reads_as_u32(s@),
        r matches Some(v) ==> v == digits_value(unsigned_part(s@)),
{
    s.parse::<u32>().ok()
}

/// Relies on `u32`'s `Display` (through `to_string`): the decimal digits, no sign or
/// padding.
#[verifier::external_body]
fn decimal_string(n: u32) -> (r: String)
    ensures
        r@ == decimal_digits(n as nat),
{
    n.to_string()
}

impl CameraIndex {
    /// This index as a number; a string index is read as a decimal `u32`.
    pub fn as_index(&self) -> (r: Result<u32, NokhwaError>)
        ensures
            match self {
                CameraIndex::Index(i) => r == Ok::<u32, NokhwaError>(*i),
                CameraIndex::String(s) => {
                    &&& (r is Ok <==> reads_as_u32(s@))
                    &&& (r matches Ok(v) ==> v == digits_value(unsigned_part(s@)))
                },
            },
    {
        match self {
            CameraIndex::Index(i) => Ok(*i),
            CameraIndex::String(s) => match parse_u32(s.as_str()) {
                Some(v) => Ok(v),
                None => Err(NokhwaError::GeneralError("camera index is not a number".to_owned())),
            },
        }
    }

    /// This index as text; a numeric index is written in decimal.
    pub fn as_string(&self) -> (r: String)
        ensures
            match self {
                CameraIndex::Index(i) => r@ == decimal_digits(*i as nat),
                CameraIndex::String(s) => r@ == s@,
            },
    {
        match self {
            CameraIndex::Index(i) => decimal_string(*i),
            CameraIndex::String(s) => s.clone(),
        }
    }

    pub fn is_index(&self) -> (r: bool)
        ensures
            r == (self is Index),
    {
        match self {
            CameraIndex::Index(_) => true,
            CameraIndex::String(_) => false,
        }
    }

    pub fn is_string(&self) -> (r: bool)
        ensures
            r == (self is String),
    {
        !self.is_index()
    }
}

impl Default for CameraIndex {
    fn default() -> (r: CameraIndex)
        ensures
            r == CameraIndex::Index(0),
    {
        CameraIndex::Index(0)
    }
}

// ---------------------------------------------------------------- resolution

/// A frame size in pixels. Ordered by width, then by height.
#[derive(Copy, Clone, Debug, Default, Hash, Eq, PartialEq, Structural, PartialOrd, Ord)]
pub struct Resolution {
    width_x: u32,
    height_y: u32,
}

pub open spec fn square(x: int) -> int {
    x * x
}

impl Resolution {
    pub closed spec fn spec_width(self) -> u32 {
        self.width_x
    }

    pub closed spec fn spec_height(self) -> u32 {
        self.height_y
    }

    /// Strict order: by width, then by height.
    pub open spec fn spec_lt(self, other: Resolution) -> bool {
        self.spec_width() < other.spec_width() || (self.spec_width() == other.spec_width()
            && self.spec_height() < other.spec_height())
    }

    /// Sum of the squared differences of the two axes.
    pub open spec fn spec_distance(self, other: Resolution) -> int {
        square(self.spec_width() - other.spec_width()) + square(self.spec_height()
            - other.spec_height())
    }

    pub fn new(x: u32, y: u32) -> (r: Resolution)
        ensures
            r.spec_width() == x,
            r.spec_height() == y,
    {
        Resolution { width_x: x, height_y: y }
    }

    pub fn width(self) -> (r: u32)
        ensures
            r == self.spec_width(),
    {
        self.width_x
    }

    pub fn height(self) -> (r: u32)
        ensures
            r == self.spec_height(),
    {
        self.height_y
    }

    pub fn x(self) -> (r: u32)
        ensures
            r == self.spec_width(),
    {
        self.width_x
    }

    pub fn y(self) -> (r: u32)
        ensures
            r == self.spec_height(),
    {
        self.height_y
    }

    /// Per-axis difference; `None` when either axis of `rhs` is larger.
    pub fn checked_sub(&self, rhs: &Resolution) -> (r: Option<Resolution>)
        ensures
            r is Some <==> rhs.spec_width() <= self.spec_width() && rhs.spec_height()
                <= self.spec_height(),
            r matches Some(v) ==> v.spec_width() == self.spec_width() - rhs.spec_width()
                && v.spec_height() == self.spec_height() - rhs.spec_height(),
    {
        if rhs.width_x > self.width_x || rhs.height_y > self.height_y {
            return None;
        }
        Some(Resolution::new(self.width_x - rhs.width_x, self.height_y - rhs.height_y))
    }

    /// Per-axis quotient; `None` when either axis of `rhs` is zero.
    pub fn checked_div(&self, rhs: &Resolution) -> (r: Option<Resolution>)
        ensures
            r is Some <==> rhs.spec_width() != 0 && rhs.spec_height() != 0,
            r matches Some(v) ==> v.spec_width() == self.spec_width() / rhs.spec_width()
                && v.spec_height() == self.spec_height() / rhs.spec_height(),
    {
        if rhs.width_x == 0 || rhs.height_y == 0 {
            return None;
        }
        Some(Resolution::new(self.width_x / rhs.width_x, self.height_y / rhs.height_y))
    }

    /// Per-axis remainder; `None` when either axis of `rhs` is zero.
    pub fn checked_rem(&self, rhs: &Resolution) -> (r: Option<Resolution>)
        ensures
            r is Some <==> rhs.spec_width() != 0 && rhs.spec_height() != 0,
            r matches Some(v) ==> v.spec_width() == self.spec_width() % rhs.spec_width()
                && v.spec_height() == self.spec_height() % rhs.spec_height(),
    {
        if rhs.width_x == 0 || rhs.height_y == 0 {
            return None;
        }
        Some(Resolution::new(self.width_x % rhs.width_x, self.height_y % rhs.height_y))
    }

    /// Whether `self` comes strictly before `other`.
    pub fn is_less_than(&self, other: &Resolution) -> (r: bool)
        ensures
            r == self.spec_lt(*other),
    {
        self.width_x < other.width_x || (self.width_x == other.width_x && self.height_y
            < other.height_y)
    }

    /// Squared Euclidean distance, computed without wrapping for any pair of sizes.
    pub fn distance_from(&self, other: &Resolution) -> (r: u128)
        ensures
            r == self.spec_distance(*other),
    {
        let dx: u128 = if self.width_x >= other.width_x {
            (self.width_x - other.width_x) as u128
        } else {
            (other.width_x - self.width_x) as u128
        };
        let dy: u128 = if self.height_y >= other.height_y {
            (self.height_y - other.height_y) as u128
        } else {
            (other.height_y - self.height_y) as u128
        };
        assert(dx * dx <= 0xffff_ffffu128 * 0xffff_ffffu128) by (nonlinear_arith)
            requires
                dx <= 0xffff_ffffu128,
        ;
        assert(dy * dy <= 0xffff_ffffu128 * 0xffff_ffffu128) by (nonlinear_arith)
            requires
                dy <= 0xffff_ffffu128,
        ;
        assert(square(self.width_x - other.width_x) == dx * dx) by (nonlinear_arith)
            requires
                dx == self.width_x - other.width_x || dx == other.width_x - self.width_x,
        ;
        assert(square(self.height_y - other.height_y) == dy * dy) by (nonlinear_arith)
            requires
                dy == self.height_y - other.height_y || dy == other.height_y - self.height_y,
        ;
        dx * dx + dy * dy
    }
}

/// A metric between two values of a type.
pub trait Distance<T> where T: PartialEq {
    fn distance_from(&self, other: &Self) -> T;
}

impl Distance<u128> for Resolution {
    fn distance_from(&self, other: &Resolution) -> u128 {
        Resolution::distance_from(self, other)
    }
}

// ---------------------------------------------------------------- frame rate

pub open spec fn abs(x: int) -> nat {
    if x < 0 {
        (-x) as nat
    } else {
        x as nat
    }
}

pub open spec fn gcd(a: nat, b: nat) -> nat
    decreases b,
{
    if b == 0 {
        a
    } else {
        gcd(b, a % b)
    }
}

/// A fraction in lowest terms with a positive denominator (`d` nonzero).
pub open spec fn lowest(n: int, d: int) -> (int, int) {
    let g = gcd(abs(n), abs(d)) as int;
    if d < 0 {
        (-n / g, -d / g)
    } else {
        (n / g, d / g)
    }
}

/// Remainder of truncating division: the sign follows `x`.
pub open spec fn trunc_rem(x: int, y: int) -> int {
    if x < 0 {
        -((abs(x) % abs(y)) as int)
    } else {
        (abs(x) % abs(y)) as int
    }
}

/// Both parts fit in an `i32`.
pub open spec fn fits_i32(p: (int, int)) -> bool {
    i32::MIN <= p.0 <= i32::MAX && i32::MIN <= p.1 <= i32::MAX
}

/// What the parts of a frame rate need for the arithmetic wrappers: `i32` range and a
/// positive denominator.
pub open spec fn small_fraction(n: int, d: int) -> bool {
    i32::MIN <= n <= i32::MAX && 0 < d <= i32::MAX
}

/// Relies on `<num_rational::Ratio<i64> as Sub>::sub`: the exact difference, reduced to
/// lowest terms with a positive denominator.
#[verifier::external_body]
fn ratio_sub(an: i64, ad: i64, bn: i64, bd: i64) -> (r: (i64, i64))
    requires
        small_fraction(an as int, ad as int),
        small_fraction(bn as int, bd as int),
    ensures
        (r.0 as int, r.1 as int) == lowest(an * bd - bn * ad, ad * bd),
        r.1 > 0,
        gcd(abs(r.0 as int), r.1 as nat) == 1,
{
    (num_rational::Ratio::new_raw(an, ad) - num_rational::Ratio::new_raw(bn, bd)).into_raw()
}

/// Relies on `<num_rational::Ratio<i64> as Div>::div`: the exact quotient, reduced to
/// lowest terms with a positive denominator; the divisor must not be zero.
#[verifier::external_body]
fn ratio_div(an: i64, ad: i64, bn: i64, bd: i64) -> (r: (i64, i64))
    requires
        small_fraction(an as int, ad as int),
        small_fraction(bn as int, bd as int),
        bn != 0,
    ensures
        (r.0 as int, r.1 as int) == lowest(an * bd, ad * bn),
        r.1 > 0,
        gcd(abs(r.0 as int), r.1 as nat) == 1,
{
    (num_rational::Ratio::new_raw(an, ad) / num_rational::Ratio::new_raw(bn, bd)).into_raw()
}

/// Relies on `<num_rational::Ratio<i64> as Rem>::rem`: the remainder of truncating
/// division over a common denominator, reduced to lowest terms with a positive
/// denominator; the divisor must not be zero.
#[verifier::external_body]
fn ratio_rem(an: i64, ad: i64, bn: i64, bd: i64) -> (r: (i64, i64))
    requires
        small_fraction(an as int, ad as int),
        small_fraction(bn as int, bd as int),
        bn != 0,
    ensures
        (r.0 as int, r.1 as int) == lowest(trunc_rem(an * bd, bn * ad), ad * bd),
        r.1 > 0,
        gcd(abs(r.0 as int), r.1 as nat) == 1,
{
    (num_rational::Ratio::new_raw(an, ad) % num_rational::Ratio::new_raw(bn, bd)).into_raw()
}

/// Relies on `num_rational::Ratio::<i64>::new`: the same fraction in lowest terms,
/// with a positive denominator, got by dividing both parts by their gcd.
#[verifier::external_body]
fn lowest_terms(numer: i64, denom: i64) -> (r: (i64, i64))
    requires
        denom > 0,
    ensures
        (r.0 as int, r.1 as int) == lowest(numer as int, denom as int),
        0 < r.1 <= denom,
        abs(r.0 as int) <= abs(numer as int),
        r.0 * denom == numer * r.1,
        gcd(abs(r.0 as int), r.1 as nat) == 1,
{
    num_rational::Ratio::new(numer, denom).into_raw()
}

/// The product of two `i32` values is well inside the `i64` range.
pub proof fn lemma_i32_product_bound(a: int, b: int)
    requires
        -0x8000_0000 <= a < 0x8000_0000,
        -0x8000_0000 <= b < 0x8000_0000,
    ensures
        -0x4000_0000_0000_0000 <= a * b <= 0x4000_0000_0000_0000,
{
    assert(-0x4000_0000_0000_0000 <= a * b <= 0x4000_0000_0000_0000) by (nonlinear_arith)
        requires
            -0x8000_0000 <= a < 0x8000_0000,
            -0x8000_0000 <= b < 0x8000_0000,
    ;
}

/// A frame rate: an exact fraction, kept in lowest terms with a positive denominator.
#[derive(Copy, Clone, Debug, Hash, Eq, PartialEq, Structural)]
pub struct FrameRate {
    numerator: i32,
    denominator: i32,
}

impl FrameRate {
    #[verifier::type_invariant]
    spec fn canonical(self) -> bool {
        self.denominator > 0 && gcd(abs(self.numerator as int), self.denominator as nat) == 1
    }

    pub closed spec fn spec_numerator(self) -> i32 {
        self.numerator
    }

    pub closed spec fn spec_denominator(self) -> i32 {
        self.denominator
    }

    /// Exact comparison of the two fractions (both denominators are positive).
    pub open spec fn spec_lt(self, other: FrameRate) -> bool {
        self.spec_numerator() * other.spec_denominator() < other.spec_numerator()
            * self.spec_denominator()
    }

    /// Builds the fraction from a wide numerator and a positive denominator, if its
    /// lowest terms fit.
    fn from_wide(numer: i64, denom: i64) -> (r: Option<FrameRate>)
        requires
            denom > 0,
        ensures
            r matches Some(f) ==> f.spec_numerator() * denom == numer * f.spec_denominator(),
            r matches Some(f) ==> (f.spec_numerator() as int, f.spec_denominator() as int) == lowest(
                numer as int,
                denom as int,
            ),
            -0x8000_0000 <= numer < 0x8000_0000 && denom < 0x8000_0000 ==> r is Some,
    {
        let (n, d) = lowest_terms(numer, denom);
        if n < -0x8000_0000 || n > 0x7fff_ffff || d > 0x7fff_ffff {
            return None;
        }
        Some(FrameRate { numerator: n as i32, denominator: d as i32 })
    }

    /// The frame rate `numerator / denominator`; fails when the denominator is not
    /// positive.
    pub fn new(numerator: i32, denominator: i32) -> (r: Result<FrameRate, NokhwaError>)
        ensures
            r is Ok <==> denominator > 0,
            r matches Ok(f) ==> f.spec_numerator() * denominator == numerator
                * f.spec_denominator(),
            r matches Ok(f) ==> (f.spec_numerator() as int, f.spec_denominator() as int) == lowest(
                numerator as int,
                denominator as int,
            ),
    {
        if denominator <= 0 {
            return Err(
                NokhwaError::InvalidFrameRate {
                    numerator: numerator as i64,
                    denominator: denominator as i64,
                },
            );
        }
        match FrameRate::from_wide(numerator as i64, denominator as i64) {
            Some(f) => Ok(f),
            None => Err(
                NokhwaError::InvalidFrameRate {
                    numerator: numerator as i64,
                    denominator: denominator as i64,
                },
            ),
        }
    }

    /// `self - other`, exactly, in lowest terms; `None` when that does not fit.
    pub fn checked_sub(&self, other: &FrameRate) -> (r: Option<FrameRate>)
        ensures
            ({
                let v = lowest(
                    self.spec_numerator() * other.spec_denominator() - other.spec_numerator()
                        * self.spec_denominator(),
                    self.spec_denominator() * other.spec_denominator(),
                );
                &&& r is Some <==> fits_i32(v)
                &&& r matches Some(f) ==> (f.spec_numerator() as int, f.spec_denominator() as int)
                    == v
            }),
    {
        proof {
            use_type_invariant(self);
            use_type_invariant(other);
        }
        let (n, d) = ratio_sub(
            self.numerator as i64,
            self.denominator as i64,
            other.numerator as i64,
            other.denominator as i64,
        );
        FrameRate::from_lowest(n, d)
    }

    /// `self / other`, exactly, in lowest terms; `None` when `other` is zero or the
    /// quotient does not fit.
    pub fn checked_div(&self, other: &FrameRate) -> (r: Option<FrameRate>)
        ensures
            other.spec_numerator() == 0 ==> r is None,
            other.spec_numerator() != 0 ==> ({
                let v = lowest(
                    self.spec_numerator() * other.spec_denominator(),
                    self.spec_denominator() * other.spec_numerator(),
                );
                &&& r is Some <==> fits_i32(v)
                &&& r matches Some(f) ==> (f.spec_numerator() as int, f.spec_denominator() as int)
                    == v
            }),
    {
        proof {
            use_type_invariant(self);
            use_type_invariant(other);
        }
        if other.numerator == 0 {
            return None;
        }
        let (n, d) = ratio_div(
            self.numerator as i64,
            self.denominator as i64,
            other.numerator as i64,
            other.denominator as i64,
        );
        FrameRate::from_lowest(n, d)
    }

    /// `self % other`: what is left after taking `other` a whole number of times,
    /// rounding toward zero, in lowest terms; `None` when `other` is zero or the result
    /// does not fit.
    pub fn checked_rem(&self, other: &FrameRate) -> (r: Option<FrameRate>)
        ensures
            other.spec_numerator() == 0 ==> r is None,
            other.spec_numerator() != 0 ==> ({
                let v = lowest(
                    trunc_rem(
                        self.spec_numerator() * other.spec_denominator(),
                        other.spec_numerator() * self.spec_denominator(),
                    ),
                    self.spec_denominator() * other.spec_denominator(),
                );
                &&& r is Some <==> fits_i32(v)
                &&& r matches Some(f) ==> (f.spec_numerator() as int, f.spec_denominator() as int)
                    == v
            }),
    {
        proof {
            use_type_invariant(self);
            use_type_invariant(other);
        }
        if other.numerator == 0 {
            return None;
        }
        let (n, d) = ratio_rem(
            self.numerator as i64,
            self.denominator as i64,
            other.numerator as i64,
            other.denominator as i64,
        );
        FrameRate::from_lowest(n, d)
    }

    /// A frame rate from a fraction already in lowest terms, if it fits.
    fn from_lowest(n: i64, d: i64) -> (r: Option<FrameRate>)
        requires
            d > 0,
            gcd(abs(n as int), d as nat) == 1,
        ensures
            r is Some <==> fits_i32((n as int, d as int)),
            r matches Some(f) ==> f.spec_numerator() == n && f.spec_denominator() == d,
    {
        if n < -0x8000_0000 || n > 0x7fff_ffff || d > 0x7fff_ffff {
            return None;
        }
        Some(FrameRate { numerator: n as i32, denominator: d as i32 })
    }

    /// A whole number of frames per second.
    pub fn frame_rate(fps: i32) -> (r: FrameRate)
        ensures
            r.spec_numerator() == fps,
            r.spec_denominator() == 1,
    {
        assert(gcd(abs(fps as int), 1) == 1) by {
            assert(abs(fps as int) % 1 == 0);
            reveal_with_fuel(gcd, 3);
        }
        FrameRate { numerator: fps, denominator: 1 }
    }

    pub fn numerator(&self) -> (r: &i32)
        ensures
            *r == self.spec_numerator(),
    {
        &self.numerator
    }

    pub fn denominator(&self) -> (r: &i32)
        ensures
            *r == self.spec_denominator(),
            *r > 0,
    {
        proof {
            use_type_invariant(self);
        }
        &self.denominator
    }

    /// Makes the positivity of the denominator known to the caller; does nothing at run
    /// time.
    pub fn denominator_is_positive(&self)
        ensures
            self.spec_denominator() > 0,
    {
        proof {
            use_type_invariant(self);
        }
    }

    /// Whether `self` is strictly slower than `other`.
    pub fn is_less_than(&self, other: &FrameRate) -> (r: bool)
        ensures
            r == self.spec_lt(*other),
    {
        proof {
            lemma_i32_product_bound(self.numerator as int, other.denominator as int);
            lemma_i32_product_bound(other.numerator as int, self.denominator as int);
        }
        (self.numerator as i64) * (other.denominator as i64) < (other.numerator as i64) * (
        self.denominator as i64)
    }
}

impl Default for FrameRate {
    fn default() -> (r: FrameRate)
        ensures
            r.spec_numerator() == 30,
            r.spec_denominator() == 1,
    {
        FrameRate::frame_rate(30)
    }
}

// ---------------------------------------------------------------- camera format

/// A resolution, a wire format and a frame rate that a device can capture in.
#[derive(Copy, Clone, Debug, Hash, Eq)]
pub struct CameraFormat {
    resolution: Resolution,
    format: FrameFormat,
    frame_rate: FrameRate,
}

impl CameraFormat {
    pub closed spec fn spec_resolution(self) -> Resolution {
        self.resolution
    }

    pub closed spec fn spec_format(self) -> FrameFormat {
        self.format
    }

    pub closed spec fn spec_frame_rate(self) -> FrameRate {
        self.frame_rate
    }

    pub fn new(resolution: Resolution, format: FrameFormat, frame_rate: FrameRate) -> (r:
        CameraFormat)
        ensures
            r.spec_resolution() == resolution,
            r.spec_format() == format,
            r.spec_frame_rate() == frame_rate,
    {
        CameraFormat { resolution, format, frame_rate }
    }

    pub fn new_from(res_x: u32, res_y: u32, format: FrameFormat, fps: FrameRate) -> (r:
        CameraFormat)
        ensures
            r.spec_resolution().spec_width() == res_x,
            r.spec_resolution().spec_height() == res_y,
            r.spec_format() == format,
            r.spec_frame_rate() == fps,
    {
        CameraFormat { resolution: Resolution::new(res_x, res_y), format, frame_rate: fps }
    }

    pub fn resolution(&self) -> (r: Resolution)
        ensures
            r == self.spec_resolution(),
    {
        self.resolution
    }

    pub fn width(&self) -> (r: u32)
        ensures
            r == self.spec_resolution().spec_width(),
    {
        self.resolution.width()
    }

    pub fn height(&self) -> (r: u32)
        ensures
            r == self.spec_resolution().spec_height(),
    {
        self.resolution.height()
    }

    pub fn set_resolution(&mut self, resolution: Resolution)
        ensures
            final(self).spec_resolution() == resolution,
            final(self).spec_format() == old(self).spec_format(),
            final(self).spec_frame_rate() == old(self).spec_frame_rate(),
    {
        self.resolution = resolution;
    }

    pub fn frame_rate(&self) -> (r: FrameRate)
        ensures
            r == self.spec_frame_rate(),
    {
        self.frame_rate
    }

    pub fn set_frame_rate(&mut self, frame_rate: FrameRate)
        ensures
            final(self).spec_frame_rate() == frame_rate,
            final(self).spec_resolution() == old(self).spec_resolution(),
            final(self).spec_format() == old(self).spec_format(),
    {
        self.frame_rate = frame_rate;
    }

    pub fn format(&self) -> (r: FrameFormat)
        ensures
            r == self.spec_format(),
    {
        self.format
    }

    pub fn set_format(&mut self, format: FrameFormat)
        ensures
            final(self).spec_format() == format,
            final(self).spec_resolution() == old(self).spec_resolution(),
            final(self).spec_frame_rate() == old(self).spec_frame_rate(),
    {
        self.format = format;
    }
}

impl PartialEq for CameraFormat {
    fn eq(&self, other: &CameraFormat) -> (r: bool) {
        self.resolution == other.resolution && self.format.same_as(&other.format)
            && self.frame_rate == other.frame_rate
    }
}

impl vstd::std_specs::cmp::PartialEqSpecImpl for CameraFormat {
    open spec fn obeys_eq_spec() -> bool {
        true
    }

    open spec fn eq_spec(&self, other: &CameraFormat) -> bool {
        *self == *other
    }
}

impl Default for CameraFormat {
    fn default() -> (r: CameraFormat)
        ensures
            r.spec_resolution().spec_width() == 640,
            r.spec_resolution().spec_height() == 480,
            r.spec_format() == FrameFormat::MJpeg,
            r.spec_frame_rate().spec_numerator() == 30,
            r.spec_frame_rate().spec_denominator() == 1,
    {
        CameraFormat {
            resolution: Resolution::new(640, 480),
            format: FrameFormat::MJpeg,
            frame_rate: FrameRate::default(),
        }
    }
}

// ---------------------------------------------------------------- camera information

/// What a backend reports about a camera: its name, a description, backend-specific
/// extra text, and its index.
#[derive(Clone, Debug, Hash, PartialEq, Eq, PartialOrd)]
pub struct CameraInformation {
    human_name: String,
    description: String,
    misc: String,
    index: CameraIndex,
}

impl CameraInformation {
    pub closed spec fn spec_human_name(&self) -> Seq<char> {
        self.human_name@
    }

    pub closed spec fn spec_description(&self) -> Seq<char> {
        self.description@
    }

    pub closed spec fn spec_misc(&self) -> Seq<char> {
        self.misc@
    }

    pub closed spec fn spec_index(&self) -> CameraIndex {
        self.index
    }

    pub fn new(human_name: String, description: String, misc: String, index: CameraIndex) -> (r:
        CameraInformation)
        ensures
            r.spec_human_name() == human_name@,
            r.spec_description() == description@,
            r.spec_misc() == misc@,
            r.spec_index() == index,
    {
        CameraInformation { human_name, description, misc, index }
    }

    pub fn human_name(&self) -> (r: String)
        ensures
            r@ == self.spec_human_name(),
    {
        self.human_name.clone()
    }

    pub fn set_human_name(&mut self, human_name: &str)
        ensures
            final(self).spec_human_name() == human_name@,
            final(self).spec_description() == old(self).spec_description(),
            final(self).spec_misc() == old(self).spec_misc(),
            final(self).spec_index() == old(self).spec_index(),
    {
        self.human_name = human_name.to_owned();
    }

    pub fn description(&self) -> (r: &str)
        ensures
            r@ == self.spec_description(),
    {
        self.description.as_str()
    }

    pub fn set_description(&mut self, description: &str)
        ensures
            final(self).spec_description() == description@,
            final(self).spec_human_name() == old(self).spec_human_name(),
            final(self).spec_misc() == old(self).spec_misc(),
            final(self).spec_index() == old(self).spec_index(),
    {
        self.description = description.to_owned();
    }

    pub fn misc(&self) -> (r: String)
        ensures
            r@ == self.spec_misc(),
    {
        self.misc.clone()
    }

    pub fn set_misc(&mut self, misc: &str)
        ensures
            final(self).spec_misc() == misc@,
            final(self).spec_human_name() == old(self).spec_human_name(),
            final(self).spec_description() == old(self).spec_description(),
            final(self).spec_index() == old(self).spec_index(),
    {
        self.misc = misc.to_owned();
    }

    pub fn index(&self) -> (r: &CameraIndex)
        ensures
            *r == self.spec_index(),
    {
        &self.index
    }

    pub fn set_index(&mut self, index: CameraIndex)
        ensures
            final(self).spec_index() == index,
            final(self).spec_human_name() == old(self).spec_human_name(),
            final(self).spec_description() == old(self).spec_description(),
            final(self).spec_misc() == old(self).spec_misc(),
    {
        self.index = index;
    }
}

} // verus!
