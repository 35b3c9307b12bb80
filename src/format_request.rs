//! Choosing one capture format out of the ones a device offers.
use vstd::prelude::*;
use crate::frame_format::FrameFormat;
use crate::types::{CameraFormat, FrameRate, Resolution, abs};

verus! {

/// The four selection strategies, without their parameters.
#[derive(Copy, Clone, Debug, Hash, Ord, PartialOrd, Eq, PartialEq, Structural)]
pub enum CustomFormatRequestType {
    HighestFrameRate,
    HighestResolution,
    Closest,
    Exact,
}

/// An inclusive range of resolutions, in the order of [`Resolution`].
#[derive(Copy, Clone, Debug, Hash, Eq, PartialEq, Structural)]
pub struct ResolutionRange {
    pub min: Resolution,
    pub max: Resolution,
}

/// An inclusive range of frame rates, compared by value.
#[derive(Copy, Clone, Debug, Hash, Eq, PartialEq, Structural)]
pub struct FrameRateRange {
    pub min: FrameRate,
    pub max: FrameRate,
}

/// How to pick a [`CameraFormat`]. Every strategy first keeps the candidates whose
/// wire format is listed in `frame_format`.
#[allow(inconsistent_fields)]
pub enum FormatRequest {
    /// The candidate nearest to the preferred resolution and frame rate. Its cost is the
    /// squared resolution distance plus the absolute frame-rate difference, each zero
    /// when no preference is given; equal costs go to the earlier candidate.
    Closest {
        resolution: Option<Resolution>,
        frame_rate: Option<FrameRate>,
        frame_format: Vec<FrameFormat>,
    },
    /// The fastest frame rate within range, then the largest resolution, then the first
    /// format in the order of formats.
    HighestFrameRate { frame_rate: FrameRateRange, frame_format: Vec<FrameFormat> },
    /// The largest resolution within range, then the fastest frame rate, then the first
    /// format in the order of formats.
    HighestResolution { resolution: ResolutionRange, frame_format: Vec<FrameFormat> },
    /// Exactly this resolution and frame rate; among those, the first format in the order
    /// of formats.
    Exact { resolution: Resolution, frame_rate: FrameRate, frame_format: Vec<FrameFormat> },
}

// ---------------------------------------------------------------- orders

/// Fractions `an / ad` and `bn / bd` compared by value (denominators positive).
pub open spec fn ratio_lt(an: int, ad: int, bn: int, bd: int) -> bool {
    an * bd < bn * ad
}

pub open spec fn fr_lt(a: FrameRate, b: FrameRate) -> bool {
    ratio_lt(
        a.spec_numerator() as int,
        a.spec_denominator() as int,
        b.spec_numerator() as int,
        b.spec_denominator() as int,
    )
}

/// Same value: neither is slower than the other.
pub open spec fn fr_tie(a: FrameRate, b: FrameRate) -> bool {
    !fr_lt(a, b) && !fr_lt(b, a)
}

pub open spec fn fr_positive(f: FrameRate) -> bool {
    f.spec_denominator() > 0
}

pub open spec fn res_same(a: Resolution, b: Resolution) -> bool {
    a.spec_width() == b.spec_width() && a.spec_height() == b.spec_height()
}

/// Distance from the preferred resolution, zero without a preference.
pub open spec fn resolution_cost(pref: Option<Resolution>, f: CameraFormat) -> int {
    match pref {
        Some(p) => f.spec_resolution().spec_distance(p),
        None => 0,
    }
}

/// Numerator of `|rate - preferred|` over [`rate_gap_den`]; zero without a preference.
pub open spec fn rate_gap_num(pref: Option<FrameRate>, f: CameraFormat) -> int {
    match pref {
        Some(p) => abs(
            f.spec_frame_rate().spec_numerator() * p.spec_denominator() - p.spec_numerator()
                * f.spec_frame_rate().spec_denominator(),
        ) as int,
        None => 0,
    }
}

pub open spec fn rate_gap_den(pref: Option<FrameRate>, f: CameraFormat) -> int {
    match pref {
        Some(p) => f.spec_frame_rate().spec_denominator() * p.spec_denominator(),
        None => 1,
    }
}

/// Whether `a` costs strictly less than `b`: cost is
/// `resolution_cost + rate_gap_num / rate_gap_den`, compared exactly.
pub open spec fn cost_lt(
    pref_res: Option<Resolution>,
    pref_rate: Option<FrameRate>,
    a: CameraFormat,
    b: CameraFormat,
) -> bool {
    ratio_lt(
        resolution_cost(pref_res, a) * rate_gap_den(pref_rate, a) + rate_gap_num(pref_rate, a),
        rate_gap_den(pref_rate, a),
        resolution_cost(pref_res, b) * rate_gap_den(pref_rate, b) + rate_gap_num(pref_rate, b),
        rate_gap_den(pref_rate, b),
    )
}

impl FormatRequest {
    pub open spec fn allowed_formats(&self) -> Seq<FrameFormat> {
        match self {
            FormatRequest::Closest { frame_format, .. } => frame_format@,
            FormatRequest::HighestFrameRate { frame_format, .. } => frame_format@,
            FormatRequest::HighestResolution { frame_format, .. } => frame_format@,
            FormatRequest::Exact { frame_format, .. } => frame_format@,
        }
    }

    /// Whether a candidate survives the strategy's filter.
    pub open spec fn passes(&self, f: CameraFormat) -> bool {
        &&& self.allowed_formats().contains(f.spec_format())
        &&& match self {
            FormatRequest::Closest { .. } => true,
            FormatRequest::HighestFrameRate { frame_rate, .. } => !fr_lt(
                f.spec_frame_rate(),
                frame_rate.min,
            ) && !fr_lt(frame_rate.max, f.spec_frame_rate()),
            FormatRequest::HighestResolution { resolution, .. } => !f.spec_resolution().spec_lt(
                resolution.min,
            ) && !resolution.max.spec_lt(f.spec_resolution()),
            FormatRequest::Exact { resolution, frame_rate, .. } => f.spec_resolution()
                == *resolution && f.spec_frame_rate() == *frame_rate,
        }
    }

    /// Whether candidate `a` is strictly preferred to candidate `b`.
    pub open spec fn better(&self, a: CameraFormat, b: CameraFormat) -> bool {
        let fa = a.spec_format().order_key() < b.spec_format().order_key();
        match self {
            FormatRequest::Closest { resolution, frame_rate, .. } => cost_lt(
                *resolution,
                *frame_rate,
                a,
                b,
            ),
            FormatRequest::HighestFrameRate { .. } => {
                ||| fr_lt(b.spec_frame_rate(), a.spec_frame_rate())
                ||| fr_tie(a.spec_frame_rate(), b.spec_frame_rate()) && (b.spec_resolution().spec_lt(
                    a.spec_resolution(),
                ) || (res_same(a.spec_resolution(), b.spec_resolution()) && fa))
            },
            FormatRequest::HighestResolution { .. } => {
                ||| b.spec_resolution().spec_lt(a.spec_resolution())
                ||| res_same(a.spec_resolution(), b.spec_resolution()) && (fr_lt(
                    b.spec_frame_rate(),
                    a.spec_frame_rate(),
                ) || (fr_tie(a.spec_frame_rate(), b.spec_frame_rate()) && fa))
            },
            FormatRequest::Exact { .. } => fa,
        }
    }

    /// `list[i]` is the pick: it passes, no passing candidate is better, and it is
    /// better than every passing candidate before it.
    pub open spec fn is_pick(&self, list: Seq<CameraFormat>, i: int) -> bool {
        &&& 0 <= i < list.len()
        &&& self.passes(list[i])
        &&& forall|j: int| 0 <= j < list.len() && self.passes(list[j]) ==> !self.better(list[j], list[i])
        &&& forall|j: int| 0 <= j < i && self.passes(list[j]) ==> self.better(list[i], list[j])
    }
}

// ---------------------------------------------------------------- order lemmas

proof fn lemma_ratio_lt_le(xn: int, xd: int, yn: int, yd: int, zn: int, zd: int)
    requires
        xd > 0,
        yd > 0,
        zd > 0,
        ratio_lt(xn, xd, yn, yd),
        !ratio_lt(zn, zd, yn, yd),
    ensures
        ratio_lt(xn, xd, zn, zd),
{
    assert(xn * yd * zd < yn * xd * zd) by (nonlinear_arith)
        requires
            xn * yd < yn * xd,
            zd > 0,
    ;
    assert(yn * zd * xd <= zn * yd * xd) by (nonlinear_arith)
        requires
            yn * zd <= zn * yd,
            xd > 0,
    ;
    assert(xn * zd < zn * xd) by (nonlinear_arith)
        requires
            xn * yd * zd < yn * xd * zd,
            yn * zd * xd <= zn * yd * xd,
            yd > 0,
    ;
}

proof fn lemma_ratio_le_lt(xn: int, xd: int, yn: int, yd: int, zn: int, zd: int)
    requires
        xd > 0,
        yd > 0,
        zd > 0,
        !ratio_lt(yn, yd, xn, xd),
        ratio_lt(yn, yd, zn, zd),
    ensures
        ratio_lt(xn, xd, zn, zd),
{
    assert(xn * yd * zd <= yn * xd * zd) by (nonlinear_arith)
        requires
            xn * yd <= yn * xd,
            zd > 0,
    ;
    assert(yn * zd * xd < zn * yd * xd) by (nonlinear_arith)
        requires
            yn * zd < zn * yd,
            xd > 0,
    ;
    assert(xn * zd < zn * xd) by (nonlinear_arith)
        requires
            xn * yd * zd <= yn * xd * zd,
            yn * zd * xd < zn * yd * xd,
            yd > 0,
    ;
}

proof fn lemma_ratio_le_le(xn: int, xd: int, yn: int, yd: int, zn: int, zd: int)
    requires
        xd > 0,
        yd > 0,
        zd > 0,
        !ratio_lt(yn, yd, xn, xd),
        !ratio_lt(zn, zd, yn, yd),
    ensures
        !ratio_lt(zn, zd, xn, xd),
{
    assert(xn * yd * zd <= yn * xd * zd) by (nonlinear_arith)
        requires
            xn * yd <= yn * xd,
            zd > 0,
    ;
    assert(yn * zd * xd <= zn * yd * xd) by (nonlinear_arith)
        requires
            yn * zd <= zn * yd,
            xd > 0,
    ;
    assert(xn * zd <= zn * xd) by (nonlinear_arith)
        requires
            xn * yd * zd <= yn * xd * zd,
            yn * zd * xd <= zn * yd * xd,
            yd > 0,
    ;
}

/// The three ratio lemmas on every ordering of three positive-denominator fractions.
proof fn lemma_ratio_facts(an: int, ad: int, bn: int, bd: int, cn: int, cd: int)
    requires
        ad > 0,
        bd > 0,
        cd > 0,
    ensures
        ratio_lt(an, ad, bn, bd) && !ratio_lt(cn, cd, bn, bd) ==> ratio_lt(an, ad, cn, cd),
        ratio_lt(bn, bd, an, ad) && !ratio_lt(cn, cd, an, ad) ==> ratio_lt(bn, bd, cn, cd),
        ratio_lt(cn, cd, bn, bd) && !ratio_lt(an, ad, bn, bd) ==> ratio_lt(cn, cd, an, ad),
        ratio_lt(bn, bd, cn, cd) && !ratio_lt(an, ad, cn, cd) ==> ratio_lt(bn, bd, an, ad),
        ratio_lt(an, ad, cn, cd) && !ratio_lt(bn, bd, cn, cd) ==> ratio_lt(an, ad, bn, bd),
        ratio_lt(cn, cd, an, ad) && !ratio_lt(bn, bd, an, ad) ==> ratio_lt(cn, cd, bn, bd),
        !ratio_lt(bn, bd, an, ad) && ratio_lt(bn, bd, cn, cd) ==> ratio_lt(an, ad, cn, cd),
        !ratio_lt(an, ad, bn, bd) && ratio_lt(an, ad, cn, cd) ==> ratio_lt(bn, bd, cn, cd),
        !ratio_lt(bn, bd, cn, cd) && ratio_lt(bn, bd, an, ad) ==> ratio_lt(cn, cd, an, ad),
        !ratio_lt(cn, cd, an, ad) && ratio_lt(cn, cd, bn, bd) ==> ratio_lt(an, ad, bn, bd),
        !ratio_lt(an, ad, cn, cd) && ratio_lt(an, ad, bn, bd) ==> ratio_lt(cn, cd, bn, bd),
        !ratio_lt(cn, cd, bn, bd) && ratio_lt(cn, cd, an, ad) ==> ratio_lt(bn, bd, an, ad),
        !ratio_lt(bn, bd, an, ad) && !ratio_lt(cn, cd, bn, bd) ==> !ratio_lt(cn, cd, an, ad),
        !ratio_lt(an, ad, bn, bd) && !ratio_lt(cn, cd, an, ad) ==> !ratio_lt(cn, cd, bn, bd),
        !ratio_lt(bn, bd, cn, cd) && !ratio_lt(an, ad, bn, bd) ==> !ratio_lt(an, ad, cn, cd),
        !ratio_lt(cn, cd, bn, bd) && !ratio_lt(an, ad, cn, cd) ==> !ratio_lt(an, ad, bn, bd),
        !ratio_lt(an, ad, cn, cd) && !ratio_lt(bn, bd, an, ad) ==> !ratio_lt(bn, bd, cn, cd),
        !ratio_lt(cn, cd, an, ad) && !ratio_lt(bn, bd, cn, cd) ==> !ratio_lt(bn, bd, an, ad),
{
    if ratio_lt(an, ad, bn, bd) && !ratio_lt(cn, cd, bn, bd) {
        lemma_ratio_lt_le(an, ad, bn, bd, cn, cd);
    }
    if ratio_lt(bn, bd, an, ad) && !ratio_lt(cn, cd, an, ad) {
        lemma_ratio_lt_le(bn, bd, an, ad, cn, cd);
    }
    if ratio_lt(cn, cd, bn, bd) && !ratio_lt(an, ad, bn, bd) {
        lemma_ratio_lt_le(cn, cd, bn, bd, an, ad);
    }
    if ratio_lt(bn, bd, cn, cd) && !ratio_lt(an, ad, cn, cd) {
        lemma_ratio_lt_le(bn, bd, cn, cd, an, ad);
    }
    if ratio_lt(an, ad, cn, cd) && !ratio_lt(bn, bd, cn, cd) {
        lemma_ratio_lt_le(an, ad, cn, cd, bn, bd);
    }
    if ratio_lt(cn, cd, an, ad) && !ratio_lt(bn, bd, an, ad) {
        lemma_ratio_lt_le(cn, cd, an, ad, bn, bd);
    }
    if !ratio_lt(bn, bd, an, ad) && ratio_lt(bn, bd, cn, cd) {
        lemma_ratio_le_lt(an, ad, bn, bd, cn, cd);
    }
    if !ratio_lt(an, ad, bn, bd) && ratio_lt(an, ad, cn, cd) {
        lemma_ratio_le_lt(bn, bd, an, ad, cn, cd);
    }
    if !ratio_lt(bn, bd, cn, cd) && ratio_lt(bn, bd, an, ad) {
        lemma_ratio_le_lt(cn, cd, bn, bd, an, ad);
    }
    if !ratio_lt(cn, cd, an, ad) && ratio_lt(cn, cd, bn, bd) {
        lemma_ratio_le_lt(an, ad, cn, cd, bn, bd);
    }
    if !ratio_lt(an, ad, cn, cd) && ratio_lt(an, ad, bn, bd) {
        lemma_ratio_le_lt(cn, cd, an, ad, bn, bd);
    }
    if !ratio_lt(cn, cd, bn, bd) && ratio_lt(cn, cd, an, ad) {
        lemma_ratio_le_lt(bn, bd, cn, cd, an, ad);
    }
    if !ratio_lt(bn, bd, an, ad) && !ratio_lt(cn, cd, bn, bd) {
        lemma_ratio_le_le(an, ad, bn, bd, cn, cd);
    }
    if !ratio_lt(an, ad, bn, bd) && !ratio_lt(cn, cd, an, ad) {
        lemma_ratio_le_le(bn, bd, an, ad, cn, cd);
    }
    if !ratio_lt(bn, bd, cn, cd) && !ratio_lt(an, ad, bn, bd) {
        lemma_ratio_le_le(cn, cd, bn, bd, an, ad);
    }
    if !ratio_lt(cn, cd, bn, bd) && !ratio_lt(an, ad, cn, cd) {
        lemma_ratio_le_le(bn, bd, cn, cd, an, ad);
    }
    if !ratio_lt(an, ad, cn, cd) && !ratio_lt(bn, bd, an, ad) {
        lemma_ratio_le_le(cn, cd, an, ad, bn, bd);
    }
    if !ratio_lt(cn, cd, an, ad) && !ratio_lt(bn, bd, cn, cd) {
        lemma_ratio_le_le(an, ad, cn, cd, bn, bd);
    }
}

impl FormatRequest {
    /// What the frame rates in play need for the orders to be orders: positive
    /// denominators.
    pub open spec fn rates_positive(&self, a: CameraFormat) -> bool {
        &&& fr_positive(a.spec_frame_rate())
        &&& match self {
            FormatRequest::Closest { frame_rate: Some(p), .. } => fr_positive(*p),
            _ => true,
        }
    }

    /// `better` is a strict weak order: asymmetric, and if `a` beats `b` while `c` does
    /// not, then `a` beats `c`.
    pub proof fn lemma_better_order(&self, a: CameraFormat, b: CameraFormat, c: CameraFormat)
        requires
            self.rates_positive(a),
            self.rates_positive(b),
            self.rates_positive(c),
        ensures
            self.better(a, b) ==> !self.better(b, a),
            self.better(a, b) && !self.better(c, b) ==> self.better(a, c),
    {
        let (ra, rb, rc) = (a.spec_frame_rate(), b.spec_frame_rate(), c.spec_frame_rate());
        lemma_ratio_facts(
            ra.spec_numerator() as int,
            ra.spec_denominator() as int,
            rb.spec_numerator() as int,
            rb.spec_denominator() as int,
            rc.spec_numerator() as int,
            rc.spec_denominator() as int,
        );
        match self {
            FormatRequest::Closest { resolution, frame_rate, .. } => {
                let (pr, pf) = (*resolution, *frame_rate);
                let (da, db, dc) = (rate_gap_den(pf, a), rate_gap_den(pf, b), rate_gap_den(pf, c));
                if let Some(p) = pf {
                    assert(da > 0 && db > 0 && dc > 0) by (nonlinear_arith)
                        requires
                            da == ra.spec_denominator() * p.spec_denominator(),
                            db == rb.spec_denominator() * p.spec_denominator(),
                            dc == rc.spec_denominator() * p.spec_denominator(),
                            ra.spec_denominator() > 0,
                            rb.spec_denominator() > 0,
                            rc.spec_denominator() > 0,
                            p.spec_denominator() > 0,
                    ;
                }
                lemma_ratio_facts(
                    resolution_cost(pr, a) * da + rate_gap_num(pf, a),
                    da,
                    resolution_cost(pr, b) * db + rate_gap_num(pf, b),
                    db,
                    resolution_cost(pr, c) * dc + rate_gap_num(pf, c),
                    dc,
                );
            },
            _ => {},
        }
    }
}

// ---------------------------------------------------------------- exact costs

/// A fraction `d + n / q` compared through its whole part and remainder.
proof fn lemma_cost_decomposition(dx: int, nx: int, qx: int, dy: int, ny: int, qy: int)
    requires
        qx > 0,
        qy > 0,
        nx >= 0,
        ny >= 0,
    ensures
        ratio_lt(dx * qx + nx, qx, dy * qy + ny, qy) <==> (dx + nx / qx < dy + ny / qy || (dx + nx
            / qx == dy + ny / qy && (nx % qx) * qy < (ny % qy) * qx)),
{
    let wx = dx + nx / qx;
    let wy = dy + ny / qy;
    let rx = nx % qx;
    let ry = ny % qy;
    vstd::arithmetic::div_mod::lemma_fundamental_div_mod(nx, qx);
    vstd::arithmetic::div_mod::lemma_fundamental_div_mod(ny, qy);
    assert(dx * qx + nx == wx * qx + rx) by (nonlinear_arith)
        requires
            nx == qx * (nx / qx) + rx,
            wx == dx + nx / qx,
    ;
    assert(dy * qy + ny == wy * qy + ry) by (nonlinear_arith)
        requires
            ny == qy * (ny / qy) + ry,
            wy == dy + ny / qy,
    ;
    assert(0 <= rx < qx && 0 <= ry < qy);
    assert((wx * qx + rx) * qy == wx * (qx * qy) + rx * qy) by (nonlinear_arith);
    assert((wy * qy + ry) * qx == wy * (qx * qy) + ry * qx) by (nonlinear_arith);
    assert(rx * qy < qx * qy) by (nonlinear_arith)
        requires
            0 <= rx < qx,
            qy > 0,
    ;
    assert(ry * qx < qx * qy) by (nonlinear_arith)
        requires
            0 <= ry < qy,
            qx > 0,
    ;
    assert(0 <= rx * qy && 0 <= ry * qx) by (nonlinear_arith)
        requires
            0 <= rx,
            0 <= ry,
            qx > 0,
            qy > 0,
    ;
    let q = qx * qy;
    if wx < wy {
        assert(wx * q + q <= wy * q) by (nonlinear_arith)
            requires
                wx < wy,
                q > 0,
        ;
    } else if wx > wy {
        assert(wy * q + q <= wx * q) by (nonlinear_arith)
            requires
                wx > wy,
                q > 0,
        ;
    }
}

/// A candidate's cost to the preferred point: whole part, remainder and denominator of
/// `resolution_cost + rate_gap_num / rate_gap_den`.
fn closest_cost(pref_res: Option<Resolution>, pref_rate: Option<FrameRate>, f: &CameraFormat) -> (r:
    (u128, u128, u128))
    requires
        pref_rate matches Some(p) ==> fr_positive(p),
        fr_positive(f.spec_frame_rate()),
    ensures
        r.2 == rate_gap_den(pref_rate, *f),
        0 < r.2 < 0x4000_0000_0000_0000,
        r.0 == resolution_cost(pref_res, *f) + rate_gap_num(pref_rate, *f) / rate_gap_den(pref_rate, *f),
        r.1 == rate_gap_num(pref_rate, *f) % rate_gap_den(pref_rate, *f),
        r.0 < 0x4_0000_0000_0000_0000,
        r.1 < r.2,
{
    let dist: u128 = match pref_res {
        Some(p) => f.resolution().distance_from(&p),
        None => 0,
    };
    assert(dist <= 0x2_0000_0000_0000_0000) by {
        if let Some(p) = pref_res {
            let a = f.spec_resolution();
            assert(crate::types::square(a.spec_width() - p.spec_width()) <= 0xffff_ffff * 0xffff_ffff)
                by (nonlinear_arith)
                requires
                    -0xffff_ffff <= a.spec_width() - p.spec_width() <= 0xffff_ffff,
            ;
            assert(crate::types::square(a.spec_height() - p.spec_height()) <= 0xffff_ffff * 0xffff_ffff)
                by (nonlinear_arith)
                requires
                    -0xffff_ffff <= a.spec_height() - p.spec_height() <= 0xffff_ffff,
            ;
        }
    }
    let rate = f.frame_rate();
    let (gap, den): (u128, u128) = match pref_rate {
        Some(p) => {
            let n = *rate.numerator() as i128;
            let d = *rate.denominator() as i128;
            let pn = *p.numerator() as i128;
            let pd = *p.denominator() as i128;
            proof {
                crate::types::lemma_i32_product_bound(n as int, pd as int);
                crate::types::lemma_i32_product_bound(pn as int, d as int);
                assert(0 < d * pd < 0x4000_0000_0000_0000) by (nonlinear_arith)
                    requires
                        0 < d < 0x8000_0000,
                        0 < pd < 0x8000_0000,
                ;
            }
            let diff = n * pd - pn * d;
            let gap = if diff < 0 {
                (-diff) as u128
            } else {
                diff as u128
            };
            (gap, (d * pd) as u128)
        },
        None => (0, 1),
    };
    (dist + gap / den, gap % den, den)
}

impl FormatRequest {
    /// Whether the wire format is among the allowed ones.
    fn allows(&self, fmt: FrameFormat) -> (r: bool)
        ensures
            r == self.allowed_formats().contains(fmt),
    {
        let list = match self {
            FormatRequest::Closest { frame_format, .. } => frame_format,
            FormatRequest::HighestFrameRate { frame_format, .. } => frame_format,
            FormatRequest::HighestResolution { frame_format, .. } => frame_format,
            FormatRequest::Exact { frame_format, .. } => frame_format,
        };
        let mut i: usize = 0;
        while i < list.len()
            invariant
                list@ == self.allowed_formats(),
                0 <= i <= list@.len(),
                forall|k: int| 0 <= k < i ==> list@[k] != fmt,
            decreases list@.len() - i,
        {
            if list[i].same_as(&fmt) {
                return true;
            }
            i = i + 1;
        }
        false
    }

    /// Whether a candidate survives the strategy's filter.
    pub fn accepts(&self, f: &CameraFormat) -> (r: bool)
        ensures
            r == self.passes(*f),
    {
        if !self.allows(f.format()) {
            return false;
        }
        match self {
            FormatRequest::Closest { .. } => true,
            FormatRequest::HighestFrameRate { frame_rate, .. } => !f.frame_rate().is_less_than(
                &frame_rate.min,
            ) && !frame_rate.max.is_less_than(&f.frame_rate()),
            FormatRequest::HighestResolution { resolution, .. } => !f.resolution().is_less_than(
                &resolution.min,
            ) && !resolution.max.is_less_than(&f.resolution()),
            FormatRequest::Exact { resolution, frame_rate, .. } => f.resolution() == *resolution
                && f.frame_rate() == *frame_rate,
        }
    }

    /// Whether candidate `a` is strictly preferred to candidate `b`.
    pub fn prefers(&self, a: &CameraFormat, b: &CameraFormat) -> (r: bool)
        requires
            self.rates_positive(*a),
            self.rates_positive(*b),
        ensures
            r == self.better(*a, *b),
    {
        let format_first = a.format().precedes(&b.format());
        match self {
            FormatRequest::Closest { resolution, frame_rate, .. } => {
                let x = closest_cost(*resolution, *frame_rate, a);
                let y = closest_cost(*resolution, *frame_rate, b);
                proof {
                    lemma_cost_decomposition(
                        resolution_cost(*resolution, *a),
                        rate_gap_num(*frame_rate, *a),
                        rate_gap_den(*frame_rate, *a),
                        resolution_cost(*resolution, *b),
                        rate_gap_num(*frame_rate, *b),
                        rate_gap_den(*frame_rate, *b),
                    );
                    assert(x.1 * y.2 < 0x4000_0000_0000_0000 * 0x4000_0000_0000_0000) by (nonlinear_arith)
                        requires
                            x.1 < x.2 < 0x4000_0000_0000_0000,
                            y.2 < 0x4000_0000_0000_0000,
                    ;
                    assert(y.1 * x.2 < 0x4000_0000_0000_0000 * 0x4000_0000_0000_0000) by (nonlinear_arith)
                        requires
                            y.1 < y.2 < 0x4000_0000_0000_0000,
                            x.2 < 0x4000_0000_0000_0000,
                    ;
                }
                x.0 < y.0 || (x.0 == y.0 && x.1 * y.2 < y.1 * x.2)
            },
            FormatRequest::HighestFrameRate { .. } => {
                let (ra, rb) = (a.frame_rate(), b.frame_rate());
                let (sa, sb) = (a.resolution(), b.resolution());
                let same_res = sa.width() == sb.width() && sa.height() == sb.height();
                rb.is_less_than(&ra) || (!ra.is_less_than(&rb) && !rb.is_less_than(&ra) && (
                sb.is_less_than(&sa) || (same_res && format_first)))
            },
            FormatRequest::HighestResolution { .. } => {
                let (ra, rb) = (a.frame_rate(), b.frame_rate());
                let (sa, sb) = (a.resolution(), b.resolution());
                let same_res = sa.width() == sb.width() && sa.height() == sb.height();
                sb.is_less_than(&sa) || (same_res && (rb.is_less_than(&ra) || (!ra.is_less_than(
                    &rb,
                ) && !rb.is_less_than(&ra) && format_first)))
            },
            FormatRequest::Exact { .. } => format_first,
        }
    }
}

impl FormatRequest {
    /// Index of the pick in `list`: the first candidate that passes the filter and that
    /// no passing candidate is preferred to. `None` when no candidate passes.
    pub fn best_index(&self, list: &[CameraFormat]) -> (r: Option<usize>)
        ensures
            r is None <==> forall|i: int| 0 <= i < list@.len() ==> !self.passes(#[trigger] list@[i]),
            r matches Some(i) ==> self.is_pick(list@, i as int),
    {
        match self {
            FormatRequest::Closest { frame_rate: Some(p), .. } => p.denominator_is_positive(),
            _ => {},
        }
        let mut best: Option<usize> = None;
        let mut k: usize = 0;
        while k < list.len()
            invariant
                0 <= k <= list@.len(),
                forall|j: int| 0 <= j < list@.len() ==> self.rates_positive(#[trigger] list@[j])
                    <== fr_positive(list@[j].spec_frame_rate()),
                forall|j: int| 0 <= j < k ==> fr_positive(#[trigger] list@[j].spec_frame_rate()),
                best is None ==> forall|j: int| 0 <= j < k ==> !self.passes(#[trigger] list@[j]),
                best matches Some(b) ==> {
                    &&& b < k
                    &&& self.passes(list@[b as int])
                    &&& forall|j: int|
                        0 <= j < k && self.passes(#[trigger] list@[j]) ==> !self.better(
                            list@[j],
                            list@[b as int],
                        )
                    &&& forall|j: int|
                        0 <= j < b && self.passes(#[trigger] list@[j]) ==> self.better(
                            list@[b as int],
                            list@[j],
                        )
                },
            decreases list@.len() - k,
        {
            let f = &list[k];
            f.frame_rate().denominator_is_positive();
            if self.accepts(f) {
                match best {
                    None => {
                        best = Some(k);
                    },
                    Some(b) => {
                        if self.prefers(f, &list[b]) {
                            let ghost fb = list@[b as int];
                            proof {
                                self.lemma_better_order(*f, fb, *f);
                                assert forall|j: int|
                                    0 <= j < k && self.passes(#[trigger] list@[j]) implies !self.better(
                                    list@[j],
                                    *f,
                                ) && self.better(*f, list@[j]) by {
                                    self.lemma_better_order(list@[j], *f, fb);
                                    self.lemma_better_order(*f, fb, list@[j]);
                                }
                            }
                            best = Some(k);
                        }
                    },
                }
            }
            k = k + 1;
        }
        best
    }

    /// The best candidate for this request, or `None` when no candidate passes the
    /// filter (an empty list included).
    pub fn resolve(&self, list_of_formats: &[CameraFormat]) -> (r: Option<CameraFormat>)
        ensures
            r is None <==> forall|i: int|
                0 <= i < list_of_formats@.len() ==> !self.passes(#[trigger] list_of_formats@[i]),
            r matches Some(c) ==> exists|i: int|
                self.is_pick(list_of_formats@, i) && #[trigger] list_of_formats@[i] == c,
    {
        match self.best_index(list_of_formats) {
            Some(i) => Some(list_of_formats[i]),
            None => None,
        }
    }
}

impl FormatRequest {
    /// `order` lists, by index into `list`, exactly the passing candidates among the
    /// first `k`, each once, with no candidate preferred to one listed before it, and
    /// candidates that neither is preferred to the other kept in list order.
    pub open spec fn is_stable_order(&self, list: Seq<CameraFormat>, order: Seq<usize>, k: int) -> bool {
        &&& forall|p: int| 0 <= p < order.len() ==> #[trigger] order[p] < k
        &&& forall|p: int, q: int|
            0 <= p < q < order.len() ==> #[trigger] order[p] != #[trigger] order[q]
        &&& forall|i: int| 0 <= i < k ==> (self.passes(#[trigger] list[i]) <==> order.contains(i as usize))
        &&& forall|p: int, q: int|
            0 <= p < q < order.len() ==> !self.better(
                list[#[trigger] order[q] as int],
                list[#[trigger] order[p] as int],
            )
        &&& forall|p: int, q: int|
            0 <= p < q < order.len() && !self.better(
                list[#[trigger] order[p] as int],
                list[#[trigger] order[q] as int],
            ) ==> order[p] < order[q]
    }

    /// Inserting candidate `k` just before the first listed candidate it is preferred
    /// to keeps the order stable.
    proof fn lemma_insert_keeps_order(&self, list: Seq<CameraFormat>, old_order: Seq<usize>, pos: int, k: int)
        requires
            0 <= k < list.len() <= usize::MAX,
            0 <= pos <= old_order.len(),
            self.is_stable_order(list, old_order, k),
            self.passes(list[k]),
            forall|j: int| 0 <= j <= k ==> self.rates_positive(#[trigger] list[j]),
            forall|p: int| 0 <= p < pos ==> !self.better(list[k], list[#[trigger] old_order[p] as int]),
            pos < old_order.len() ==> self.better(list[k], list[old_order[pos] as int]),
        ensures
            self.is_stable_order(list, old_order.insert(pos, k as usize), k + 1),
    {
        let o = old_order.insert(pos, k as usize);
        let fk = list[k];
        assert forall|p: int| 0 <= p < o.len() implies #[trigger] o[p] < k + 1 by {
            if p < pos {
                assert(o[p] == old_order[p]);
            } else if p > pos {
                assert(o[p] == old_order[p - 1]);
            }
        }
        assert forall|p: int, q: int| 0 <= p < q < o.len() implies #[trigger] o[p] != #[trigger] o[q] by {
            if p < pos {
                assert(o[p] == old_order[p]);
            } else if p > pos {
                assert(o[p] == old_order[p - 1]);
            }
            if q < pos {
                assert(o[q] == old_order[q]);
            } else if q > pos {
                assert(o[q] == old_order[q - 1]);
            }
        }
        assert forall|i: int| 0 <= i < k + 1 implies (self.passes(#[trigger] list[i]) <==> o.contains(
            i as usize,
        )) by {
            if i < k {
                if old_order.contains(i as usize) {
                    let p = choose|p: int| 0 <= p < old_order.len() && old_order[p] == i as usize;
                    if p < pos {
                        assert(o[p] == old_order[p]);
                    } else {
                        assert(o[p + 1] == old_order[p]);
                    }
                }
                if o.contains(i as usize) {
                    let p = choose|p: int| 0 <= p < o.len() && o[p] == i as usize;
                    if p < pos {
                        assert(old_order[p] == o[p]);
                    } else if p > pos {
                        assert(old_order[p - 1] == o[p]);
                    }
                }
            } else {
                assert(o[pos] == k);
            }
        }
        assert forall|p: int, q: int| 0 <= p < q < o.len() implies !self.better(
            list[#[trigger] o[q] as int],
            list[#[trigger] o[p] as int],
        ) && (!self.better(list[o[p] as int], list[o[q] as int]) ==> o[p] < o[q]) by {
            let lq = list[o[q] as int];
            if q < pos {
                assert(o[p] == old_order[p] && o[q] == old_order[q]);
            } else if p > pos {
                assert(o[p] == old_order[p - 1] && o[q] == old_order[q - 1]);
            } else if q == pos {
                assert(o[p] == old_order[p]);
                assert(old_order[p] < k);
            } else if p == pos {
                assert(o[q] == old_order[q - 1]);
                let first = list[old_order[pos] as int];
                assert(old_order[pos] < k && old_order[q - 1] < k);
                self.lemma_better_order(fk, first, lq);
                self.lemma_better_order(lq, fk, first);
            } else {
                assert(o[p] == old_order[p] && o[q] == old_order[q - 1]);
            }
        }
    }

    /// The passing candidates, best first; candidates that neither is preferred to the
    /// other stay in list order.
    pub fn sort_formats(&self, list_of_formats: &[CameraFormat]) -> (r: Vec<CameraFormat>)
        ensures
            exists|order: Seq<usize>|
                {
                    &&& self.is_stable_order(list_of_formats@, order, list_of_formats@.len() as int)
                    &&& r@.len() == order.len()
                    &&& forall|p: int| 0 <= p < order.len() ==> #[trigger] r@[p] == list_of_formats@[order[p] as int]
                },
    {
        let list = list_of_formats;
        match self {
            FormatRequest::Closest { frame_rate: Some(p), .. } => p.denominator_is_positive(),
            _ => {},
        }
        let mut order: Vec<usize> = Vec::new();
        let mut k: usize = 0;
        while k < list.len()
            invariant
                0 <= k <= list@.len(),
                forall|j: int| 0 <= j < list@.len() ==> self.rates_positive(#[trigger] list@[j])
                    <== fr_positive(list@[j].spec_frame_rate()),
                forall|j: int| 0 <= j < k ==> fr_positive(#[trigger] list@[j].spec_frame_rate()),
                self.is_stable_order(list@, order@, k as int),
            decreases list@.len() - k,
        {
            list[k].frame_rate().denominator_is_positive();
            if self.accepts(&list[k]) {
                let ghost old_order = order@;
                let mut pos: usize = 0;
                while pos < order.len() && !self.prefers(&list[k], &list[order[pos]])
                    invariant
                        0 <= pos <= order@.len(),
                        order@ == old_order,
                        self.is_stable_order(list@, order@, k as int),
                        forall|j: int| 0 <= j < list@.len() ==> self.rates_positive(#[trigger] list@[j])
                            <== fr_positive(list@[j].spec_frame_rate()),
                        forall|j: int| 0 <= j <= k ==> fr_positive(#[trigger] list@[j].spec_frame_rate()),
                        k < list@.len(),
                        forall|p: int| 0 <= p < pos ==> !self.better(list@[k as int], list@[#[trigger] order@[p] as int]),
                    decreases order@.len() - pos,
                {
                    pos = pos + 1;
                }
                proof {
                    self.lemma_insert_keeps_order(list@, order@, pos as int, k as int);
                }
                order.insert(pos, k);
            }
            k = k + 1;
        }
        let mut sorted: Vec<CameraFormat> = Vec::new();
        let mut i: usize = 0;
        while i < order.len()
            invariant
                0 <= i <= order@.len(),
                self.is_stable_order(list@, order@, list@.len() as int),
                sorted@.len() == i,
                forall|p: int| 0 <= p < i ==> #[trigger] sorted@[p] == list@[order@[p] as int],
            decreases order@.len() - i,
        {
            sorted.push(list[order[i]]);
            i = i + 1;
        }
        sorted
    }
}

/// The candidate `resolve` picks is the one `sort_formats` puts first.
pub proof fn lemma_pick_is_first_sorted(
    req: &FormatRequest,
    list: Seq<CameraFormat>,
    i: int,
    order: Seq<usize>,
)
    requires
        list.len() <= usize::MAX,
        req.is_pick(list, i),
        req.is_stable_order(list, order, list.len() as int),
    ensures
        order.len() > 0 && order[0] == i,
{
    assert(order.contains(i as usize));
    let p = choose|p: int| 0 <= p < order.len() && order[p] == i as usize;
    let j = order[0] as int;
    assert(req.passes(list[j]));
    if p > 0 {
        assert(order[0] != order[p]);
        assert(!req.better(list[order[p] as int], list[order[0] as int]));
        if j < i {
            assert(req.better(list[i], list[j]));
        } else {
            assert(!req.better(list[j], list[i]));
            assert(order[0] < order[p]);
        }
    }
}

/// With only a resolution preference, the pick is a passing candidate nearest to that
/// resolution, whatever the frame rates of the candidates.
pub proof fn lemma_closest_by_resolution_only(
    req: &FormatRequest,
    list: Seq<CameraFormat>,
    i: int,
    preferred: Resolution,
)
    requires
        req matches FormatRequest::Closest { resolution: Some(p), frame_rate: None, .. } && p
            == preferred,
        req.is_pick(list, i),
    ensures
        forall|j: int|
            0 <= j < list.len() && req.passes(#[trigger] list[j]) ==> list[i].spec_resolution().spec_distance(
                preferred,
            ) <= list[j].spec_resolution().spec_distance(preferred),
{
    assert forall|j: int| 0 <= j < list.len() && req.passes(#[trigger] list[j]) implies list[i].spec_resolution().spec_distance(
        preferred,
    ) <= list[j].spec_resolution().spec_distance(preferred) by {
        assert(!req.better(list[j], list[i]));
    }
}

} // verus!
