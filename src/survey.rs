use vstd::prelude::*;

use crate::coords::{DecimalDegrees, GeoError};

verus! {

/// Numerator of the sum of the fractions in `s`, over the denominator
/// `sum_den(s)` (the product of their denominators).
pub open spec fn sum_num(s: Seq<DecimalDegrees>) -> int
    decreases s.len(),
{
    if s.len() == 0 {
        0
    } else {
        sum_num(s.drop_last()) * s.last().den + s.last().num * sum_den(s.drop_last())
    }
}

pub open spec fn sum_den(s: Seq<DecimalDegrees>) -> int
    decreases s.len(),
{
    if s.len() == 0 {
        1
    } else {
        sum_den(s.drop_last()) * s.last().den
    }
}

/// A fraction with a positive denominator.
pub open spec fn well_formed(x: DecimalDegrees) -> bool {
    x.den > 0
}

/// `x` equals the fraction `num / den`.
pub open spec fn same_value(x: DecimalDegrees, num: int, den: int) -> bool {
    x.num * den == num * x.den
}

/// `c` is the arithmetic mean of the values in `s`.
pub open spec fn is_mean(c: DecimalDegrees, s: Seq<DecimalDegrees>) -> bool {
    &&& well_formed(c)
    &&& same_value(c, sum_num(s), sum_den(s) * s.len())
}

pub open spec fn all_well_formed(s: Seq<DecimalDegrees>) -> bool {
    forall|i: int| 0 <= i < s.len() ==> well_formed(#[trigger] s[i])
}

pub open spec fn latitudes(points: Seq<(DecimalDegrees, DecimalDegrees)>) -> Seq<DecimalDegrees> {
    points.map_values(|p: (DecimalDegrees, DecimalDegrees)| p.0)
}

pub open spec fn longitudes(points: Seq<(DecimalDegrees, DecimalDegrees)>) -> Seq<DecimalDegrees> {
    points.map_values(|p: (DecimalDegrees, DecimalDegrees)| p.1)
}

/// A divisor of `b` and of `a % b` divides `a`.
proof fn lemma_divides_through_remainder(a: int, b: int, d: int)
    requires
        b > 0,
        d > 0,
        b % d == 0,
        (a % b) % d == 0,
    ensures
        a % d == 0,
{
    vstd::arithmetic::div_mod::lemma_fundamental_div_mod(a, b);
    vstd::arithmetic::div_mod::lemma_fundamental_div_mod(b, d);
    vstd::arithmetic::div_mod::lemma_fundamental_div_mod(a % b, d);
    let k = (b / d) * (a / b) + (a % b) / d;
    assert(a == k * d) by (nonlinear_arith)
        requires
            a == b * (a / b) + a % b,
            b == d * (b / d),
            a % b == d * ((a % b) / d),
            k == (b / d) * (a / b) + (a % b) / d,
    ;
    vstd::arithmetic::div_mod::lemma_mod_multiples_basic(k, d);
}

/// Greatest common divisor by Euclid's algorithm.
fn gcd(a: u128, b: u128) -> (g: u128)
    ensures
        b == 0 ==> g == a,
        b > 0 ==> g > 0 && a % g == 0 && b % g == 0,
    decreases b,
{
    if b == 0 {
        a
    } else {
        let g = gcd(b, a % b);
        proof {
            if a % b > 0 {
                lemma_divides_through_remainder(a as int, b as int, g as int);
            } else {
                vstd::arithmetic::div_mod::lemma_mod_self_0(b as int);
            }
        }
        g
    }
}

pub open spec fn abs_int(x: int) -> int {
    if x < 0 {
        -x
    } else {
        x
    }
}

/// A value that fits a signed 128-bit integer, whatever its sign.
pub open spec fn fits(x: int) -> bool {
    abs_int(x) <= i128::MAX
}

/// Every product and running sum of the plain (unreduced) summation of `s`,
/// and the final denominator of its mean, fits 128 bits.
pub open spec fn fits_i128(s: Seq<DecimalDegrees>) -> bool {
    &&& forall|k: int|
        0 <= k < s.len() ==> {
            &&& fits(#[trigger] sum_num(s.take(k)) * s[k].den)
            &&& fits(s[k].num * sum_den(s.take(k)))
            &&& fits(sum_num(s.take(k + 1)))
            &&& fits(sum_den(s.take(k + 1)))
        }
    &&& fits(sum_den(s) * s.len())
}

/// Dividing by a positive integer factor keeps a value in range.
proof fn lemma_fits_divided(u: int, g: int)
    requires
        g >= 1,
        fits(u * g),
    ensures
        fits(u),
{
    assert(abs_int(u) <= abs_int(u * g)) by (nonlinear_arith)
        requires
            g >= 1,
    ;
}

/// The same value with the greatest common factor of numerator and
/// denominator divided out; the factor is returned beside it.
fn reduce(x: DecimalDegrees) -> (r: (DecimalDegrees, Ghost<int>))
    requires
        well_formed(x),
    ensures
        well_formed(r.0),
        r.1@ >= 1,
        x.num == r.0.num * r.1@,
        x.den == r.0.den * r.1@,
{
    let negative = x.num < 0;
    let magnitude: u128 = if negative {
        (-(x.num + 1)) as u128 + 1
    } else {
        x.num as u128
    };
    let den = x.den as u128;
    let g = gcd(magnitude, den);
    if g > 1 {
        let a = magnitude / g;
        let b = den / g;
        proof {
            vstd::arithmetic::div_mod::lemma_fundamental_div_mod(magnitude as int, g as int);
            vstd::arithmetic::div_mod::lemma_fundamental_div_mod(den as int, g as int);
            assert(a * 2 <= magnitude && b > 0) by (nonlinear_arith)
                requires
                    magnitude == g * a,
                    den == g * b,
                    g > 1,
                    den > 0,
            ;
        }
        let num: i128 = if negative {
            -(a as i128)
        } else {
            a as i128
        };
        let r = DecimalDegrees { num, den: b as i128 };
        proof {
            assert(x.num == r.num * g && x.den == r.den * g) by (nonlinear_arith)
                requires
                    r.num == (if negative {
                        -a
                    } else {
                        a as int
                    }),
                    x.num == (if negative {
                        -magnitude
                    } else {
                        magnitude as int
                    }),
                    magnitude == g * a,
                    x.den == g * b,
                    r.den == b,
            ;
        }
        (r, Ghost(g as int))
    } else {
        (x, Ghost(1))
    }
}

/// `a + b`, reduced, with the factor that was divided out of the plain sum
/// `(a.num * b.den + b.num * a.den) / (a.den * b.den)`. `None` only where a
/// product or the sum of the plain sum leaves the range of `i128`.
fn add_fractions(a: DecimalDegrees, b: DecimalDegrees) -> (r: Option<(DecimalDegrees, Ghost<int>)>)
    requires
        well_formed(a),
        well_formed(b),
    ensures
        fits(a.num * b.den) && fits(b.num * a.den) && fits(a.num * b.den + b.num * a.den) && fits(
            a.den * b.den,
        ) ==> r is Some,
        r matches Some((c, h)) ==> well_formed(c) && h@ >= 1 && c.num * h@ == a.num * b.den
            + b.num * a.den && c.den * h@ == a.den * b.den,
{
    let p = a.num.checked_mul(b.den)?;
    let q = b.num.checked_mul(a.den)?;
    let n = p.checked_add(q)?;
    let d = a.den.checked_mul(b.den)?;
    proof {
        assert(d > 0) by (nonlinear_arith)
            requires
                d == a.den * b.den,
                a.den > 0,
                b.den > 0,
        ;
    }
    let (c, h) = reduce(DecimalDegrees { num: n, den: d });
    Some((c, h))
}

/// The arithmetic mean of `values`, exact. Empty input is `EmptyDirectory`;
/// `ArithmeticOverflow` comes only where the plain summation does not fit 128
/// bits.
pub fn mean_degrees(values: &Vec<DecimalDegrees>) -> (r: Result<DecimalDegrees, GeoError>)
    requires
        all_well_formed(values@),
    ensures
        values.len() == 0 <==> r == Err::<DecimalDegrees, GeoError>(GeoError::EmptyDirectory),
        values.len() > 0 && fits_i128(values@) ==> r is Ok,
        r matches Ok(c) ==> is_mean(c, values@),
        r matches Err(e) ==> e == GeoError::EmptyDirectory || e == GeoError::ArithmeticOverflow,
{
    if values.len() == 0 {
        return Err(GeoError::EmptyDirectory);
    }
    let mut acc = DecimalDegrees { num: 0, den: 1 };
    let ghost mut g: int = 1;
    let mut i: usize = 0;
    proof {
        assert(values@.take(0) =~= Seq::<DecimalDegrees>::empty());
    }
    while i < values.len()
        invariant
            0 <= i <= values.len(),
            all_well_formed(values@),
            well_formed(acc),
            g >= 1,
            sum_num(values@.take(i as int)) == acc.num * g,
            sum_den(values@.take(i as int)) == acc.den * g,
        decreases values.len() - i,
    {
        let x = values[i];
        let ghost prefix = values@.take(i as int);
        let ghost next = values@.take(i as int + 1);
        assert(next.drop_last() =~= prefix);
        assert(next.last() == x);
        assert(well_formed(x));
        let ghost sn = sum_num(prefix);
        let ghost sd = sum_den(prefix);
        proof {
            assert(sn * x.den == (acc.num * x.den) * g && x.num * sd == (x.num * acc.den) * g
                && sum_num(next) == (acc.num * x.den + x.num * acc.den) * g && sum_den(next) == (
            acc.den * x.den) * g) by (nonlinear_arith)
                requires
                    sn == acc.num * g,
                    sd == acc.den * g,
                    sum_num(next) == sn * x.den + x.num * sd,
                    sum_den(next) == sd * x.den,
            ;
            if fits_i128(values@) {
                assert(fits(sum_num(values@.take(i as int)) * values@[i as int].den));
                lemma_fits_divided(acc.num * x.den, g);
                lemma_fits_divided(x.num * acc.den, g);
                lemma_fits_divided(acc.num * x.den + x.num * acc.den, g);
                lemma_fits_divided(acc.den * x.den, g);
            }
        }
        match add_fractions(acc, x) {
            None => return Err(GeoError::ArithmeticOverflow),
            Some((c, h)) => {
                proof {
                    assert(sum_num(next) == c.num * (g * h@) && sum_den(next) == c.den * (g
                        * h@) && g * h@ >= 1) by (nonlinear_arith)
                        requires
                            sum_num(next) == (acc.num * x.den + x.num * acc.den) * g,
                            sum_den(next) == (acc.den * x.den) * g,
                            c.num * h@ == acc.num * x.den + x.num * acc.den,
                            c.den * h@ == acc.den * x.den,
                            g >= 1,
                            h@ >= 1,
                    ;
                    g = g * h@;
                }
                acc = c;
            },
        }
        i = i + 1;
    }
    assert(values@.take(values.len() as int) =~= values@);
    let count = values.len() as i128;
    proof {
        if fits_i128(values@) {
            assert(sum_den(values@) * values.len() == (acc.den * count) * g) by (nonlinear_arith)
                requires
                    sum_den(values@) == acc.den * g,
                    count == values.len(),
            ;
            lemma_fits_divided(acc.den * count, g);
        }
    }
    let den = match acc.den.checked_mul(count) {
        None => return Err(GeoError::ArithmeticOverflow),
        Some(d) => d,
    };
    proof {
        assert(den > 0) by (nonlinear_arith)
            requires
                den == acc.den * count,
                acc.den > 0,
                count > 0,
        ;
    }
    let (mean, h) = reduce(DecimalDegrees { num: acc.num, den });
    proof {
        let sn = sum_num(values@);
        let sd = sum_den(values@);
        assert(mean.num * (sd * count) == sn * mean.den) by (nonlinear_arith)
            requires
                sn == acc.num * g,
                sd == acc.den * g,
                acc.num == mean.num * h@,
                den == mean.den * h@,
                den == acc.den * count,
        ;
    }
    Ok(mean)
}

/// The mean (latitude, longitude) of `points`, the centre of a survey of
/// photographs. No points is `EmptyDirectory`: there is no centre to give.
pub fn mean_center(points: &Vec<(DecimalDegrees, DecimalDegrees)>) -> (r: Result<
    (DecimalDegrees, DecimalDegrees),
    GeoError,
>)
    requires
        all_well_formed(latitudes(points@)),
        all_well_formed(longitudes(points@)),
    ensures
        points.len() == 0 <==> r == Err::<(DecimalDegrees, DecimalDegrees), GeoError>(
            GeoError::EmptyDirectory,
        ),
        points.len() > 0 && fits_i128(latitudes(points@)) && fits_i128(longitudes(points@))
            ==> r is Ok,
        r matches Ok((lat, lon)) ==> is_mean(lat, latitudes(points@)) && is_mean(
            lon,
            longitudes(points@),
        ),
        r matches Err(e) ==> e == GeoError::EmptyDirectory || e == GeoError::ArithmeticOverflow,
{
    let mut lats: Vec<DecimalDegrees> = Vec::new();
    let mut lons: Vec<DecimalDegrees> = Vec::new();
    let mut i: usize = 0;
    while i < points.len()
        invariant
            0 <= i <= points.len(),
            lats@ == latitudes(points@.take(i as int)),
            lons@ == longitudes(points@.take(i as int)),
        decreases points.len() - i,
    {
        let (lat, lon) = points[i];
        lats.push(lat);
        lons.push(lon);
        i = i + 1;
        assert(lats@ =~= latitudes(points@.take(i as int)));
        assert(lons@ =~= longitudes(points@.take(i as int)));
    }
    assert(points@.take(points.len() as int) =~= points@);
    let lat = mean_degrees(&lats)?;
    let lon = mean_degrees(&lons)?;
    Ok((lat, lon))
}

} // verus!
