use vstd::prelude::*;

verus! {

/// An unsigned fraction as stored in an EXIF container.
#[derive(Clone, Copy, Debug, PartialEq, Eq, Structural)]
pub struct Rational {
    pub num: u32,
    pub denom: u32,
}

/// A signed decimal-degree value held exactly as a fraction `num / den`.
#[derive(Clone, Copy, Debug, PartialEq, Eq, Structural)]
pub struct DecimalDegrees {
    pub num: i128,
    pub den: i128,
}

/// Every way in which reading a geotag, or summarising many, can fail.
#[derive(Clone, Copy, Debug, PartialEq, Eq, Structural)]
pub enum GeoError {
    FileOpenError,
    ContainerParseError,
    MissingField,
    MalformedField,
    EmptyDirectory,
    ArithmeticOverflow,
}

/// Hemisphere reference byte for the northern hemisphere.
pub const NORTH: u8 = 0x4e;

/// Hemisphere reference byte for the eastern hemisphere.
pub const EAST: u8 = 0x45;

/// Hemisphere reference byte for the southern hemisphere.
pub const SOUTH: u8 = 0x53;

/// Hemisphere reference byte for the western hemisphere.
pub const WEST: u8 = 0x57;

pub open spec fn is_negative_ref(reference: u8) -> bool {
    reference == SOUTH || reference == WEST
}

/// A degrees/minutes/seconds triple that can be converted: exactly three
/// components, none with a zero denominator.
pub open spec fn valid_triple(t: Seq<Rational>) -> bool {
    &&& t.len() == 3
    &&& t[0].denom != 0
    &&& t[1].denom != 0
    &&& t[2].denom != 0
}

/// Numerator of `d + m / 60 + s / 3600` over the common denominator
/// `magnitude_den(t)`.
pub open spec fn magnitude_num(t: Seq<Rational>) -> int {
    3600 * (t[0].num * t[1].denom * t[2].denom) + 60 * (t[1].num * t[0].denom * t[2].denom)
        + t[2].num * t[0].denom * t[1].denom
}

pub open spec fn magnitude_den(t: Seq<Rational>) -> int {
    3600 * (t[0].denom * t[1].denom * t[2].denom)
}

/// The signed decimal value of a valid triple, as an unreduced fraction.
pub open spec fn decimal_spec(t: Seq<Rational>, reference: u8) -> DecimalDegrees {
    DecimalDegrees {
        num: (if is_negative_ref(reference) {
            -magnitude_num(t)
        } else {
            magnitude_num(t)
        }) as i128,
        den: magnitude_den(t) as i128,
    }
}

pub open spec fn conversion_spec(t: Seq<Rational>, reference: u8) -> Result<
    DecimalDegrees,
    GeoError,
> {
    if valid_triple(t) {
        Ok(decimal_spec(t, reference))
    } else {
        Err(GeoError::MalformedField)
    }
}

proof fn lemma_triple_product(a: u32, b: u32, c: u32)
    ensures
        0 <= a * b * c < 0x1_0000_0000_0000_0000_0000_0000,
        0 <= a * b < 0x1_0000_0000_0000_0000,
        (a * b) * c == a * b * c,
{
    assert(0 <= a * b <= 0xffff_ffff * 0xffff_ffff) by (nonlinear_arith);
    assert(0 <= (a * b) * c <= (0xffff_ffff * 0xffff_ffff) * 0xffff_ffff) by (nonlinear_arith)
        requires
            0 <= a * b <= 0xffff_ffff * 0xffff_ffff,
    ;
}

/// Converts a degrees/minutes/seconds triple with its hemisphere reference to
/// signed decimal degrees. A reference of `S` or `W` makes the value negative;
/// any other reference leaves it non-negative.
pub fn exif_to_decimal(triple: &Vec<Rational>, reference: u8) -> (r: Result<DecimalDegrees, GeoError>)
    ensures
        r == conversion_spec(triple@, reference),
        r is Ok ==> r->Ok_0.den > 0,
{
    if triple.len() != 3 || triple[0].denom == 0 || triple[1].denom == 0 || triple[2].denom
        == 0 {
        return Err(GeoError::MalformedField);
    }
    let deg = triple[0];
    let min = triple[1];
    let sec = triple[2];
    proof {
        lemma_triple_product(deg.num, min.denom, sec.denom);
        lemma_triple_product(min.num, deg.denom, sec.denom);
        lemma_triple_product(sec.num, deg.denom, min.denom);
        lemma_triple_product(deg.denom, min.denom, sec.denom);
    }
    let d: u128 = deg.num as u128 * min.denom as u128 * sec.denom as u128;
    let m: u128 = min.num as u128 * deg.denom as u128 * sec.denom as u128;
    let s: u128 = sec.num as u128 * deg.denom as u128 * min.denom as u128;
    let q: u128 = deg.denom as u128 * min.denom as u128 * sec.denom as u128;
    let magnitude: i128 = (3600 * d + 60 * m + s) as i128;
    let den: i128 = (3600 * q) as i128;
    proof {
        assert(q > 0) by (nonlinear_arith)
            requires
                q == deg.denom * min.denom * sec.denom,
                deg.denom > 0,
                min.denom > 0,
                sec.denom > 0,
        ;
    }
    let num: i128 = if reference == SOUTH || reference == WEST {
        -magnitude
    } else {
        magnitude
    };
    Ok(DecimalDegrees { num, den })
}

/// Sign law: for a convertible triple, a reference of `N` or `E` gives a
/// non-negative value, and `S` or `W` gives exactly its negation.
pub proof fn lemma_hemisphere_sign(t: Seq<Rational>, positive: u8, negative: u8)
    requires
        valid_triple(t),
        positive == NORTH || positive == EAST,
        negative == SOUTH || negative == WEST,
    ensures
        conversion_spec(t, positive) is Ok,
        conversion_spec(t, negative) is Ok,
        conversion_spec(t, positive)->Ok_0.num >= 0,
        conversion_spec(t, negative)->Ok_0.num == -conversion_spec(t, positive)->Ok_0.num,
        conversion_spec(t, negative)->Ok_0.den == conversion_spec(t, positive)->Ok_0.den,
{
    lemma_triple_product(t[0].num, t[1].denom, t[2].denom);
    lemma_triple_product(t[1].num, t[0].denom, t[2].denom);
    lemma_triple_product(t[2].num, t[0].denom, t[1].denom);
}

/// Conversion is a function of the triple and the reference alone: equal
/// inputs give identical results, however often it is done.
pub proof fn lemma_conversion_repeatable(a: Seq<Rational>, b: Seq<Rational>, ra: u8, rb: u8)
    requires
        a == b,
        ra == rb,
    ensures
        conversion_spec(a, ra) == conversion_spec(b, rb),
{
}

} // verus!
