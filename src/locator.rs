use vstd::prelude::*;

use crate::coords::{DecimalDegrees, GeoError, Rational, conversion_spec};

verus! {

/// Which coordinate of a geotag to read.
#[derive(Clone, Copy, Debug, PartialEq, Eq, Structural)]
pub enum Axis {
    Latitude,
    Longitude,
}

/// Tag number, in the GPS directory, of the latitude hemisphere reference.
pub const GPS_LATITUDE_REF: u16 = 1;

/// Tag number, in the GPS directory, of the latitude reading.
pub const GPS_LATITUDE: u16 = 2;

/// Tag number, in the GPS directory, of the longitude hemisphere reference.
pub const GPS_LONGITUDE_REF: u16 = 3;

/// Tag number, in the GPS directory, of the longitude reading.
pub const GPS_LONGITUDE: u16 = 4;

/// The value of one EXIF field, as far as geotag reading cares about it.
#[derive(Debug)]
pub enum FieldValue {
    /// Text entries, each a byte string without its trailing NULs.
    Ascii(Vec<Vec<u8>>),
    /// A sequence of unsigned fractions.
    Rationals(Vec<Rational>),
    /// A value of any other type.
    Other,
}

/// The mathematical content of a `FieldValue`.
pub enum FieldView {
    Ascii(Seq<Seq<u8>>),
    Rationals(Seq<Rational>),
    Other,
}

impl View for FieldValue {
    type V = FieldView;

    open spec fn view(&self) -> FieldView {
        match self {
            FieldValue::Ascii(v) => FieldView::Ascii(v@.map_values(|e: Vec<u8>| e@)),
            FieldValue::Rationals(v) => FieldView::Rationals(v@),
            FieldValue::Other => FieldView::Other,
        }
    }
}

pub open spec fn value_tag(axis: Axis) -> u16 {
    match axis {
        Axis::Latitude => GPS_LATITUDE,
        Axis::Longitude => GPS_LONGITUDE,
    }
}

pub open spec fn reference_tag(axis: Axis) -> u16 {
    match axis {
        Axis::Latitude => GPS_LATITUDE_REF,
        Axis::Longitude => GPS_LONGITUDE_REF,
    }
}

/// The hemisphere byte held by a reference field: the first byte of its
/// first text entry.
pub open spec fn reference_spec(field: Option<FieldView>) -> Result<u8, GeoError> {
    match field {
        None => Err(GeoError::MissingField),
        Some(FieldView::Ascii(v)) => if v.len() > 0 && v[0].len() > 0 {
            Ok(v[0][0])
        } else {
            Err(GeoError::MalformedField)
        },
        Some(_) => Err(GeoError::MalformedField),
    }
}

/// The degrees/minutes/seconds triple held by a coordinate field.
pub open spec fn triple_spec(field: Option<FieldView>) -> Result<Seq<Rational>, GeoError> {
    match field {
        None => Err(GeoError::MissingField),
        Some(FieldView::Rationals(v)) => if v.len() == 3 {
            Ok(v)
        } else {
            Err(GeoError::MalformedField)
        },
        Some(_) => Err(GeoError::MalformedField),
    }
}

/// What locating one axis yields from its reference field and its coordinate
/// field: the reference is examined first.
pub open spec fn reading_spec(reference: Option<FieldView>, value: Option<FieldView>) -> Result<
    (Seq<Rational>, u8),
    GeoError,
> {
    match reference_spec(reference) {
        Err(e) => Err(e),
        Ok(h) => match triple_spec(value) {
            Err(e) => Err(e),
            Ok(t) => Ok((t, h)),
        },
    }
}

pub open spec fn lookup(fields: Map<u16, FieldView>, tag: u16) -> Option<FieldView> {
    if fields.contains_key(tag) {
        Some(fields[tag])
    } else {
        None
    }
}

/// What locating `axis` yields in the GPS fields of a primary image.
pub open spec fn axis_spec(fields: Map<u16, FieldView>, axis: Axis) -> Result<
    (Seq<Rational>, u8),
    GeoError,
> {
    reading_spec(lookup(fields, reference_tag(axis)), lookup(fields, value_tag(axis)))
}

/// The signed decimal coordinate of `axis` in the GPS fields of a primary image.
pub open spec fn decimal_axis_spec(fields: Map<u16, FieldView>, axis: Axis) -> Result<
    DecimalDegrees,
    GeoError,
> {
    match axis_spec(fields, axis) {
        Err(e) => Err(e),
        Ok((t, h)) => conversion_spec(t, h),
    }
}

/// The (latitude, longitude) pair of a primary image's GPS fields; latitude is
/// read first.
pub open spec fn coordinates_spec(fields: Map<u16, FieldView>) -> Result<
    (DecimalDegrees, DecimalDegrees),
    GeoError,
> {
    match decimal_axis_spec(fields, Axis::Latitude) {
        Err(e) => Err(e),
        Ok(lat) => match decimal_axis_spec(fields, Axis::Longitude) {
            Err(e) => Err(e),
            Ok(lon) => Ok((lat, lon)),
        },
    }
}

pub open spec fn reading_matches(
    r: Result<(Vec<Rational>, u8), GeoError>,
    s: Result<(Seq<Rational>, u8), GeoError>,
) -> bool {
    match (r, s) {
        (Ok((t, h)), Ok((u, k))) => t@ == u && h == k,
        (Err(e), Err(f)) => e == f,
        _ => false,
    }
}

/// Reads one axis from its two fields: the hemisphere reference must be
/// non-empty text, the coordinate exactly three fractions. An absent field is
/// `MissingField`, one of the wrong shape `MalformedField`.
pub fn read_axis(reference: Option<FieldValue>, value: Option<FieldValue>) -> (r: Result<
    (Vec<Rational>, u8),
    GeoError,
>)
    ensures
        reading_matches(
            r,
            reading_spec(
                match reference {
                    Some(f) => Some(f@),
                    None => None,
                },
                match value {
                    Some(f) => Some(f@),
                    None => None,
                },
            ),
        ),
{
    let hemisphere: u8 = match reference {
        None => return Err(GeoError::MissingField),
        Some(FieldValue::Ascii(v)) => {
            if v.len() > 0 && v[0].len() > 0 {
                v[0][0]
            } else {
                return Err(GeoError::MalformedField);
            }
        },
        Some(_) => return Err(GeoError::MalformedField),
    };
    match value {
        None => Err(GeoError::MissingField),
        Some(FieldValue::Rationals(v)) => {
            if v.len() == 3 {
                Ok((v, hemisphere))
            } else {
                Err(GeoError::MalformedField)
            }
        },
        Some(_) => Err(GeoError::MalformedField),
    }
}

/// An absent field is never read as a default coordinate: locating an axis
/// that lacks its reference or its coordinate field fails, and so does the
/// whole (latitude, longitude) pair. An absent reference, or an absent
/// coordinate beside a readable reference, is `MissingField`.
pub proof fn lemma_missing_field(fields: Map<u16, FieldView>, axis: Axis)
    requires
        !fields.contains_key(value_tag(axis)) || !fields.contains_key(reference_tag(axis)),
    ensures
        axis_spec(fields, axis) is Err,
        decimal_axis_spec(fields, axis) is Err,
        coordinates_spec(fields) is Err,
        !fields.contains_key(reference_tag(axis)) ==> axis_spec(fields, axis) == Err::<
            (Seq<Rational>, u8),
            GeoError,
        >(GeoError::MissingField),
        reference_spec(lookup(fields, reference_tag(axis))) is Ok ==> axis_spec(fields, axis)
            == Err::<(Seq<Rational>, u8), GeoError>(GeoError::MissingField),
{
}

/// A reference field that is present but holds no text, empty text, or a
/// value that is not text makes locating the axis fail with `MalformedField`.
pub proof fn lemma_malformed_reference(fields: Map<u16, FieldView>, axis: Axis)
    requires
        fields.contains_key(reference_tag(axis)),
        match fields[reference_tag(axis)] {
            FieldView::Ascii(v) => v.len() == 0 || v[0].len() == 0,
            _ => true,
        },
    ensures
        axis_spec(fields, axis) == Err::<(Seq<Rational>, u8), GeoError>(GeoError::MalformedField),
        decimal_axis_spec(fields, axis) == Err::<DecimalDegrees, GeoError>(GeoError::MalformedField),
        coordinates_spec(fields) is Err,
{
}

} // verus!
