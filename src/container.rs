use vstd::prelude::*;

use crate::coords::{DecimalDegrees, GeoError, Rational, exif_to_decimal};
use crate::survey::{all_well_formed, fits_i128, is_mean, latitudes, longitudes, mean_center};
use crate::locator::{
    Axis, FieldValue, FieldView, GPS_LATITUDE, GPS_LATITUDE_REF, GPS_LONGITUDE, GPS_LONGITUDE_REF,
    axis_spec, coordinates_spec, lookup, read_axis, reading_matches,
};

verus! {

#[verifier::external_type_specification]
#[verifier::external_body]
pub struct ExExif(exif::Exif);

#[verifier::external_type_specification]
#[verifier::external_body]
pub struct ExExifError(exif::Error);

/// The fields of the GPS directory attached to the primary image of a parsed
/// container, keyed by tag number.
pub uninterp spec fn primary_gps_fields(e: exif::Exif) -> Map<u16, FieldView>;

/// The primary image's GPS fields of the container encoded by `bytes`, or
/// `None` where the bytes are no container that can be parsed.
pub uninterp spec fn parsed_gps_fields(bytes: Seq<u8>) -> Option<Map<u16, FieldView>>;

/// Relies on `exif::Exif::get_field` with `exif::In::PRIMARY`: the field of the
/// primary image under the GPS tag `number`, if there is one.
#[verifier::external_body]
fn gps_field(exif: &exif::Exif, number: u16) -> (r: Option<FieldValue>)
    ensures
        (match r {
            Some(v) => Some(v@),
            None => None,
        }) == lookup(primary_gps_fields(*exif), number),
{
    let tag = exif::Tag(exif::Context::Gps, number);
    exif.get_field(tag, exif::In::PRIMARY).map(|f| match &f.value {
        exif::Value::Ascii(v) => FieldValue::Ascii(v.clone()),
        exif::Value::Rational(v) => FieldValue::Rationals(
            v.iter().map(|x| Rational { num: x.num, denom: x.denom }).collect(),
        ),
        _ => FieldValue::Other,
    })
}

/// Relies on `exif::Reader::read_from_container`: detects the image format of
/// `bytes` and parses the EXIF attributes in it, depending on the bytes alone.
#[verifier::external_body]
fn read_container(bytes: &Vec<u8>) -> (r: Result<exif::Exif, exif::Error>)
    ensures
        match r {
            Ok(e) => parsed_gps_fields(bytes@) == Some(primary_gps_fields(e)),
            Err(_) => parsed_gps_fields(bytes@) is None,
        },
{
    let mut cursor = std::io::Cursor::new(bytes.as_slice());
    exif::Reader::new().read_from_container(&mut cursor)
}

/// Locates the coordinate triple of `axis` and its hemisphere reference among
/// the primary image's GPS fields.
pub fn get_exif_gps(exif: &exif::Exif, axis: Axis) -> (r: Result<(Vec<Rational>, u8), GeoError>)
    ensures
        reading_matches(r, axis_spec(primary_gps_fields(*exif), axis)),
{
    let (value_tag, reference_tag): (u16, u16) = match axis {
        Axis::Latitude => (GPS_LATITUDE, GPS_LATITUDE_REF),
        Axis::Longitude => (GPS_LONGITUDE, GPS_LONGITUDE_REF),
    };
    let reference = gps_field(exif, reference_tag);
    let value = gps_field(exif, value_tag);
    read_axis(reference, value)
}

/// The signed decimal (latitude, longitude) pair of a parsed container.
pub fn coordinates_in(exif: &exif::Exif) -> (r: Result<(DecimalDegrees, DecimalDegrees), GeoError>)
    ensures
        r == coordinates_spec(primary_gps_fields(*exif)),
        r matches Ok((lat, lon)) ==> lat.den > 0 && lon.den > 0,
{
    let (lat_triple, lat_ref) = get_exif_gps(exif, Axis::Latitude)?;
    let lat = exif_to_decimal(&lat_triple, lat_ref)?;
    let (lon_triple, lon_ref) = get_exif_gps(exif, Axis::Longitude)?;
    let lon = exif_to_decimal(&lon_triple, lon_ref)?;
    Ok((lat, lon))
}

/// What the image file whose contents are `bytes` yields: its (latitude,
/// longitude) pair, or `ContainerParseError` where the bytes hold no container.
pub open spec fn image_spec(bytes: Seq<u8>) -> Result<(DecimalDegrees, DecimalDegrees), GeoError> {
    match parsed_gps_fields(bytes) {
        None => Err(GeoError::ContainerParseError),
        Some(fields) => coordinates_spec(fields),
    }
}

/// The signed decimal (latitude, longitude) pair of the image file whose
/// contents are `bytes`. Bytes that hold no parsable container give
/// `ContainerParseError`; otherwise the fields decide as in `coordinates_in`.
pub fn get_image_coordinates(bytes: &Vec<u8>) -> (r: Result<(DecimalDegrees, DecimalDegrees), GeoError>)
    ensures
        r == image_spec(bytes@),
        r matches Ok((lat, lon)) ==> lat.den > 0 && lon.den > 0,
{
    match read_container(bytes) {
        Ok(exif) => coordinates_in(&exif),
        Err(_) => Err(GeoError::ContainerParseError),
    }
}

pub open spec fn all_images_located(images: Seq<Vec<u8>>) -> bool {
    forall|i: int| 0 <= i < images.len() ==> (image_spec(#[trigger] images[i]@) is Ok)
}

/// The positions of images that all have one.
pub open spec fn image_points(images: Seq<Vec<u8>>) -> Seq<(DecimalDegrees, DecimalDegrees)> {
    Seq::new(images.len(), |i: int| image_spec(images[i]@)->Ok_0)
}

/// Image `k` is the first that has no position.
pub open spec fn first_failure(images: Seq<Vec<u8>>, k: int) -> bool {
    &&& 0 <= k < images.len()
    &&& image_spec(images[k]@) is Err
    &&& forall|j: int| 0 <= j < k ==> (image_spec(#[trigger] images[j]@) is Ok)
}

/// Scans the contents of a directory's image files, in order: the position of
/// each, and their mean as the centre. The first image without a position
/// stops the scan with its error; no images at all is `EmptyDirectory`.
pub fn survey_images(images: &Vec<Vec<u8>>) -> (r: Result<
    (Vec<(DecimalDegrees, DecimalDegrees)>, (DecimalDegrees, DecimalDegrees)),
    GeoError,
>)
    ensures
        images.len() == 0 ==> r matches Err(GeoError::EmptyDirectory),
        forall|k: int|
            first_failure(images@, k) ==> (r matches Err(e) && Err::<
                (DecimalDegrees, DecimalDegrees),
                GeoError,
            >(e) == image_spec(images@[k]@)),
        r matches Ok((points, center)) ==> {
            &&& all_images_located(images@)
            &&& points@ == image_points(images@)
            &&& is_mean(center.0, latitudes(points@))
            &&& is_mean(center.1, longitudes(points@))
        },
        images.len() > 0 && all_images_located(images@) ==> {
            &&& r matches Err(e) ==> e == GeoError::ArithmeticOverflow
            &&& fits_i128(latitudes(image_points(images@))) && fits_i128(
                longitudes(image_points(images@)),
            ) ==> r is Ok
        },
{
    let mut points: Vec<(DecimalDegrees, DecimalDegrees)> = Vec::new();
    let mut i: usize = 0;
    while i < images.len()
        invariant
            0 <= i <= images.len(),
            points.len() == i,
            forall|j: int|
                0 <= j < i ==> image_spec(#[trigger] images@[j]@) == Ok::<
                    (DecimalDegrees, DecimalDegrees),
                    GeoError,
                >(points@[j]),
            forall|j: int| 0 <= j < i ==> (#[trigger] points@[j]).0.den > 0 && points@[j].1.den > 0,
        decreases images.len() - i,
    {
        match get_image_coordinates(&images[i]) {
            Err(e) => {
                assert(first_failure(images@, i as int));
                assert forall|k: int| first_failure(images@, k) implies k == i by {
                    if k < i {
                        assert(image_spec(images@[k]@) is Ok);
                    } else if k > i {
                        assert(image_spec(images@[i as int]@) is Ok);
                    }
                }
                return Err(e);
            },
            Ok(p) => {
                points.push(p);
            },
        }
        i = i + 1;
    }
    assert(points@ =~= image_points(images@));
    assert(all_well_formed(latitudes(points@)));
    assert(all_well_formed(longitudes(points@)));
    let center = mean_center(&points)?;
    Ok((points, center))
}

} // verus!
