use geotag::{
    get_image_coordinates, read_axis, survey_images, DecimalDegrees, FieldValue, GeoError, Rational,
};

fn rationals(v: &[(u32, u32)]) -> FieldValue {
    FieldValue::Rationals(v.iter().map(|&(num, denom)| Rational { num, denom }).collect())
}

fn text(s: &[u8]) -> FieldValue {
    FieldValue::Ascii(vec![s.to_vec()])
}

#[test]
fn reads_reference_and_triple() {
    let (t, h) = read_axis(Some(text(b"S")), Some(rationals(&[(10, 1), (30, 1), (0, 1)]))).unwrap();
    assert_eq!(h, b'S');
    assert_eq!(t, vec![
        Rational { num: 10, denom: 1 },
        Rational { num: 30, denom: 1 },
        Rational { num: 0, denom: 1 },
    ]);
}

#[test]
fn missing_reference_field() {
    let r = read_axis(None, Some(rationals(&[(1, 1), (2, 1), (3, 1)])));
    assert_eq!(r, Err(GeoError::MissingField));
}

#[test]
fn missing_coordinate_field() {
    assert_eq!(read_axis(Some(text(b"N")), None), Err(GeoError::MissingField));
    assert_eq!(read_axis(None, None), Err(GeoError::MissingField));
}

#[test]
fn empty_reference_is_malformed() {
    let value = || Some(rationals(&[(1, 1), (2, 1), (3, 1)]));
    assert_eq!(read_axis(Some(FieldValue::Ascii(vec![])), value()), Err(GeoError::MalformedField));
    assert_eq!(read_axis(Some(text(b"")), value()), Err(GeoError::MalformedField));
}

#[test]
fn non_text_reference_is_malformed() {
    let value = || Some(rationals(&[(1, 1), (2, 1), (3, 1)]));
    assert_eq!(read_axis(Some(FieldValue::Other), value()), Err(GeoError::MalformedField));
    assert_eq!(read_axis(Some(rationals(&[(1, 1)])), value()), Err(GeoError::MalformedField));
}

#[test]
fn malformed_coordinate_field() {
    assert_eq!(read_axis(Some(text(b"N")), Some(FieldValue::Other)), Err(GeoError::MalformedField));
    assert_eq!(read_axis(Some(text(b"N")), Some(text(b"12"))), Err(GeoError::MalformedField));
    assert_eq!(read_axis(Some(text(b"N")), Some(rationals(&[]))), Err(GeoError::MalformedField));
    assert_eq!(
        read_axis(Some(text(b"N")), Some(rationals(&[(1, 1), (2, 1)]))),
        Err(GeoError::MalformedField)
    );
}

/// A little-endian TIFF whose primary image has a GPS directory holding the
/// given fields, each `(tag, type, count, payload)`.
fn tiff_with_gps(fields: &[(u16, u16, u32, Vec<u8>)]) -> Vec<u8> {
    let mut out: Vec<u8> = Vec::new();
    out.extend_from_slice(b"II\x2a\x00");
    out.extend_from_slice(&8u32.to_le_bytes());
    // IFD0: one entry pointing at the GPS directory, which starts at 26.
    out.extend_from_slice(&1u16.to_le_bytes());
    out.extend_from_slice(&0x8825u16.to_le_bytes());
    out.extend_from_slice(&4u16.to_le_bytes());
    out.extend_from_slice(&1u32.to_le_bytes());
    out.extend_from_slice(&26u32.to_le_bytes());
    out.extend_from_slice(&0u32.to_le_bytes());
    let gps_start = out.len();
    let mut data_offset = (gps_start + 2 + 12 * fields.len() + 4) as u32;
    let mut data: Vec<u8> = Vec::new();
    out.extend_from_slice(&(fields.len() as u16).to_le_bytes());
    for (tag, typ, count, payload) in fields {
        out.extend_from_slice(&tag.to_le_bytes());
        out.extend_from_slice(&typ.to_le_bytes());
        out.extend_from_slice(&count.to_le_bytes());
        if payload.len() <= 4 {
            let mut inline = payload.clone();
            inline.resize(4, 0);
            out.extend_from_slice(&inline);
        } else {
            out.extend_from_slice(&data_offset.to_le_bytes());
            data.extend_from_slice(payload);
            data_offset += payload.len() as u32;
        }
    }
    out.extend_from_slice(&0u32.to_le_bytes());
    out.extend_from_slice(&data);
    out
}

fn rational_payload(v: &[(u32, u32)]) -> Vec<u8> {
    let mut p = Vec::new();
    for (n, d) in v {
        p.extend_from_slice(&n.to_le_bytes());
        p.extend_from_slice(&d.to_le_bytes());
    }
    p
}

#[test]
fn coordinates_from_container_bytes() {
    let bytes = tiff_with_gps(&[
        (1, 2, 2, b"S\0".to_vec()),
        (2, 5, 3, rational_payload(&[(10, 1), (30, 1), (0, 1)])),
        (3, 2, 2, b"E\0".to_vec()),
        (4, 5, 3, rational_payload(&[(20, 1), (15, 1), (36, 1)])),
    ]);
    let (lat, lon) = get_image_coordinates(&bytes).unwrap();
    assert_eq!(lat, DecimalDegrees { num: -37800, den: 3600 });
    assert_eq!(lon, DecimalDegrees { num: 3600 * 20 + 60 * 15 + 36, den: 3600 });
}

#[test]
fn container_without_longitude() {
    let bytes = tiff_with_gps(&[
        (1, 2, 2, b"N\0".to_vec()),
        (2, 5, 3, rational_payload(&[(10, 1), (0, 1), (0, 1)])),
        (3, 2, 2, b"W\0".to_vec()),
    ]);
    assert_eq!(get_image_coordinates(&bytes), Err(GeoError::MissingField));
}

#[test]
fn container_with_numeric_reference() {
    let bytes = tiff_with_gps(&[
        (1, 3, 1, 1u16.to_le_bytes().to_vec()),
        (2, 5, 3, rational_payload(&[(10, 1), (0, 1), (0, 1)])),
        (3, 2, 2, b"W\0".to_vec()),
        (4, 5, 3, rational_payload(&[(10, 1), (0, 1), (0, 1)])),
    ]);
    assert_eq!(get_image_coordinates(&bytes), Err(GeoError::MalformedField));
}

#[test]
fn bytes_that_are_no_container() {
    assert_eq!(get_image_coordinates(&b"not an image".to_vec()), Err(GeoError::ContainerParseError));
    assert_eq!(get_image_coordinates(&Vec::new()), Err(GeoError::ContainerParseError));
}

fn photo_at(lat: u32, lon: u32) -> Vec<u8> {
    tiff_with_gps(&[
        (1, 2, 2, b"N\0".to_vec()),
        (2, 5, 3, rational_payload(&[(lat, 1), (0, 1), (0, 1)])),
        (3, 2, 2, b"E\0".to_vec()),
        (4, 5, 3, rational_payload(&[(lon, 1), (0, 1), (0, 1)])),
    ])
}

#[test]
fn survey_of_two_photographs() {
    let (points, (lat, lon)) = survey_images(&vec![photo_at(10, 20), photo_at(30, 40)]).unwrap();
    let deg = |d: DecimalDegrees| d.num as f64 / d.den as f64;
    assert_eq!((deg(lat), deg(lon)), (20.0, 30.0));
    assert_eq!(points.len(), 2);
    assert_eq!((deg(points[0].0), deg(points[0].1)), (10.0, 20.0));
    assert_eq!((deg(points[1].0), deg(points[1].1)), (30.0, 40.0));
}

#[test]
fn survey_of_no_photographs() {
    assert_eq!(survey_images(&Vec::new()).unwrap_err(), GeoError::EmptyDirectory);
}

#[test]
fn survey_stops_at_first_failure() {
    let no_longitude = tiff_with_gps(&[
        (1, 2, 2, b"N\0".to_vec()),
        (2, 5, 3, rational_payload(&[(10, 1), (0, 1), (0, 1)])),
    ]);
    let r = survey_images(&vec![photo_at(1, 2), no_longitude.clone(), b"junk".to_vec()]);
    assert_eq!(r.unwrap_err(), GeoError::MissingField);
    let r = survey_images(&vec![photo_at(1, 2), b"junk".to_vec(), no_longitude]);
    assert_eq!(r.unwrap_err(), GeoError::ContainerParseError);
}
