//! Geotag extraction: reading the GPS fields of an image's EXIF container and
//! turning degree/minute/second readings into exact signed decimal degrees,
//! and the mean centre of many such positions.
pub mod container;
pub mod coords;
pub mod locator;
pub mod survey;

pub use container::{coordinates_in, get_exif_gps, get_image_coordinates, survey_images};
pub use coords::{DecimalDegrees, GeoError, Rational, exif_to_decimal};
pub use locator::{Axis, FieldValue, read_axis};
pub use survey::{mean_center, mean_degrees};
