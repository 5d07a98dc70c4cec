use customer_locator::location::{Location, ParseLocationError};
use customer_locator::location::coordinate_parts;
use customer_locator::units::Kilometers;

const NY_LAT: f64 = 40.7128f64;
const NY_LONG: f64 = -74.0059f64;
const DUBLIN_LAT: f64 = 53.3393;
const DUBLIN_LONG: f64 = -6.2576841;

#[test]
fn new_builds_correct_instance() {
    let location = Location::new(NY_LAT.to_bits(), NY_LONG.to_bits());
    assert_eq!(location.latitude, NY_LAT.to_bits());
    assert_eq!(location.longitude, NY_LONG.to_bits());
}

#[test]
fn is_dublin_is_true_for_dublin() {
    let dublin = Location::dublin();
    assert_eq!(dublin.is_dublin(), true);
}

#[test]
fn is_dublin_is_false_for_something_else_than_dublin() {
    let new_york = Location::new(NY_LAT.to_bits(), NY_LONG.to_bits());
    assert_eq!(new_york.is_dublin(), false);
}

#[test]
fn dublin_is_returns_an_instance_centered_at_dublin() {
    let expected_dublin = Location::new(DUBLIN_LAT.to_bits(), DUBLIN_LONG.to_bits());
    assert_eq!(expected_dublin, Location::dublin());
}

#[test]
fn location_with_nan_coordinate_equals_nothing() {
    let somewhere = Location::new(f64::NAN.to_bits(), DUBLIN_LONG.to_bits());
    assert_ne!(somewhere, somewhere);
    let negative_zero = Location::new((-0.0f64).to_bits(), 0.0f64.to_bits());
    let positive_zero = Location::new(0.0f64.to_bits(), (-0.0f64).to_bits());
    assert_eq!(negative_zero, positive_zero);
}

#[test]
fn coordinate_parts_returns_the_two_coordinate_texts() {
    let parts = coordinate_parts("53.3393,-6.2576841").expect("this location str was supposed to split");
    assert_eq!("53.3393", parts.0.as_str());
    assert_eq!("-6.2576841", parts.1.as_str());
}

#[test]
fn coordinate_parts_fails_with_missing_coord_when_only_one_coord() {
    let expected_error =
        ParseLocationError(String::from("missing element latitude,longitude on tuple"));
    let actual_error = coordinate_parts("53.3393").unwrap_err();
    assert_eq!(expected_error, actual_error);
}

#[test]
fn coordinate_parts_fails_with_missing_coord_err_invalid_sep() {
    let expected_error =
        ParseLocationError(String::from("missing element latitude,longitude on tuple"));
    let actual_error = coordinate_parts("40.7128/-74.0059").unwrap_err();
    assert_eq!(expected_error, actual_error);
}

#[test]
fn coordinate_parts_keeps_empty_coordinate_texts() {
    let parts = coordinate_parts("40.7128,").unwrap();
    assert_eq!("40.7128", parts.0.as_str());
    assert_eq!("", parts.1.as_str());
    let parts = coordinate_parts(",-74.0059").unwrap();
    assert_eq!("", parts.0.as_str());
    assert_eq!("-74.0059", parts.1.as_str());
}

#[test]
fn coordinate_parts_ignores_anything_after_a_second_comma() {
    let parts = coordinate_parts("1.5,2.5,3.5").unwrap();
    assert_eq!("1.5", parts.0.as_str());
    assert_eq!("2.5", parts.1.as_str());
}

#[test]
fn parse_location_error_message_carries_the_text() {
    let error = ParseLocationError(String::from("invalid float literal"));
    assert_eq!("Location parse error: invalid float literal", error.message().as_str());
}

#[test]
fn test_its_formatted_to_3_dec_precision_and_km_unit() {
    let kms = Kilometers(10.2156789f64.to_bits());
    assert_eq!("10.216 Km", kms.to_display_string().as_str());
}

#[test]
fn display_matches_standard_fixed_formatting() {
    let samples: [f64; 22] = [
        0.0,
        -0.0,
        10.2156789,
        5116.751541958293,
        0.0005,
        0.0625,
        0.1875,
        0.9999999,
        123.456,
        98765.000001,
        5e-324,
        1.0e-19,
        1.0 / 3.0,
        -2.71828182845904523536,
        9007199254740991.0,
        -9007199254740991.0,
        9007199254740992.0,
        1.0e18,
        f64::MAX,
        f64::NAN,
        f64::INFINITY,
        f64::NEG_INFINITY,
    ];
    for x in samples {
        let expected = format!("{:.3} Km", x);
        let actual = Kilometers(x.to_bits()).to_display_string();
        assert_eq!(expected, actual, "value {:?}", x);
    }
}

#[test]
fn display_names_the_special_values() {
    assert_eq!("NaN Km", Kilometers(f64::NAN.to_bits()).to_display_string().as_str());
    assert_eq!("inf Km", Kilometers(f64::INFINITY.to_bits()).to_display_string().as_str());
    assert_eq!(
        "-inf Km",
        Kilometers(f64::NEG_INFINITY.to_bits()).to_display_string().as_str()
    );
}

#[test]
fn display_covers_integer_magnitudes_beyond_two_to_the_53() {
    assert_eq!(
        "1000000000000000000.000 Km",
        Kilometers(1.0e18f64.to_bits()).to_display_string().as_str()
    );
    assert_eq!(
        "-18014398509481984.000 Km",
        Kilometers((-18014398509481984.0f64).to_bits()).to_display_string().as_str()
    );
}

#[test]
fn kilometers_order_is_the_ieee_partial_order() {
    let one = Kilometers(1.0f64.to_bits());
    let two = Kilometers(2.0f64.to_bits());
    let nan = Kilometers(f64::NAN.to_bits());
    assert!(one < two);
    assert!(!(two < one));
    assert!(!(nan < two));
    assert!(!(two < nan));
    assert_ne!(nan, nan);
    assert_eq!(Kilometers((-0.0f64).to_bits()), Kilometers(0.0f64.to_bits()));
    assert_eq!(None, nan.partial_cmp(&two));
}
