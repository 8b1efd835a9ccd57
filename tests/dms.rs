use toolbox::dms::{Decimal, DecimalToDms, LatLng};
use toolbox::errors::GeocodingError;

#[test]
fn test_dms_null_island() {
    // Null Island, Intersection of Prime Meridian and Equator
    let latlng = LatLng {
        lat: Decimal::new(0, 0),
        lng: Decimal::new(0, 0),
    };

    assert_eq!("0°0'0\" 0°0'0\"", latlng.to_dms().unwrap());
}

#[test]
fn test_dms_nw() {
    // Golden Gate Park, San Francisco, CA, USA
    let latlng = LatLng {
        lat: Decimal::new(37769722, 6),
        lng: Decimal::new(-122476944, 6),
    };

    assert_eq!(
        "37°46'10.9992\" N 122°28'36.9984\" W",
        latlng.to_dms().unwrap()
    );
}

#[test]
fn test_dms_ne() {
    // The Moscow Kremlin, Moscow, Russia
    let latlng = LatLng {
        lat: Decimal::new(55752460, 6),
        lng: Decimal::new(37617779, 6),
    };

    assert_eq!("55°45'8.856\" N 37°37'4.0044\" E", latlng.to_dms().unwrap());
}

#[test]
fn test_dms_sw() {
    // Maracanã Stadium, Rio de Janeiro, Brazil
    let latlng = LatLng {
        lat: Decimal::new(-22912376, 6),
        lng: Decimal::new(-43230320, 6),
    };

    assert_eq!(
        "22°54'44.5536\" S 43°13'49.152\" W",
        latlng.to_dms().unwrap()
    );
}

#[test]
fn test_dms_se() {
    // Sydney Opera House, Sydney, Australia
    let latlng = LatLng {
        lat: Decimal::new(-33856159, 6),
        lng: Decimal::new(151215256, 6),
    };

    assert_eq!(
        "33°51'22.1724\" S 151°12'54.9216\" E",
        latlng.to_dms().unwrap()
    );
}

#[test]
fn dms_of_whole_and_extreme_coordinates() {
    let latlng = LatLng { lat: Decimal::new(45, 0), lng: Decimal::new(-180, 0) };
    assert_eq!("45°0'0\" N 180°0'0\" W", latlng.to_dms().unwrap());
    let latlng = LatLng { lat: Decimal::new(i64::MIN, 28), lng: Decimal::new(i64::MAX, 18) };
    assert!(latlng.to_dms().is_ok());
}

#[test]
fn dms_rejects_too_many_decimal_places() {
    let latlng = LatLng { lat: Decimal::new(1, 29), lng: Decimal::new(0, 0) };
    assert!(matches!(latlng.to_dms(), Err(GeocodingError::InvalidLatitude)));
    let latlng = LatLng { lat: Decimal::new(1, 2), lng: Decimal::new(0, 30) };
    assert!(matches!(latlng.to_dms(), Err(GeocodingError::InvalidLongitude)));
}
