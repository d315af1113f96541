use station_locator::distance::{distance_is_known, distance_not_after};
use station_locator::validate_boundary::validate_abuja_bounds;
use station_locator::errors::StationError;

fn some(x: f64) -> Option<u64> {
    Some(x.to_bits())
}

#[test]
fn known_distances_are_numbers() {
    assert!(distance_is_known(some(0.0)));
    assert!(distance_is_known(some(-0.0)));
    assert!(distance_is_known(some(12.5)));
    assert!(distance_is_known(some(-12.5)));
    assert!(distance_is_known(some(f64::INFINITY)));
    assert!(distance_is_known(some(f64::NEG_INFINITY)));
    assert!(distance_is_known(some(f64::MAX)));
    assert!(distance_is_known(some(f64::MIN_POSITIVE)));
    assert!(!distance_is_known(some(f64::NAN)));
    assert!(!distance_is_known(some(-f64::NAN)));
    assert!(!distance_is_known(Some(0x7FF0_0000_0000_0001)));
    assert!(!distance_is_known(Some(u64::MAX)));
    assert!(!distance_is_known(None));
}

#[test]
fn order_is_the_order_of_the_numbers() {
    let samples = [
        f64::NEG_INFINITY,
        f64::MIN,
        -1e10,
        -2.0,
        -1.0,
        -f64::MIN_POSITIVE,
        -5e-324,
        -0.0,
        0.0,
        5e-324,
        f64::MIN_POSITIVE,
        0.1,
        1.0,
        1.0000000000000002,
        2.0,
        9.3,
        1e10,
        f64::MAX,
        f64::INFINITY,
    ];
    for a in samples {
        for b in samples {
            assert_eq!(distance_not_after(some(a), some(b)), a <= b, "{a} {b}");
        }
    }
}

#[test]
fn unknown_distances_are_not_before_any() {
    let unknown = [None, some(f64::NAN), some(-f64::NAN)];
    for u in unknown {
        for x in [0.0, -3.0, f64::INFINITY] {
            assert!(distance_not_after(some(x), u));
            assert!(!distance_not_after(u, some(x)));
        }
        for v in unknown {
            assert!(distance_not_after(u, v));
        }
    }
}

#[test]
fn points_inside_the_service_area() {
    assert!(validate_abuja_bounds(9.0f64.to_bits(), 7.0f64.to_bits()).is_ok());
    assert!(validate_abuja_bounds(8.25f64.to_bits(), 6.75f64.to_bits()).is_ok());
    assert!(validate_abuja_bounds(9.30f64.to_bits(), 7.75f64.to_bits()).is_ok());
    assert!(validate_abuja_bounds(8.25f64.to_bits(), 7.75f64.to_bits()).is_ok());
}

#[test]
fn points_outside_the_service_area() {
    let outside = [
        (8.249999, 7.0),
        (9.300001, 7.0),
        (9.0, 6.749999),
        (9.0, 7.750001),
        (-9.0, 7.0),
        (9.0, -7.0),
        (0.0, 0.0),
        (f64::NAN, 7.0),
        (9.0, f64::NAN),
        (f64::INFINITY, 7.0),
        (9.0, f64::NEG_INFINITY),
        (6.6, 3.35),
    ];
    for (lat, lon) in outside {
        match validate_abuja_bounds(lat.to_bits(), lon.to_bits()) {
            Err(StationError::WrongCredentials(what)) => {
                assert_eq!(what, "Possibly outside service area")
            }
            other => panic!("{lat} {lon}: {other:?}"),
        }
    }
}

#[test]
fn bounds_agree_with_the_numbers() {
    let mut lat = 8.0;
    while lat < 9.6 {
        let mut lon = 6.5;
        while lon < 8.0 {
            let expected = lat >= 8.25 && lat <= 9.30 && lon >= 6.75 && lon <= 7.75;
            assert_eq!(
                validate_abuja_bounds(f64::to_bits(lat), f64::to_bits(lon)).is_ok(),
                expected
            );
            lon += 0.05;
        }
        lat += 0.05;
    }
}
