use measures::measure::borrow;
use measures::{Measure, Unit, UnitList};

type Length<'a> = Measure<'a, f64>;

fn centimetre() -> Unit<f64> {
    Unit::new("cm", "centimetre", "centimetres", 100.0)
}
fn metre() -> Unit<f64> {
    Unit::new("m", "metre", "metres", 1.0)
}
fn millimetre() -> Unit<f64> {
    Unit::new("mm", "millimetre", "millimetres", 1000.0)
}
fn kilometre() -> Unit<f64> {
    Unit::new("km", "kilometre", "kilometres", 0.001)
}

#[test]
fn test_add_sub() {
    let metre = metre();
    let kilometre = kilometre();
    let centimetre = centimetre();
    let millimetre = millimetre();
    let mut first = Length::new(0.5, &metre);
    assert_eq!(first.get_val(), 0.5);
    let second = Length::new(0.75, &kilometre);
    assert_eq!(second.get_val_as(&metre), 750.0);
    assert_eq!(second.get_val_as(&centimetre), 75000.0);
    assert_eq!(second.get_val_as(&millimetre), 750000.0);

    first.add_other(&second);
    assert_eq!(first.get_val(), 750.50);
    first.subtract_other(&second);
    assert_eq!(first.get_val(), 0.5);
    let third = Length::new(17.3, &millimetre);
    assert_eq!(third.get_val_as(&metre), 0.0173);
    assert_eq!(third.get_val_as(&centimetre), 1.73);
    assert_eq!(third.get_val_as(&millimetre), 17.3);

    let length = second + third;
    assert_eq!(length.get_val(), 0.7500173);
    let length = second - third;
    assert_eq!(length.get_val(), 0.7499827);
}

#[test]
fn convert() {
    let kilometre = kilometre();
    let metre = metre();
    let millimetre = millimetre();
    let mut val = Length::new(24.0, &kilometre);
    assert_eq!(val.get_val(), 24.0);
    assert_eq!(val.get_val_as(&millimetre), 24000000.0);
    val.convert_to(&metre);
    assert_eq!(val.get_val(), 24000.0);
    assert_eq!(val.get_val_as(&millimetre), 24000000.0);
    assert_eq!(val.get_val_as(&kilometre), 24.0);
}

#[test]
fn check_borrow() {
    let centimetre = centimetre();
    let mut val = Length::new(125.0, &centimetre);
    let val2 = val.clone();
    borrow(&mut val, &val2);
    assert_eq!(val.get_val(), 250.0);
}

#[test]
fn kilometres_in_metres_and_millimetres() {
    let kilometre = kilometre();
    let metre = metre();
    let millimetre = millimetre();
    let m = Length::new(0.75, &kilometre);
    assert_eq!(m.get_val_as(&metre), 750.0);
    assert_eq!(m.get_val_as(&millimetre), 750000.0);
}

#[test]
fn sum_is_in_left_unit() {
    let kilometre = kilometre();
    let metre = metre();
    let a = Length::new(0.5, &metre);
    let b = Length::new(0.75, &kilometre);
    let s = a + b;
    assert_eq!(s.get_val(), 750.5);
    assert_eq!(s.get_unit().get_abbr(), "m");
    let d = a - b;
    assert_eq!(d.get_unit().get_abbr(), "m");
    let s = b + a;
    assert_eq!(s.get_unit().get_abbr(), "km");
    assert!((s.get_val() - 0.7505).abs() < 1e-12);
    let d = b - a;
    assert_eq!(d.get_unit().get_abbr(), "km");
}

#[test]
fn conversion_round_trip_and_no_op() {
    let units = [metre(), kilometre(), centimetre(), millimetre()];
    for v in [0.0, 1.0, 0.75, 17.3, -11.0, 24.0, 123456.789] {
        for u1 in units.iter() {
            assert_eq!(Length::convert(v, u1, u1), v);
            for u2 in units.iter() {
                let back = Length::convert(Length::convert(v, u1, u2), u2, u1);
                assert!((back - v).abs() <= 1e-9 * v.abs().max(1.0));
            }
        }
    }
}

#[test]
fn equality_is_unit_normalised() {
    let kilometre = kilometre();
    let metre = metre();
    let a = Length::new(750.0, &metre);
    let b = Length::new(0.75, &kilometre);
    assert!(a.is_equal_to(&b));
    assert!(!a.is_equal_to(&Length::new(0.7, &kilometre)));
}

#[test]
fn measure_from_literal() {
    let list = UnitList::new("SI", vec![metre(), kilometre()]);
    let m = Length::from_literal(&list, "12km").unwrap();
    assert_eq!(m.get_val(), 12.0);
    assert_eq!(m.get_unit().get_abbr(), "km");
    assert!(Length::from_literal(&list, "12 mi").is_none());
    assert!(Length::from_literal(&list, "12").is_none());
}

#[test]
fn division_by_zero_factor_does_not_panic() {
    let zero = Unit::new("z", "zero", "zeros", 0.0);
    let metre = metre();
    let m = Length::new(1.0, &zero);
    assert!(m.get_val_as(&metre).is_infinite());
}

#[test]
fn same_unit_conversion_is_exact() {
    let odd = Unit::new("o", "odd", "odds", 49.0);
    let other = Unit::new("o", "odd", "odds", 49.0);
    assert_eq!(Length::convert(1.0, &odd, &odd), 1.0);
    assert_eq!(Length::convert(1.0, &odd, &other), 1.0);
    let mut m = Length::new(1.0, &odd);
    m.convert_to(&odd);
    assert_eq!(m.get_val(), 1.0);
    assert_eq!(m.get_val_as(&other), 1.0);
}
