use measures::unit::reads_one;
use measures::{gen_si, SiEntry, Unit};

fn round_to(v: f64, decimals: usize) -> f64 {
    let p = 10.0_f64.powi(decimals as i32);
    (v * p).round() / p
}

fn render(v: f64, decimals: usize) -> String {
    format!("{:.*}", decimals, round_to(v, decimals))
}

fn si_entries() -> [SiEntry; 2] {
    [
        SiEntry {
            prefix: "deci",
            abbr: "d",
            power: 1,
        },
        SiEntry {
            prefix: "",
            abbr: "",
            power: 0,
        },
    ]
}

#[test]
fn gen_si_test() {
    let entries = si_entries();
    let e = &entries[0];
    let len: Unit<f64> = gen_si("m", "metre", "metres", e, 10_f32.powi(-e.power).into());
    assert_eq!(len.get_abbr(), "dm");
    assert_eq!(len.get_plural(), "decimetres");
    assert_eq!(len.get_singular(), "decimetre");
    assert_eq!(round_to(len.in_base(), 5), 0.10);
    let e = &entries[1];
    let len: Unit<f64> = gen_si("m", "metre", "metres", e, 10_f32.powi(-e.power).into());
    assert_eq!(len.get_abbr(), "m");
    assert_eq!(len.get_plural(), "metres");
    assert_eq!(len.get_singular(), "metre");
    assert_eq!(round_to(len.in_base(), 5), 1.00);
}

#[test]
fn pluralisation_follows_rounded_number() {
    let metre = Unit::new("m", "metre", "metres", 1.0);
    assert_eq!(metre.display(&render(1.0, 0)), "1 metre");
    assert_eq!(metre.display(&render(0.999_999, 0)), "1 metre");
    assert_eq!(metre.display(&render(1.5, 0)), "2 metres");
    assert_eq!(metre.display(&render(1.0, 2)), "1.00 metre");
    assert_eq!(metre.display(&render(0.125, 0)), "0 metres");
    assert_eq!(metre.display(&render(-1.0, 0)), "-1 metres");
    assert_eq!(metre.display(&render(0.5, 1)), "0.5 metres");
}

#[test]
fn abbreviated_and_named_forms() {
    let metre = Unit::new("m", "metre", "metres", 1.0);
    let kilometre = Unit::new("km", "kilometre", "kilometres", 0.001);
    assert_eq!(kilometre.display_abbr(&render(24.0, 3)), "24.000km");
    assert_eq!(metre.display_abbr(&render(1.0, 1)), "1.0m");
    assert_eq!(metre.display_abbr(&render(0.125, 3)), "0.125m");
    assert_eq!(metre.display_plural(&render(1.0, 2)), "1.00 metres");
    assert_eq!(metre.display_singular(&render(0.5, 1)), "0.5 metre");
    assert_eq!(metre.display(&render(24.0, 4)), "24.0000 metres");
    assert_eq!(metre.display(&render(0.125, 4)), "0.1250 metres");
}

#[test]
fn reading_one() {
    assert!(reads_one("1"));
    assert!(reads_one("1.000"));
    assert!(!reads_one("1.001"));
    assert!(!reads_one("10"));
    assert!(!reads_one("-1"));
    assert!(!reads_one(""));
}

#[test]
fn unit_names_match_exactly() {
    let metre = Unit::new("m", "metre", "metres", 1.0);
    assert!(metre.is_named("m"));
    assert!(metre.is_named("metre"));
    assert!(metre.is_named("metres"));
    assert!(!metre.is_named("M"));
    assert!(!metre.is_named(" m"));
}
