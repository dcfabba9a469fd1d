use measures::literal::{compact_number, is_number, split_literal};

struct TestVals {
    val: String,
    num: String,
    unit: String,
}

fn run_test(vals: Vec<TestVals>) {
    for val in vals {
        let res = split_literal(&val.val).unwrap();
        assert_eq!(res.0, val.num);
        assert_eq!(res.1, val.unit);
    }
}

#[test]
fn test_regex() {
    let vals: Vec<TestVals> = vec![
        TestVals {
            val: String::from("124m"),
            num: String::from("124"),
            unit: String::from("m"),
        },
        TestVals {
            val: String::from("124 m"),
            num: String::from("124"),
            unit: String::from("m"),
        },
        TestVals {
            val: String::from("124.25 m"),
            num: String::from("124.25"),
            unit: String::from("m"),
        },
        TestVals {
            val: String::from("124. AsDf"),
            num: String::from("124."),
            unit: String::from("AsDf"),
        },
        // Without a leading zero
        TestVals {
            val: String::from(".75 PieFace"),
            num: String::from(".75"),
            unit: String::from("PieFace"),
        },
        // With the leading plus
        TestVals {
            val: String::from("+ .85 WithPlus"),
            num: String::from("+ .85"),
            unit: String::from("WithPlus"),
        },
        // With a leading minus
        TestVals {
            val: String::from("- .85 WithMinus"),
            num: String::from("- .85"),
            unit: String::from("WithMinus"),
        },
        TestVals {
            val: String::from("0.25 AsDf"),
            num: String::from("0.25"),
            unit: String::from("AsDf"),
        },
    ];
    run_test(vals);
}

#[test]
fn literal_blanks_around_are_dropped() {
    let (num, unit) = split_literal("   -   11.00000 m   ").unwrap();
    assert_eq!(num, "-   11.00000");
    assert_eq!(unit, "m");
    let (num, unit) = split_literal("- 12. m").unwrap();
    assert_eq!(num, "- 12.");
    assert_eq!(unit, "m");
    let (num, unit) = split_literal("000.1500000 m").unwrap();
    assert_eq!(num, "000.1500000");
    assert_eq!(unit, "m");
}

#[test]
fn literal_rejections() {
    assert!(split_literal("").is_none());
    assert!(split_literal("m").is_none());
    assert!(split_literal("12").is_none());
    assert!(split_literal("15.5.5 km").is_none());
    assert!(split_literal("15.A km").is_none());
    assert!(split_literal("NaN km").is_none());
    assert!(split_literal("12 k m").is_none());
    assert!(split_literal("12 m2").is_none());
    assert!(split_literal(". m").is_none());
    assert!(split_literal("--12 m").is_none());
}

#[test]
fn number_text_forms() {
    assert!(is_number("124"));
    assert!(is_number("124."));
    assert!(is_number(".75"));
    assert!(is_number("+ .85"));
    assert!(is_number("-11"));
    assert!(is_number("-11."));
    assert!(is_number("+ 124."));
    assert!(!is_number("."));
    assert!(!is_number("1.2.3"));
    assert!(!is_number(""));
    assert!(!is_number("- "));
}

#[test]
fn number_blanks_taken_out() {
    assert_eq!(compact_number("- .85"), "-.85");
    assert_eq!(compact_number("+   12"), "+12");
    assert_eq!(compact_number("124.25"), "124.25");
    assert_eq!(compact_number("- 124."), "-124.");
}
