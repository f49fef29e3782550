use yang_schema::errors::ErrorContext;
use yang_schema::parser::model;
use yang_schema::parser::parser::parse;
use yang_schema::typing::range::RangePart;
use yang_schema::typing::{built_in_type, Type};

fn type_node(input: &str) -> model::Type {
    let statement = parse(input).unwrap();
    let mut ctx = ErrorContext::new();
    let ty = model::Type::map(statement, &mut ctx).unwrap();
    assert_eq!(ctx.error_count(), 0);
    ty
}

fn int_range(t: &Type) -> Vec<RangePart> {
    match t {
        Type::Int(it) => it.range.clone(),
        _ => panic!("expected an integer descriptor"),
    }
}

// Restricting uint8 with "0..255" yields the unrestricted base range, and
// restricting twice with the same bound is idempotent.
#[test]
fn test_range_idempotence() {
    let base = built_in_type("uint8").unwrap();
    let node = type_node("type uint8 { range \"0..255\"; }");
    let mut ctx = ErrorContext::new();
    let once = base.derive(&node, &mut ctx).unwrap();
    assert_eq!(
        int_range(&once),
        vec![RangePart { min_value: 0, max_value: 255 }]
    );
    assert_eq!(int_range(&once), int_range(&base));
    let twice = once.derive(&node, &mut ctx).unwrap();
    assert_eq!(int_range(&twice), int_range(&once));
    assert_eq!(ctx.error_count(), 0);
}

// Accepted multi-part ranges are strictly ascending and disjoint; an
// inverted part is always rejected.
#[test]
fn test_range_ordering() {
    let base = built_in_type("int16").unwrap();
    let node = type_node("type int16 { range \"1..3 | 7..9\"; }");
    let mut ctx = ErrorContext::new();
    let derived = base.derive(&node, &mut ctx).unwrap();
    let r = int_range(&derived);
    assert_eq!(
        r,
        vec![
            RangePart { min_value: 1, max_value: 3 },
            RangePart { min_value: 7, max_value: 9 },
        ]
    );
    assert!(r[0].max_value < r[1].min_value);

    let inverted = type_node("type int16 { range \"10..5\"; }");
    let mut ctx2 = ErrorContext::new();
    assert!(base.derive(&inverted, &mut ctx2).is_err());
    assert_eq!(ctx2.error_count(), 1);

    let unsorted = type_node("type int16 { range \"7..9 | 1..3\"; }");
    let mut ctx3 = ErrorContext::new();
    assert!(base.derive(&unsorted, &mut ctx3).is_err());
}

// Every accepted restriction stays within the base range; "0..300" exceeds
// uint8 and is rejected.
#[test]
fn test_range_containment() {
    let base = built_in_type("uint8").unwrap();
    let node = type_node("type uint8 { range \"0..300\"; }");
    let mut ctx = ErrorContext::new();
    assert!(base.derive(&node, &mut ctx).is_err());
    assert_eq!(ctx.error_count(), 1);

    let inside = type_node("type uint8 { range \"10..20\"; }");
    let mut ctx2 = ErrorContext::new();
    let derived = base.derive(&inside, &mut ctx2).unwrap();
    assert_eq!(
        int_range(&derived),
        vec![RangePart { min_value: 10, max_value: 20 }]
    );
}

#[test]
fn test_range_min_max_and_merge() {
    let base = built_in_type("int8").unwrap();
    let node = type_node("type int8 { range \"min..max\"; }");
    let mut ctx = ErrorContext::new();
    let derived = base.derive(&node, &mut ctx).unwrap();
    assert_eq!(
        int_range(&derived),
        vec![RangePart { min_value: -128, max_value: 127 }]
    );

    // contiguous parts coalesce into one interval
    let node2 = type_node("type int8 { range \"0..5 | 6..10\"; }");
    let merged = base.derive(&node2, &mut ctx).unwrap();
    assert_eq!(
        int_range(&merged),
        vec![RangePart { min_value: 0, max_value: 10 }]
    );

    // min anywhere but the first part is rejected
    let node3 = type_node("type int8 { range \"0..5 | min..10\"; }");
    let mut ctx3 = ErrorContext::new();
    assert!(base.derive(&node3, &mut ctx3).is_err());
}

#[test]
fn test_range_inherited_without_restriction() {
    let base = built_in_type("uint16").unwrap();
    let node = type_node("type uint16;");
    let mut ctx = ErrorContext::new();
    let derived = base.derive(&node, &mut ctx).unwrap();
    assert_eq!(
        int_range(&derived),
        vec![RangePart { min_value: 0, max_value: 65535 }]
    );
}

// Enum items `a`, `b` (value 5), `c` get values 0, 5, 6.
#[test]
fn test_enum_autonumbering() {
    let base = built_in_type("enumeration").unwrap();
    let node = type_node("type enumeration { enum a; enum b { value 5; } enum c; }");
    let mut ctx = ErrorContext::new();
    let derived = base.derive(&node, &mut ctx).unwrap();
    match derived {
        Type::Enumeration(e) => {
            let items = e.items.unwrap();
            assert_eq!(
                items,
                vec![
                    ("a".to_string(), 0),
                    ("b".to_string(), 5),
                    ("c".to_string(), 6),
                ]
            );
        }
        _ => panic!("expected an enumeration descriptor"),
    }
    assert_eq!(ctx.error_count(), 0);
}

// Duplicate names and duplicate explicit values are both rejected.
#[test]
fn test_enum_duplicates() {
    let base = built_in_type("enumeration").unwrap();

    let dup_names = type_node("type enumeration { enum a; enum a; }");
    let mut ctx = ErrorContext::new();
    assert!(base.derive(&dup_names, &mut ctx).is_err());
    assert_eq!(ctx.error_count(), 1);

    let dup_values =
        type_node("type enumeration { enum a { value 1; } enum b { value 1; } }");
    let mut ctx2 = ErrorContext::new();
    assert!(base.derive(&dup_values, &mut ctx2).is_err());
    assert_eq!(ctx2.error_count(), 1);
}

// Restricting an enumerated base keeps only items of the base, with the
// base's values.
#[test]
fn test_enum_subtype() {
    let base = built_in_type("enumeration").unwrap();
    let node = type_node("type enumeration { enum a; enum b { value 5; } enum c; }");
    let mut ctx = ErrorContext::new();
    let first = base.derive(&node, &mut ctx).unwrap();

    let narrowed = type_node("type enumeration { enum b; enum c { value 6; } }");
    let second = first.derive(&narrowed, &mut ctx).unwrap();
    match second {
        Type::Enumeration(e) => {
            let items = e.items.unwrap();
            assert_eq!(items, vec![("b".to_string(), 5), ("c".to_string(), 6)]);
        }
        _ => panic!("expected an enumeration descriptor"),
    }

    let not_in_base = type_node("type enumeration { enum zz; }");
    let mut ctx2 = ErrorContext::new();
    assert!(first.derive(&not_in_base, &mut ctx2).is_err());

    let wrong_value = type_node("type enumeration { enum b { value 7; } }");
    let mut ctx3 = ErrorContext::new();
    assert!(first.derive(&wrong_value, &mut ctx3).is_err());
}

#[test]
fn test_string_length_and_pattern() {
    let base = built_in_type("string").unwrap();
    let node = type_node("type string { length \"11 | 42..max\"; pattern \"[a-z]+\"; }");
    let mut ctx = ErrorContext::new();
    let derived = base.derive(&node, &mut ctx).unwrap();
    match &derived {
        Type::Str(s) => {
            assert_eq!(s.length.len(), 2);
            assert_eq!(s.length[0], RangePart { min_value: 11, max_value: 11 });
            assert_eq!(s.length[1].min_value, 42);
            assert_eq!(s.length[1].max_value, usize::MAX as i128);
            let set = s.pattern.as_ref().unwrap();
            assert_eq!(set.patterns(), &["[a-z]+".to_string()]);
        }
        _ => panic!("expected a string descriptor"),
    }

    // a further restriction only adds patterns, never removes
    let more = type_node("type string { pattern \"[a-y]+\"; }");
    let narrowed = derived.derive(&more, &mut ctx).unwrap();
    match &narrowed {
        Type::Str(s) => {
            let set = s.pattern.as_ref().unwrap();
            assert_eq!(
                set.patterns(),
                &["[a-z]+".to_string(), "[a-y]+".to_string()]
            );
        }
        _ => panic!("expected a string descriptor"),
    }
    assert_eq!(ctx.error_count(), 0);

    let bad = type_node("type string { pattern \"[unclosed\"; }");
    let mut ctx2 = ErrorContext::new();
    assert!(base.derive(&bad, &mut ctx2).is_err());
    assert_eq!(ctx2.error_count(), 1);
}

#[test]
fn test_boolean_warns_on_unused_fields() {
    let base = built_in_type("boolean").unwrap();
    let node = type_node("type boolean { range \"1..2\"; }");
    let mut ctx = ErrorContext::new();
    let derived = base.derive(&node, &mut ctx).unwrap();
    assert!(matches!(derived, Type::Bool(_)));
    assert_eq!(ctx.warning_count(), 1);
    assert_eq!(ctx.error_count(), 0);
    assert!(!derived.is_abstract_type());
}

#[test]
fn test_decimal_fraction_digits() {
    let base = built_in_type("decimal64").unwrap();
    assert!(base.is_abstract_type());

    let node = type_node("type decimal64 { fraction-digits 2; }");
    let mut ctx = ErrorContext::new();
    let derived = base.derive(&node, &mut ctx).unwrap();
    match &derived {
        Type::Decimal(d) => {
            assert_eq!(d.fraction_digits, Some(2));
            let range = d.range.as_ref().unwrap();
            // plus and minus (2^63 - 1) * 10^16, in fixed-point 10^-18 units
            assert_eq!(range[0].max_value, 9223372036854775807i128 * 10i128.pow(16));
            assert_eq!(range[0].min_value, -range[0].max_value);
        }
        _ => panic!("expected a decimal descriptor"),
    }
    assert!(!derived.is_abstract_type());

    let bad = type_node("type decimal64 { fraction-digits 19; }");
    let mut ctx2 = ErrorContext::new();
    assert!(base.derive(&bad, &mut ctx2).is_err());
    let zero = type_node("type decimal64 { fraction-digits 0; }");
    let mut ctx3 = ErrorContext::new();
    assert!(base.derive(&zero, &mut ctx3).is_err());
}

#[test]
fn test_decimal_range_with_decimal_boundaries() {
    let base = built_in_type("decimal64").unwrap();
    let node = type_node("type decimal64 { fraction-digits 18; range \"-1.5..2.25\"; }");
    let mut ctx = ErrorContext::new();
    let derived = base.derive(&node, &mut ctx).unwrap();
    match &derived {
        Type::Decimal(d) => {
            let range = d.range.as_ref().unwrap();
            assert_eq!(range[0].min_value, -1_500_000_000_000_000_000i128);
            assert_eq!(range[0].max_value, 2_250_000_000_000_000_000i128);
        }
        _ => panic!("expected a decimal descriptor"),
    }

    // a decimal literal is not allowed in an integer range
    let int_base = built_in_type("uint8").unwrap();
    let bad = type_node("type uint8 { range \"1.5..2\"; }");
    let mut ctx2 = ErrorContext::new();
    assert!(int_base.derive(&bad, &mut ctx2).is_err());
}

#[test]
fn test_registry() {
    for name in [
        "uint8",
        "uint16",
        "uint32",
        "uint64",
        "int8",
        "int16",
        "int32",
        "int64",
        "decimal64",
        "string",
        "boolean",
        "enumeration",
    ] {
        assert!(built_in_type(name).is_some(), "{} should be built in", name);
    }
    assert!(built_in_type("binary").is_none());
    assert!(built_in_type("").is_none());

    let u64t = built_in_type("uint64").unwrap();
    assert_eq!(
        int_range(&u64t),
        vec![RangePart { min_value: 0, max_value: 18446744073709551615 }]
    );
    match &u64t {
        Type::Int(it) => assert_eq!(it.get_rust_type(), "u64"),
        _ => unreachable!(),
    }
}

#[test]
fn test_inapplicable_fields_warn_but_do_not_fail() {
    let base = built_in_type("uint8").unwrap();
    let node = type_node("type uint8 { length \"1..2\"; }");
    let mut ctx = ErrorContext::new();
    let derived = base.derive(&node, &mut ctx).unwrap();
    assert_eq!(
        int_range(&derived),
        vec![RangePart { min_value: 0, max_value: 255 }]
    );
    assert_eq!(ctx.warning_count(), 1);
    assert_eq!(ctx.error_count(), 0);
}

// `min` is only accepted as the first part's lower boundary, `max` only as
// the last part's upper boundary.
#[test]
fn test_min_max_placement() {
    let base = built_in_type("uint8").unwrap();
    let mut ctx = ErrorContext::new();

    // max as a lower boundary is rejected, wherever it stands
    let node = type_node("type uint8 { range \"max..5 | 7..9\"; }");
    assert!(base.derive(&node, &mut ctx).is_err());
    let sole_max = type_node("type uint8 { range \"max\"; }");
    assert!(base.derive(&sole_max, &mut ctx).is_err());

    // min as an upper boundary is rejected
    let upper_min = type_node("type uint8 { range \"1..min\"; }");
    assert!(base.derive(&upper_min, &mut ctx).is_err());

    // max as an upper boundary is only accepted in the last part
    let early_max = type_node("type uint8 { range \"1..max | 7..9\"; }");
    assert!(base.derive(&early_max, &mut ctx).is_err());
    let mut ctx2 = ErrorContext::new();
    let last_max = type_node("type uint8 { range \"1..5 | 7..max\"; }");
    let derived = base.derive(&last_max, &mut ctx2).unwrap();
    assert_eq!(
        int_range(&derived),
        vec![
            RangePart { min_value: 1, max_value: 5 },
            RangePart { min_value: 7, max_value: 255 },
        ]
    );
    assert_eq!(ctx2.error_count(), 0);
}

#[test]
fn test_enum_value_overflow() {
    let base = built_in_type("enumeration").unwrap();
    let node = type_node("type enumeration { enum a { value 2147483647; } enum b; }");
    let mut ctx = ErrorContext::new();
    // the implicit value after the largest 32-bit value cannot be assigned
    assert!(base.derive(&node, &mut ctx).is_err());
    assert_eq!(ctx.error_count(), 1);
}

#[test]
fn test_decimal_fraction_digit_boundaries() {
    let base = built_in_type("decimal64").unwrap();

    // eighteen fraction digits: the range is plus and minus (2^63 - 1) units
    let node18 = type_node("type decimal64 { fraction-digits 18; }");
    let mut ctx = ErrorContext::new();
    let d18 = base.derive(&node18, &mut ctx).unwrap();
    match &d18 {
        Type::Decimal(d) => {
            let range = d.range.as_ref().unwrap();
            assert_eq!(range[0].max_value, 9223372036854775807i128);
            assert_eq!(range[0].min_value, -9223372036854775807i128);
        }
        _ => panic!("expected a decimal descriptor"),
    }

    // one fraction digit: the same bound scaled by ten to the seventeenth
    let node1 = type_node("type decimal64 { fraction-digits 1; }");
    let d1 = base.derive(&node1, &mut ctx).unwrap();
    match &d1 {
        Type::Decimal(d) => {
            let range = d.range.as_ref().unwrap();
            assert_eq!(range[0].max_value, 9223372036854775807i128 * 10i128.pow(17));
            assert_eq!(range[0].min_value, -range[0].max_value);
        }
        _ => panic!("expected a decimal descriptor"),
    }
    assert_eq!(ctx.error_count(), 0);
}
