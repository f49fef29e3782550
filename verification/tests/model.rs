use yang_schema::errors::ErrorContext;
use yang_schema::parser::model::{Leaf, Module, Type};
use yang_schema::parser::parser::parse;

#[test]
fn model_test_parse() {
    let input = r#"
                 module acme-system {
         namespace "http://acme.example.com/system";
         prefix "acme";

         organization "ACME Inc.";
         contact "joe@acme.example.com";
         description
             "The module for entities implementing the ACME system.";

         revision 2007-06-09 {
             description "Initial revision.";
         }

         container system {
             leaf host-name {
                 type string;
                 description "Hostname for this system";
             }

             leaf-list domain-search {
                 type string;
                 description "List of domain names to search";
             }

             container login {
                 leaf message {
                     type string;
                     description
                         "Message given at start of login session";
                 }

                 list user {
                     key "name";
                     leaf name {
                         type string {
                             length "11 | 42..max"; // 11 | 42..255
                         }
                     }
                     leaf full-name {
                         type string;
                     }
                     leaf class {
                         type string;
                     }
                 }
             }
         }
     }
        "#;
    let statement = parse(input).unwrap();
    let mut error_context = ErrorContext::new();
    let module = Module::map(statement, &mut error_context).unwrap();
    assert_eq!(module.name, "acme-system");
    assert_eq!(module.namespace, "http://acme.example.com/system");
    assert_eq!(module.prefix, "acme");
    assert_eq!(module.container.len(), 1);
    let system = &module.container[0];
    assert_eq!(system.name, "system");
    assert_eq!(system.leaf.len(), 1);
    assert_eq!(system.leaf_list.len(), 1);
    assert_eq!(system.container.len(), 1);
    let login = &system.container[0];
    assert_eq!(login.list.len(), 1);
    let user = &login.list[0];
    assert_eq!(user.key.as_deref(), Some("name"));
    assert_eq!(user.leaf.len(), 3);
    assert_eq!(error_context.error_count(), 0);
}

// A construct with an unrecognized child keyword still maps, minus that
// child, and records exactly one warning.
#[test]
fn test_unknown_keyword_tolerance() {
    let input = "leaf a { type string; frobnicate yes; }";
    let statement = parse(input).unwrap();
    let mut ctx = ErrorContext::new();
    let leaf = Leaf::map(statement, &mut ctx).unwrap();
    assert_eq!(leaf.name, "a");
    assert_eq!(ctx.warning_count(), 1);
    assert_eq!(ctx.error_count(), 0);
}

// Two independently invalid leaves yield at least two distinct errors in a
// single pass.
#[test]
fn test_error_accumulation() {
    let input = "module m { namespace \"n\"; prefix p; leaf a; leaf b; }";
    let statement = parse(input).unwrap();
    let mut ctx = ErrorContext::new();
    // both leaves lack their mandatory `type`, so the module fails, but both
    // problems are reported
    assert!(Module::map(statement, &mut ctx).is_err());
    assert!(ctx.error_count() >= 2);
}

#[test]
fn test_duplicate_singular_attribute() {
    let input = "leaf a { type string; type string; }";
    let statement = parse(input).unwrap();
    let mut ctx = ErrorContext::new();
    assert!(Leaf::map(statement, &mut ctx).is_err());
    assert!(ctx.error_count() >= 1);
}

#[test]
fn test_missing_mandatory_attribute() {
    let input = "leaf a { description \"no type here\"; }";
    let statement = parse(input).unwrap();
    let mut ctx = ErrorContext::new();
    assert!(Leaf::map(statement, &mut ctx).is_err());
    assert_eq!(ctx.error_count(), 1);
}

#[test]
fn test_wrong_keyword_is_fatal() {
    let input = "container a { }";
    let statement = parse(input).unwrap();
    let mut ctx = ErrorContext::new();
    assert!(Leaf::map(statement, &mut ctx).is_err());
    assert_eq!(ctx.error_count(), 1);
}

#[test]
fn test_primitive_arguments() {
    let input = "leaf a { type string; config true; mandatory false; status deprecated; }";
    let statement = parse(input).unwrap();
    let mut ctx = ErrorContext::new();
    let leaf = Leaf::map(statement, &mut ctx).unwrap();
    assert_eq!(leaf.config, Some(true));
    assert_eq!(leaf.mandatory, Some(false));
    assert!(matches!(
        leaf.status,
        Some(yang_schema::parser::model::Status::Deprecated)
    ));
    assert_eq!(ctx.error_count(), 0);

    let bad = parse("leaf a { type string; config maybe; }").unwrap();
    let mut ctx2 = ErrorContext::new();
    assert!(Leaf::map(bad, &mut ctx2).is_err());
    assert_eq!(ctx2.error_count(), 1);
}

#[test]
fn test_type_node_fields() {
    let input = "type string { length \"1..10\"; pattern \"[a-z]*\"; pattern \"[a-y]*\"; }";
    let statement = parse(input).unwrap();
    let mut ctx = ErrorContext::new();
    let ty = Type::map(statement, &mut ctx).unwrap();
    assert_eq!(ty.name.as_deref(), Some("string"));
    assert!(ty.length.is_some());
    assert_eq!(ty.pattern.len(), 2);
    assert_eq!(ctx.error_count(), 0);
}

#[test]
fn test_enum_value_argument() {
    let input = "type enumeration { enum up { value 1; } enum down; }";
    let statement = parse(input).unwrap();
    let mut ctx = ErrorContext::new();
    let ty = Type::map(statement, &mut ctx).unwrap();
    assert_eq!(ty.enum_.len(), 2);
    assert_eq!(ty.enum_[0].name, "up");
    assert_eq!(ty.enum_[0].value, Some(1));
    assert_eq!(ty.enum_[1].value, None);
}

#[test]
fn test_missing_arguments() {
    // a leaf without a name argument
    let statement = parse("leaf;").unwrap();
    let mut ctx = ErrorContext::new();
    assert!(Leaf::map(statement, &mut ctx).is_err());
    // the missing name and the missing type are both reported
    assert_eq!(ctx.error_count(), 2);

    // a description child without its argument string
    let statement = parse("leaf a { type string; description; }").unwrap();
    let mut ctx2 = ErrorContext::new();
    assert!(Leaf::map(statement, &mut ctx2).is_err());
    assert_eq!(ctx2.error_count(), 1);
}

#[test]
fn test_invalid_numeric_arguments() {
    // fraction-digits must parse as an unsigned number
    let statement = parse("type decimal64 { fraction-digits abc; }").unwrap();
    let mut ctx = ErrorContext::new();
    assert!(Type::map(statement, &mut ctx).is_err());
    assert_eq!(ctx.error_count(), 1);

    // an enum value must parse as a signed number
    let statement = parse("type enumeration { enum a { value x; } }").unwrap();
    let mut ctx2 = ErrorContext::new();
    assert!(Type::map(statement, &mut ctx2).is_err());
    assert_eq!(ctx2.error_count(), 1);
}

#[test]
fn test_invalid_range_expressions() {
    // three boundaries in one part
    let statement = parse("type uint8 { range \"1..2..3\"; }").unwrap();
    let mut ctx = ErrorContext::new();
    assert!(Type::map(statement, &mut ctx).is_err());
    assert_eq!(ctx.error_count(), 1);

    // a boundary that is neither min, max nor a number
    let statement = parse("type string { length \"x..2\"; }").unwrap();
    let mut ctx2 = ErrorContext::new();
    assert!(Type::map(statement, &mut ctx2).is_err());
    assert_eq!(ctx2.error_count(), 1);
}

#[test]
fn test_deviate_aspect() {
    let statement = parse("deviate not-supported;").unwrap();
    let mut ctx = ErrorContext::new();
    let deviate = yang_schema::parser::model::Deviate::map(statement, &mut ctx).unwrap();
    assert!(matches!(
        deviate.aspect,
        yang_schema::parser::model::DeviateAspect::NotSupported
    ));

    let statement = parse("deviate frobnicate;").unwrap();
    let mut ctx2 = ErrorContext::new();
    assert!(yang_schema::parser::model::Deviate::map(statement, &mut ctx2).is_err());
    assert_eq!(ctx2.error_count(), 1);
}

#[test]
fn test_plus_prefixed_numbers() {
    // unsigned arguments accept an optional leading plus, signed ones both
    // signs; a sign needs a quoted argument, since bare `+` is punctuation
    // and `-` cannot start a bareword
    let statement = parse("type decimal64 { fraction-digits \"+2\"; }").unwrap();
    let mut ctx = ErrorContext::new();
    let ty = Type::map(statement, &mut ctx).unwrap();
    assert_eq!(ty.fraction_digits, Some(2));

    let statement = parse("type enumeration { enum a { value \"-3\"; } enum b { value \"+4\"; } }")
        .unwrap();
    let mut ctx2 = ErrorContext::new();
    let ty2 = Type::map(statement, &mut ctx2).unwrap();
    assert_eq!(ty2.enum_[0].value, Some(-3));
    assert_eq!(ty2.enum_[1].value, Some(4));
}
