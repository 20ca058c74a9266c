use llvm_stackmap_parser::text::{push_decimal, push_signed_decimal, transform_name};

#[test]
fn transform_name_replaces_dots() {
    assert_eq!(transform_name("foo.bar.baz"), "foo_bar_baz");
    assert_eq!(transform_name("main"), "main");
    assert_eq!(transform_name(""), "");
    assert_eq!(transform_name("..a."), "__a_");
}

#[test]
fn transform_name_is_idempotent() {
    let once = transform_name("a.b.c");
    assert_eq!(transform_name(&once), once);
    assert!(!once.contains('.'));
}

#[test]
fn transform_name_keeps_other_characters() {
    assert_eq!(transform_name("é.ü_x"), "é_ü_x");
}

#[test]
fn decimal_numbers() {
    let mut s = String::from("n=");
    push_decimal(&mut s, 0);
    assert_eq!(s, "n=0");
    let mut s = String::new();
    push_decimal(&mut s, 1234567890);
    assert_eq!(s, "1234567890");
    let mut s = String::new();
    push_decimal(&mut s, u64::MAX);
    assert_eq!(s, u64::MAX.to_string());
}

#[test]
fn signed_decimal_numbers() {
    let mut s = String::new();
    push_signed_decimal(&mut s, -8);
    assert_eq!(s, "-8");
    let mut s = String::new();
    push_signed_decimal(&mut s, i64::MIN);
    assert_eq!(s, i64::MIN.to_string());
    let mut s = String::new();
    push_signed_decimal(&mut s, 42);
    assert_eq!(s, "42");
}
