use component_state::error::Error;
use component_state::scalar::{Category, ScalarType};
use component_state::text::{column_name, decimal_string, same_text};

#[test]
fn every_known_tag_resolves() {
    assert_eq!(ScalarType::from_str("u8"), Ok(ScalarType::U8));
    assert_eq!(ScalarType::from_str("u16"), Ok(ScalarType::U16));
    assert_eq!(ScalarType::from_str("u32"), Ok(ScalarType::U32));
    assert_eq!(ScalarType::from_str("u64"), Ok(ScalarType::U64));
    assert_eq!(ScalarType::from_str("usize"), Ok(ScalarType::USize));
    assert_eq!(ScalarType::from_str("bool"), Ok(ScalarType::Bool));
    assert_eq!(ScalarType::from_str("u128"), Ok(ScalarType::U128));
    assert_eq!(ScalarType::from_str("u256"), Ok(ScalarType::U256));
    assert_eq!(ScalarType::from_str("Cursor"), Ok(ScalarType::Cursor));
    assert_eq!(ScalarType::from_str("Address"), Ok(ScalarType::Address));
    assert_eq!(ScalarType::from_str("DateTime"), Ok(ScalarType::DateTime));
    assert_eq!(ScalarType::from_str("felt252"), Ok(ScalarType::Felt252));
    assert_eq!(ScalarType::from_str("String"), Ok(ScalarType::Text));
}

#[test]
fn unknown_tag_is_an_error() {
    assert_eq!(
        ScalarType::from_str("f64"),
        Err(Error::UnknownType { tag: "f64".to_string() })
    );
    assert_eq!(ScalarType::from_str(""), Err(Error::UnknownType { tag: String::new() }));
    assert_eq!(
        ScalarType::from_str("U32"),
        Err(Error::UnknownType { tag: "U32".to_string() })
    );
    assert_eq!(
        ScalarType::from_str("string"),
        Err(Error::UnknownType { tag: "string".to_string() })
    );
}

#[test]
fn categories_of_scalar_types() {
    assert_eq!(ScalarType::Bool.kind(), Category::Boolean);
    assert_eq!(ScalarType::U8.kind(), Category::Numeric);
    assert_eq!(ScalarType::U16.kind(), Category::Numeric);
    assert_eq!(ScalarType::U32.kind(), Category::Numeric);
    assert_eq!(ScalarType::U64.kind(), Category::Numeric);
    assert_eq!(ScalarType::USize.kind(), Category::Numeric);
    assert_eq!(ScalarType::U128.kind(), Category::Text);
    assert_eq!(ScalarType::U256.kind(), Category::Text);
    assert_eq!(ScalarType::Cursor.kind(), Category::Text);
    assert_eq!(ScalarType::Address.kind(), Category::Text);
    assert_eq!(ScalarType::DateTime.kind(), Category::Text);
    assert_eq!(ScalarType::Felt252.kind(), Category::Text);
    assert_eq!(ScalarType::Text.kind(), Category::Text);
}

#[test]
fn only_small_integers_are_numeric() {
    assert!(ScalarType::U32.is_numeric_type());
    assert!(ScalarType::USize.is_numeric_type());
    assert!(!ScalarType::Bool.is_numeric_type());
    assert!(!ScalarType::U128.is_numeric_type());
    assert!(!ScalarType::Text.is_numeric_type());
}

#[test]
fn decimal_numerals() {
    assert_eq!(decimal_string(0), "0");
    assert_eq!(decimal_string(7), "7");
    assert_eq!(decimal_string(9), "9");
    assert_eq!(decimal_string(10), "10");
    assert_eq!(decimal_string(99), "99");
    assert_eq!(decimal_string(100), "100");
    assert_eq!(decimal_string(1234567890), "1234567890");
    assert_eq!(decimal_string(u64::MAX), "18446744073709551615");
}

#[test]
fn decimal_numerals_agree_with_the_standard_library() {
    let mut n: u64 = 1;
    for _ in 0..64 {
        assert_eq!(decimal_string(n), n.to_string());
        assert_eq!(decimal_string(n - 1), (n - 1).to_string());
        n = n.wrapping_mul(2);
    }
    for k in 0..2000u64 {
        assert_eq!(decimal_string(k), k.to_string());
    }
}

#[test]
fn stored_names_carry_the_prefix() {
    assert_eq!(column_name("health"), "external_health");
    assert_eq!(column_name("Position"), "external_Position");
    assert_eq!(column_name(""), "external_");
    assert_eq!(column_name("external_x"), "external_external_x");
}

#[test]
fn same_text_compares_contents() {
    assert!(same_text("abc", "abc"));
    assert!(same_text("", ""));
    assert!(!same_text("abc", "abd"));
    assert!(!same_text("abc", "ab"));
    assert!(!same_text("Abc", "abc"));
}
