use datatool::text::quote;
use datatool::text::same_text;
use datatool::text::to_decimal;

#[test]
fn same_text_compares_characters() {
    assert!(same_text("csv", "csv"));
    assert!(same_text("", ""));
    assert!(!same_text("csv", "csw"));
    assert!(!same_text("csv", "cs"));
    assert!(!same_text("cs", "csv"));
    assert!(same_text("été", "été"));
}

#[test]
fn quote_puts_text_between_double_quotes() {
    assert_eq!(quote("in/a.csv"), "\"in/a.csv\"");
    assert_eq!(quote(""), "\"\"");
}

#[test]
fn decimal_digits() {
    assert_eq!(to_decimal(0), "0");
    assert_eq!(to_decimal(7), "7");
    assert_eq!(to_decimal(10), "10");
    assert_eq!(to_decimal(1234567890), "1234567890");
    assert_eq!(to_decimal(usize::MAX), usize::MAX.to_string());
}
