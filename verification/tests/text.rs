use tyutyun_shop::catalog::Size;
use tyutyun_shop::schema::{create_database_query, database_exists_query};
use tyutyun_shop::text::{append_decimal, decimal, parse_port};

#[test]
fn decimal_writes_numbers() {
    assert_eq!(decimal(0), "0");
    assert_eq!(decimal(7), "7");
    assert_eq!(decimal(10), "10");
    assert_eq!(decimal(2000), "2000");
    assert_eq!(decimal(1234567890), "1234567890");
    assert_eq!(decimal(-1), "-1");
    assert_eq!(decimal(-1200), "-1200");
    assert_eq!(decimal(i128::MAX), "170141183460469231731687303715884105727");
    assert_eq!(decimal(i128::MIN), "-170141183460469231731687303715884105728");
}

#[test]
fn append_decimal_keeps_what_is_there() {
    let mut text = "total: ".to_string();
    append_decimal(&mut text, 305);
    assert_eq!(text, "total: 305");
    append_decimal(&mut text, -4);
    assert_eq!(text, "total: 305-4");
}

#[test]
fn parse_port_reads_port_numbers() {
    assert_eq!(parse_port("587"), Some(587));
    assert_eq!(parse_port("0"), Some(0));
    assert_eq!(parse_port("25"), Some(25));
    assert_eq!(parse_port("65535"), Some(65535));
    assert_eq!(parse_port("+465"), Some(465));
    assert_eq!(parse_port("00587"), Some(587));
    assert_eq!(parse_port("0000000000000000000000587"), Some(587));
}

#[test]
fn parse_port_refuses_what_is_no_port_number() {
    assert_eq!(parse_port(""), None);
    assert_eq!(parse_port("+"), None);
    assert_eq!(parse_port("-1"), None);
    assert_eq!(parse_port("-0"), None);
    assert_eq!(parse_port("++5"), None);
    assert_eq!(parse_port("65536"), None);
    assert_eq!(parse_port("99999999999999999999"), None);
    assert_eq!(parse_port(" 587"), None);
    assert_eq!(parse_port("587 "), None);
    assert_eq!(parse_port("5_87"), None);
    assert_eq!(parse_port("58a"), None);
    assert_eq!(parse_port("٥٨٧"), None);
    assert_eq!(parse_port("0x1F"), None);
}

#[test]
fn parse_port_agrees_with_the_standard_parser() {
    let samples = [
        "587", "+587", "", "+", "-", "-5", "65535", "65536", "070", "7 ", "١", "+0", "4294967296",
        "1e3", "12345", "123456",
    ];
    for sample in samples {
        assert_eq!(parse_port(sample), sample.parse::<u16>().ok());
    }
}

#[test]
fn size_labels_round_trip() {
    let sizes = [Size::Single, Size::S, Size::M, Size::L, Size::XL, Size::XXL];
    let labels = ["single", "S", "M", "L", "XL", "XXL"];
    for (size, label) in sizes.iter().zip(labels.iter()) {
        assert_eq!(size.label(), *label);
        assert_eq!(Size::from_label(label), Some(*size));
    }
    assert_eq!(Size::from_label("s"), None);
    assert_eq!(Size::from_label(""), None);
    assert_eq!(Size::from_label("XXXL"), None);
    assert_eq!(Size::from_label(" M"), None);
}

#[test]
fn database_queries_name_the_database() {
    assert_eq!(
        database_exists_query("shop"),
        "SELECT 1 FROM pg_database WHERE datname = 'shop';"
    );
    assert_eq!(create_database_query("shop"), "CREATE DATABASE shop;");
    assert_eq!(database_exists_query(""), "SELECT 1 FROM pg_database WHERE datname = '';");
}
