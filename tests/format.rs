use cargo_heu::format::{format_with_commas, total_line};

#[test]
fn commas_group_by_three() {
    assert_eq!(format_with_commas(12345), "12,345");
    assert_eq!(format_with_commas(0), "0");
    assert_eq!(format_with_commas(999), "999");
    assert_eq!(format_with_commas(1000), "1,000");
    assert_eq!(format_with_commas(18446744073709551615), "18,446,744,073,709,551,615");
}

#[test]
fn total_line_text() {
    assert_eq!(total_line(1234567), "TOTAL=1,234,567");
    assert_eq!(total_line(0), "TOTAL=0");
}
