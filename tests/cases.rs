use cargo_heu::cases::parse_cases;

fn strings(v: &[&str]) -> Vec<String> {
    v.iter().map(|s| s.to_string()).collect()
}

#[test]
fn test_parse_cases_empty() {
    let args: Vec<String> = vec![];
    assert_eq!(parse_cases(&args), vec![0, 1, 2, 3, 4]);
}

#[test]
fn test_parse_cases_single() {
    let args = vec!["3".to_string()];
    assert_eq!(parse_cases(&args), vec![3]);
}

#[test]
fn test_parse_cases_multiple() {
    let args = vec!["0".to_string(), "1".to_string(), "3".to_string()];
    assert_eq!(parse_cases(&args), vec![0, 1, 3]);
}

#[test]
fn test_parse_cases_range() {
    let args = vec!["3-5".to_string()];
    assert_eq!(parse_cases(&args), vec![3, 4, 5]);
}

#[test]
fn test_parse_cases_mixed() {
    let args = vec!["0".to_string(), "1".to_string(), "3-5".to_string()];
    assert_eq!(parse_cases(&args), vec![0, 1, 3, 4, 5]);
}

#[test]
fn reversed_range_is_empty() {
    assert_eq!(parse_cases(&strings(&["5-3"])), Vec::<u32>::new());
}

#[test]
fn malformed_tokens_are_skipped() {
    assert_eq!(parse_cases(&strings(&["x", "1-2-3", "4-", "-4", "7", "a-3"])), vec![7]);
}

#[test]
fn repeats_are_kept_in_order() {
    assert_eq!(parse_cases(&strings(&["2", "1-2", "2"])), vec![2, 1, 2, 2]);
}

#[test]
fn out_of_range_index_is_skipped() {
    assert_eq!(parse_cases(&strings(&["4294967296", "4294967295"])), vec![4294967295]);
}

#[test]
fn plus_sign_is_accepted() {
    assert_eq!(parse_cases(&strings(&["+3", "+1-+2"])), vec![3, 1, 2]);
}

#[test]
fn single_point_range() {
    assert_eq!(parse_cases(&strings(&["6-6"])), vec![6]);
}
