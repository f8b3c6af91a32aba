use smarttype::ports::{parse_ports, split_pieces};

#[test]
fn ports_and_ranges_sorted_without_duplicates() {
    assert_eq!(parse_ports("80,443,8000-8005"), vec![80, 443, 8000, 8001, 8002, 8003, 8004, 8005]);
    assert_eq!(parse_ports("443, 80 ,80,,79-81"), vec![79, 80, 81, 443]);
}

#[test]
fn reversed_ranges_and_bad_items() {
    assert_eq!(parse_ports("10-8"), vec![8, 9, 10]);
    assert_eq!(parse_ports("x,70000,5-,1-2-3, 7"), vec![7]);
    assert!(parse_ports("").is_empty());
    assert_eq!(parse_ports("65535"), vec![65535]);
}

#[test]
fn pieces_keep_empty_items() {
    assert_eq!(split_pieces("a,,b", ','), vec!["a", "", "b"]);
    assert_eq!(split_pieces("", ','), vec![""]);
}
