use smarttype::optimizer::{concat_naive, concat_optimized, measure};

#[test]
fn outputs_match() {
    let parts = vec!["hello", " ", "world", "!"];
    assert_eq!(concat_naive(&parts), concat_optimized(&parts));
}

#[test]
fn optimized_is_not_slower_in_small_case() {
    let parts: Vec<String> = (0..100).map(|i| format!("p{i}")).collect();
    let refs: Vec<&str> = parts.iter().map(|s| s.as_str()).collect();

    let (_, naive_time) = measure(|| concat_naive(&refs));
    let (_, opt_time) = measure(|| concat_optimized(&refs));

    assert!(opt_time <= naive_time * 2);
}

#[test]
fn concatenation_is_exact() {
    assert_eq!(concat_naive(&["a", "", "bc"]), "abc");
    assert_eq!(concat_optimized(&["é", "中"]), "é中");
    assert_eq!(concat_optimized(&[]), "");
    let (value, _) = measure(|| 6 * 7);
    assert_eq!(value, 42);
}
