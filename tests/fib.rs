use smarttype::fib::{fib_iter, fib_rec, parse_n, run_fib, FibReport};

#[test]
fn parses_n() {
    assert_eq!(parse_n("8").unwrap(), 8);
    assert!(parse_n("not_a_number").is_err());
}

#[test]
fn parse_n_trims_and_rejects_signs_and_overflow() {
    assert_eq!(parse_n("  42\n").unwrap(), 42);
    assert_eq!(parse_n("+7").unwrap(), 7);
    assert!(parse_n("-7").is_err());
    assert!(parse_n("").is_err());
    assert!(parse_n("18446744073709551616").is_err());
    assert_eq!(parse_n("18446744073709551615").unwrap(), u64::MAX);
}

#[test]
fn computes_iterative() {
    assert_eq!(fib_iter(0), 0);
    assert_eq!(fib_iter(1), 1);
    assert_eq!(fib_iter(8), 21);
}

#[test]
fn computes_recursive() {
    assert_eq!(fib_rec(0), 0);
    assert_eq!(fib_rec(1), 1);
    assert_eq!(fib_rec(6), 8);
}

#[test]
fn largest_index_that_fits() {
    assert_eq!(fib_iter(93), 12200160415121876738);
    assert_eq!(fib_rec(20), fib_iter(20));
}

#[test]
fn run_fib_works() {
    run_fib(&["10".to_string()]).unwrap();
    // Should skip recursive for large n but within safe numeric bounds
    run_fib(&["60".to_string()]).unwrap();
}

#[test]
fn run_fib_rejects_too_large_input() {
    let err = run_fib(&["100".to_string()]).unwrap_err();
    assert!(err.contains("too large"));
}

#[test]
fn run_fib_reports_both_ways() {
    let small = run_fib(&["10".to_string()]).unwrap();
    assert_eq!(small, FibReport { n: 10, iterative: 55, recursive: Some(55) });
    let large = run_fib(&["60".to_string()]).unwrap();
    assert_eq!(large.recursive, None);
    assert_eq!(large.iterative, 1548008755920);
    assert_eq!(run_fib(&["93".to_string()]).unwrap().iterative, 12200160415121876738);
    assert_eq!(run_fib(&[]).unwrap_err(), "missing n for fib");
    assert!(run_fib(&["x".to_string()]).unwrap_err().starts_with("invalid n: "));
}
