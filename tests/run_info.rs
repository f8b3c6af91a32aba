use smarttype::run_info::RunInfo;

#[test]
fn formats_run_info() {
    let args = vec!["hello_rust", "first", "second"];
    let info = RunInfo::from_iter("Tester", "linux", args);

    assert_eq!(info.args, vec!["first", "second"]);

    let output = info.to_string();
    assert!(output.contains("Hello, Tester!"));
    assert!(output.contains("Operating system: linux"));
    assert!(output.contains("Arguments: first, second"));
}

#[test]
fn handles_no_args() {
    let args = vec!["hello_rust"];
    let info = RunInfo::from_iter("Tester", "macos", args);

    assert!(info.args.is_empty());

    let output = info.to_string();
    assert!(output.contains("Arguments: none"));
}

#[test]
fn report_is_three_lines() {
    let info = RunInfo::from_iter("N", "os", vec![]);
    assert_eq!(info.to_string(), "Hello, N!\nOperating system: os\nArguments: none");
    let one = RunInfo::from_iter("N", "os", vec!["bin", "x"]);
    assert_eq!(one.to_string(), "Hello, N!\nOperating system: os\nArguments: x");
}
