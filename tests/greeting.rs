use smarttype::greeting::greet;

#[test]
fn greets_name() {
    let msg = greet("Ferris");
    assert!(msg.contains("Ferris"));
}

#[test]
fn greet_helper() {
    assert!(greet("Ferris").contains("Ferris"));
}

#[test]
fn adds_numbers() {
    assert_eq!(smarttype::greeting::add(2, 3), 5);
}

#[test]
fn add_helper() {
    assert_eq!(smarttype::greeting::add(2, 3), 5);
}

#[test]
fn greeting_text_is_exact() {
    assert_eq!(greet("Ann"), "Hello, Ann! Welcome to the workspace tool.");
    assert_eq!(smarttype::greeting::add(-4, 1), -3);
}
