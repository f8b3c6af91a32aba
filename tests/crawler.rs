use smarttype::crawler::link_targets;

#[test]
fn links_follow_markers() {
    assert_eq!(link_targets("hello\nlink:b.txt\n"), vec!["b.txt"]);
    assert_eq!(link_targets("see link:  c.txt  \nlink:\nno\nx link:d link:e"), vec!["c.txt", "d link:e"]);
    assert!(link_targets("").is_empty());
    assert!(link_targets("leaf\n").is_empty());
}
