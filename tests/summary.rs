use smarttype::summary::{Article, Summarize, Tweet};

#[test]
fn summarize_implementations() {
    let article = Article {
        title: "Rust 2024".into(),
        author: "Ferris".into(),
        content: "All about Rust".into(),
    };
    let tweet = Tweet {
        username: "rustacean".into(),
        text: "Rust is great".into(),
    };

    assert!(article.summarize().contains("Rust 2024"));
    assert!(tweet.summarize().starts_with("@rustacean"));
}

#[test]
fn summaries_are_exact() {
    let article = Article { title: "T".into(), author: "A".into(), content: "C".into() };
    assert_eq!(article.summarize(), "T — by A");
    let tweet = Tweet { username: "u".into(), text: "hi".into() };
    assert_eq!(tweet.summarize(), "@u: hi");
}
