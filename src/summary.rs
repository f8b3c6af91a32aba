//! One-line summaries of articles and posts.

use vstd::prelude::*;
use vstd::string::StringExecFns;

verus! {

/// Something that can be summed up in a line.
pub trait Summarize {
    fn summarize(&self) -> String;
}

#[derive(Clone, Debug, PartialEq, Eq)]
pub struct Article {
    pub title: String,
    pub author: String,
    pub content: String,
}

#[derive(Clone, Debug, PartialEq, Eq)]
pub struct Tweet {
    pub username: String,
    pub text: String,
}

impl Summarize for Article {
    /// The title and the author.
    fn summarize(&self) -> (r: String)
        ensures
            r@ == self.title@ + " — by "@ + self.author@,
    {
        let mut s = self.title.clone();
        s.append(" — by ");
        s.append(self.author.as_str());
        s
    }
}

impl Summarize for Tweet {
    /// The handle and the text.
    fn summarize(&self) -> (r: String)
        ensures
            r@ == "@"@ + self.username@ + ": "@ + self.text@,
    {
        let mut s = String::from_str("@");
        s.append(self.username.as_str());
        s.append(": ");
        s.append(self.text.as_str());
        s
    }
}

} // verus!
