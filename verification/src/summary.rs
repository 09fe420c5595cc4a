//! A summarization capability: types that expose an author identifier can
//! produce a short textual summary, by default from a fixed template around
//! the author identifier, or by overriding the summary outright.

use vstd::prelude::*;
use vstd::string::StringExecFns;

verus! {

/// The default summary template, wrapped around an author identifier.
pub open spec fn default_summary_text(author: Seq<char>) -> Seq<char> {
    "(Read more from "@ + author + "...)"@
}

/// Types that can summarize themselves. An implementation provides its
/// author identifier; the summary defaults to a fixed template around that
/// identifier and may be overridden wholesale.
pub trait Summary {
    /// The author identifier, as the implementing type formats it.
    spec fn spec_author(&self) -> Seq<char>;

    /// Returns the author identifier.
    fn summarize_author(&self) -> (r: String)
        ensures
            r@ == self.spec_author(),
    ;

    /// Returns a short textual summary; unless overridden, the default
    /// template around the author identifier.
    fn summarize(&self) -> (r: String)
        default_ensures
            r@ == default_summary_text(self.spec_author()),
    {
        let author = self.summarize_author();
        let s = "(Read more from ".to_owned();
        let s = s.concat(author.as_str());
        s.concat("...)")
    }
}

/// A short-form message: its author identifier is the username prefixed
/// with `@`, and its summary is the default template.
#[derive(Clone)]
pub struct Tweet {
    pub username: String,
    pub content: String,
    pub reply: bool,
    pub retweet: bool,
}

impl Summary for Tweet {
    open spec fn spec_author(&self) -> Seq<char> {
        "@"@ + self.username@
    }

    fn summarize_author(&self) -> (r: String) {
        let s = "@".to_owned();
        s.concat(self.username.as_str())
    }
}

/// The summary a long-form article formats for itself: headline, author and
/// location.
pub open spec fn article_summary_text(
    headline: Seq<char>,
    author: Seq<char>,
    location: Seq<char>,
) -> Seq<char> {
    headline + ", by "@ + author + " ("@ + location + ")"@
}

/// A long-form article: its author identifier is the plain author name, and
/// it overrides the summary with its own format, bypassing the default
/// template.
#[derive(Clone)]
pub struct NewsArticle {
    pub headline: String,
    pub location: String,
    pub author: String,
    pub content: String,
}

impl Summary for NewsArticle {
    open spec fn spec_author(&self) -> Seq<char> {
        self.author@
    }

    fn summarize_author(&self) -> (r: String) {
        self.author.clone()
    }

    fn summarize(&self) -> (r: String)
        ensures
            r@ == article_summary_text(self.headline@, self.author@, self.location@),
    {
        let s = self.headline.clone();
        let s = s.concat(", by ");
        let s = s.concat(self.author.as_str());
        let s = s.concat(" (");
        let s = s.concat(self.location.as_str());
        s.concat(")")
    }
}

/// A function generic over two summarizable, clonable parameters; it
/// reads neither and returns a fixed value.
#[allow(unused_variables)]
pub fn some_function<T, U>(t: T, u: U) -> (r: i32) where T: Summary + Clone, U: Clone + Summary
    ensures
        r == 10,
{
    10
}

/// Returns a summarizable value: a fixed short-form message.
pub fn returns_summarizable() -> (r: impl Summary)
    ensures
        r.spec_author() == "@"@ + "horse_ebooks"@,
{
    Tweet {
        username: "horse_ebooks".to_owned(),
        content: "of course, as you probably already know, people".to_owned(),
        reply: false,
        retweet: false,
    }
}

} // verus!
