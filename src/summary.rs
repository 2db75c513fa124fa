//! Items that can summarize themselves in one line: news articles and
//! tweets.
use vstd::prelude::*;
use vstd::string::StringExecFns;

verus! {

/// A one-line summary of an item.
pub trait Summary {
    /// The summary, as text.
    spec fn summary(&self) -> Seq<char>;

    /// Whether the item is written in English.
    spec fn spec_in_english(&self) -> bool;

    fn summarize(&self) -> (r: String)
        ensures
            r@ == self.summary(),
    ;

    fn in_english(&self) -> (r: bool)
        ensures
            r == self.spec_in_english(),
    ;
}

/// A news article.
pub struct NewsArticle {
    pub headline: String,
    pub location: String,
    pub author: String,
    pub content: String,
}

impl NewsArticle {
    /// A placeholder article.
    pub fn new() -> (r: NewsArticle)
        ensures
            r.headline@ == "hl"@,
            r.location@ == "loc"@,
            r.author@ == "athr"@,
            r.content@ == "ctnt"@,
    {
        NewsArticle {
            headline: String::from_str("hl"),
            location: String::from_str("loc"),
            author: String::from_str("athr"),
            content: String::from_str("ctnt"),
        }
    }
}

impl Summary for NewsArticle {
    /// "headline, by author (location)".
    open spec fn summary(&self) -> Seq<char> {
        self.headline@ + ", by "@ + self.author@ + " ("@ + self.location@ + ")"@
    }

    open spec fn spec_in_english(&self) -> bool {
        true
    }

    fn summarize(&self) -> (r: String) {
        let mut s = self.headline.clone();
        s.append(", by ");
        s.append(self.author.as_str());
        s.append(" (");
        s.append(self.location.as_str());
        s.append(")");
        s
    }

    fn in_english(&self) -> (r: bool) {
        true
    }
}

/// A short post.
pub struct Tweet {
    pub username: String,
    pub content: String,
    pub reply: bool,
    pub retweet: bool,
}

impl Summary for Tweet {
    /// "username: content".
    open spec fn summary(&self) -> Seq<char> {
        self.username@ + ": "@ + self.content@
    }

    open spec fn spec_in_english(&self) -> bool {
        false
    }

    fn summarize(&self) -> (r: String) {
        let mut s = self.username.clone();
        s.append(": ");
        s.append(self.content.as_str());
        s
    }

    fn in_english(&self) -> (r: bool) {
        false
    }
}

/// The line announcing an item: "Notify: " and its summary.
pub fn notification<S: Summary>(item: &S) -> (r: String)
    ensures
        r@ == "Notify: "@ + item.summary(),
{
    let mut s = String::from_str("Notify: ");
    let summary = item.summarize();
    s.append(summary.as_str());
    s
}

/// Takes two items that can be summarized, possibly of different kinds.
pub fn notifyTwoSameTrait(item1: &impl Summary, item2: &impl Summary) {
}

/// Takes two items of the same kind that can be summarized.
pub fn notifyTwoSameType<T: Summary>(item1: &T, itme2: &T) {
}

/// Takes an item that can be summarized and displayed.
pub fn sumarize_and_display(item: &(impl Summary + std::fmt::Display)) {
}

/// Some item that can be summarized: the placeholder article.
pub fn return_summarizable() -> (r: impl Summary)
    ensures
        r.summary() == "hl"@ + ", by "@ + "athr"@ + " ("@ + "loc"@ + ")"@,
{
    NewsArticle::new()
}

} // verus!
