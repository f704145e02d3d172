use vstd::prelude::*;
use vstd::string::StringExecFns;
use vstd::string::StringSliceAdditionalSpecFns;

verus! {

/// Shared behaviour of things a media aggregator can summarise: a type says
/// who its author line credits, and gets a one-line teaser for free.
pub trait Summary {
    /// The author line the summaries credit.
    spec fn author_spec(&self) -> Seq<char>;

    /// A short credit for the author.
    fn summarize_author(&self) -> (r: String)
        ensures
            r@ == self.author_spec(),
    ;

    /// A one-line teaser that points the reader at the author.
    fn summarize(&self) -> (r: String)
        ensures
            r@ == "(Read more from "@ + self.author_spec() + "...)"@,
    {
        let mut r = String::from_str("(Read more from ");
        let author = self.summarize_author();
        r.append(author.as_str());
        r.append("...)");
        r
    }
}

/// A news article with a headline and a named author.
pub struct NewArticle {
    pub headline: String,
    pub location: String,
    pub author: String,
    pub content: String,
}

impl Summary for NewArticle {
    open spec fn author_spec(&self) -> Seq<char> {
        "@"@ + self.author@ + ")"@
    }

    fn summarize_author(&self) -> (r: String)
        ensures
            r@ == self.author_spec(),
    {
        let mut r = String::from_str("@");
        r.append(self.author.as_str());
        r.append(")");
        r
    }
}

/// A short post credited to the account that wrote it.
pub struct Tweet {
    pub username: String,
    pub content: String,
    pub reply: bool,
    pub retweet: bool,
}

impl Summary for Tweet {
    open spec fn author_spec(&self) -> Seq<char> {
        "@"@ + self.username@
    }

    fn summarize_author(&self) -> (r: String)
        ensures
            r@ == self.author_spec(),
    {
        let mut r = String::from_str("@");
        r.append(self.username.as_str());
        r
    }
}

/// Two summarisable items of possibly different types.
pub fn other_notify_long(item1: &impl Summary, item2: &impl Summary) {
}

/// Two summarisable items of one and the same type.
pub fn other_notify_long_better<T: Summary>(item1: &T, item2: &T) {
}

/// An item that can both be summarised and be displayed.
pub fn multiple_notify(item: &(impl Summary + core::fmt::Display)) {
}

/// The same bound, written as a named type parameter.
pub fn multiple_notify_better<T: Summary + core::fmt::Display>(item: &T) {
}

/// Some value that can be summarised, without naming its concrete type.
pub fn returns_summarizale() -> (r: impl Summary) {
    Tweet {
        username: String::from_str("horse_ebooks"),
        content: String::from_str("of course, as you probaly already know, people"),
        reply: false,
        retweet: false,
    }
}

/// The longer of two string slices, measured in bytes; ties go to the
/// second.
pub fn longest<'a>(x: &'a str, y: &'a str) -> (r: &'a str)
    ensures
        x.spec_bytes().len() > y.spec_bytes().len() ==> r@ == x@,
        x.spec_bytes().len() <= y.spec_bytes().len() ==> r@ == y@,
{
    if x.as_bytes().len() > y.as_bytes().len() {
        x
    } else {
        y
    }
}

} // verus!
