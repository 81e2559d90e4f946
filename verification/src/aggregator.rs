//! Summarizable content: articles and tweets, each with an author tag and a
//! one-line teaser, plus a simple generic pair.

use vstd::prelude::*;
use vstd::string::StringExecFns;

verus! {

/// Content with an author, summarized in one line.
pub trait Summary {
    /// The author tag named by this item's summary.
    spec fn spec_author(&self) -> Seq<char>;

    /// The author tag.
    fn summarize_author(&self) -> (r: String)
        ensures
            r@ == self.spec_author(),
    ;

    /// A one-line teaser naming the author.
    fn summarize(&self) -> (r: String)
        ensures
            r@ == "（了解更多来自 "@ + self.spec_author() + " ......）"@,
    {
        let mut s = String::from_str("（了解更多来自 ");
        let author = self.summarize_author();
        s.append(author.as_str());
        s.append(" ......）");
        s
    }
}

/// A news article.
pub struct NewsArticle {
    pub headline: String,
    pub location: String,
    pub author: String,
    pub content: String,
}

impl Summary for NewsArticle {
    open spec fn spec_author(&self) -> Seq<char> {
        self.author@
    }

    fn summarize_author(&self) -> String {
        self.author.clone()
    }
}

/// A tweet.
pub struct Tweet {
    pub username: String,
    pub content: String,
    pub reply: bool,
    pub retweet: bool,
}

impl Summary for Tweet {
    open spec fn spec_author(&self) -> Seq<char> {
        "@"@ + self.username@
    }

    fn summarize_author(&self) -> (r: String) {
        let mut s = String::from_str("@");
        s.append(self.username.as_str());
        s
    }
}

/// A ready-made summarizable value.
pub fn return_summarizable() -> (r: impl Summary)
    ensures
        r.spec_author() == "@horse_ebooks"@,
{
    proof {
        reveal_strlit("@");
        reveal_strlit("horse_ebooks");
        reveal_strlit("@horse_ebooks");
        assert("@"@ + "horse_ebooks"@ =~= "@horse_ebooks"@);
    }
    Tweet {
        username: String::from_str("horse_ebooks"),
        content: String::from_str("当然，如同你或许已经知道的一样，朋友们"),
        reply: false,
        retweet: false,
    }
}

/// A pair of two values of one type.
pub struct Pair<T> {
    pub x: T,
    pub y: T,
}

impl<T> Pair<T> {
    /// Builds the pair.
    pub fn new(x: T, y: T) -> (p: Self)
        ensures
            p.x == x,
            p.y == y,
    {
        Self { x, y }
    }
}

} // verus!
