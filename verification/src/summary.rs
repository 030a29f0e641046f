//! The summary trait exercise: a trait with one required and one default
//! method, and an article type implementing both.

use vstd::prelude::*;
use vstd::string::StringExecFns;

verus! {

/// Something that can describe itself in one line.  Implementors say in
/// `spec_summary` (and `spec_default_summary`) what their two summaries
/// are; the executable methods must return exactly that.
pub trait Summary {
    /// What `summarize` returns.
    spec fn spec_summary(&self) -> Seq<char>;

    /// What `default_summarize` returns; a fixed phrase unless overridden.
    open spec fn spec_default_summary(&self) -> Seq<char> {
        "(Read more...)"@
    }

    /// The implementor's own one-line summary.
    fn summarize(&self) -> (r: String)
        ensures
            r@ == self.spec_summary(),
    ;

    /// A fallback summary; unless `spec_default_summary` is overridden it
    /// asks the reader to read on.
    fn default_summarize(&self) -> (r: String)
        ensures
            r@ == self.spec_default_summary(),
    ;
}

/// A news article with a headline, a location, and an author.
pub struct NewsArticle {
    pub headline: String,
    pub location: String,
    pub author: String,
}

impl Summary for NewsArticle {
    open spec fn spec_summary(&self) -> Seq<char> {
        self.headline@ + ", by "@ + self.author@ + " ("@ + self.location@ + ")"@
    }

    open spec fn spec_default_summary(&self) -> Seq<char> {
        "(Read more from "@ + self.author@ + "...)"@
    }

    fn summarize(&self) -> (r: String) {
        let mut s = String::from_str(self.headline.as_str());
        s.append(", by ");
        s.append(self.author.as_str());
        s.append(" (");
        s.append(self.location.as_str());
        s.append(")");
        s
    }

    fn default_summarize(&self) -> (r: String) {
        let mut s = String::from_str("(Read more from ");
        s.append(self.author.as_str());
        s.append("...)");
        s
    }
}

} // verus!
