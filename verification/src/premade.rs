use crate::agents::Agent;
use vstd::prelude::*;
use vstd::string::StringExecFns;

verus! {

/// The text that an `ArticleWriter` reports around its target audience and
/// tone.
pub open spec fn article_writer_message(audience: Seq<char>, tone: Seq<char>) -> Seq<char> {
    "You are an AI agent.\n\n         Your job is to write an article that involves the data (or summary) that you've been given. Your target audience is "@
        + audience + ".\n\n        When answering, your tone should be: "@ + tone + "."@
}

/// A premade persona that turns retrieved data into an article for a chosen
/// audience in a chosen tone.
pub struct ArticleWriter {
    /// The audience the article is written for.
    pub target_audience: String,
    /// The tone the article is written in.
    pub tone: String,
}

impl ArticleWriter {
    /// An article writer for software developers, writing concisely.
    pub fn new() -> (r: ArticleWriter)
        ensures
            r.spec_target_audience() == "software developers"@,
            r.spec_tone() == "concise"@,
    {
        ArticleWriter {
            target_audience: "software developers".to_owned(),
            tone: "concise".to_owned(),
        }
    }

    /// The audience the article is written for.
    pub open spec fn spec_target_audience(&self) -> Seq<char> {
        self.target_audience@
    }

    /// The tone the article is written in.
    pub open spec fn spec_tone(&self) -> Seq<char> {
        self.tone@
    }

    /// Replaces the target audience.
    pub fn with_target_audience(self, target_audience: &str) -> (r: ArticleWriter)
        ensures
            r.spec_target_audience() == target_audience@,
            r.spec_tone() == self.spec_tone(),
    {
        ArticleWriter { target_audience: target_audience.to_owned(), tone: self.tone }
    }

    /// The audience the article is written for.
    pub fn target_audience(&self) -> (r: &str)
        ensures
            r@ == self.spec_target_audience(),
    {
        self.target_audience.as_str()
    }

    /// Replaces the tone.
    pub fn with_tone(self, tone: &str) -> (r: ArticleWriter)
        ensures
            r.spec_tone() == tone@,
            r.spec_target_audience() == self.spec_target_audience(),
    {
        ArticleWriter { target_audience: self.target_audience, tone: tone.to_owned() }
    }

    /// The tone the article is written in.
    pub fn tone(&self) -> (r: &str)
        ensures
            r@ == self.spec_tone(),
    {
        self.tone.as_str()
    }
}

impl Default for ArticleWriter {
    fn default() -> (r: ArticleWriter)
        ensures
            r.spec_target_audience() == "software developers"@,
            r.spec_tone() == "concise"@,
    {
        ArticleWriter::new()
    }
}

impl Agent for ArticleWriter {
    open spec fn spec_name(&self) -> Seq<char> {
        "ArticleWriter"@
    }

    open spec fn spec_system_message(&self) -> Seq<char> {
        article_writer_message(self.target_audience@, self.tone@)
    }

    fn name(&self) -> (r: String) {
        "ArticleWriter".to_owned()
    }

    fn system_message(&self) -> (r: String) {
        let mut s =
            "You are an AI agent.\n\n         Your job is to write an article that involves the data (or summary) that you've been given. Your target audience is ".to_owned();
        s.append(self.target_audience.as_str());
        s.append(".\n\n        When answering, your tone should be: ");
        s.append(self.tone.as_str());
        s.append(".");
        s
    }
}

/// The fixed instruction text of a `Researcher`.
pub open spec fn researcher_message() -> Seq<char> {
    "You are an AI agent.\n\n         Your job is to research whatever query the user gives you, with the provided context.\n\n        When answering, your summary should be concise."@
}

/// A premade persona that researches the user's query against the provided
/// context and summarises concisely.
pub struct Researcher;

impl Researcher {
    /// A researcher persona; it carries no configuration.
    pub fn new() -> (r: Researcher) {
        Researcher
    }
}

impl Default for Researcher {
    fn default() -> (r: Researcher) {
        Researcher::new()
    }
}

impl Agent for Researcher {
    open spec fn spec_name(&self) -> Seq<char> {
        "Researcher"@
    }

    open spec fn spec_system_message(&self) -> Seq<char> {
        researcher_message()
    }

    fn name(&self) -> (r: String) {
        "Researcher".to_owned()
    }

    fn system_message(&self) -> (r: String) {
        "You are an AI agent.\n\n         Your job is to research whatever query the user gives you, with the provided context.\n\n        When answering, your summary should be concise."
            .to_owned()
    }
}

} // verus!
