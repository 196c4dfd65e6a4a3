use severn::agents::Agent;
use severn::files::{CSVFile, File, FileSource, MarkdownFile, ParagraphTextSplitter};
use severn::premade::{ArticleWriter, Researcher};

#[test]
fn csv_file_parses_line_by_line() {
    let file = CSVFile {
        source: FileSource::Filepath("table.csv".to_string()),
        contents: "a,b\nc,d\r\ne".to_string(),
    };
    assert_eq!(file.contents(), "a,b\nc,d\r\ne");
    assert_eq!(file.parse(), vec!["a,b".to_string(), "c,d".to_string(), "e".to_string()]);
}

#[test]
fn csv_final_newline_opens_no_empty_line() {
    let file = CSVFile { source: FileSource::S3, contents: "x\n".to_string() };
    assert_eq!(file.parse(), vec!["x".to_string()]);
}

#[test]
fn csv_empty_file_has_no_lines() {
    let file = CSVFile { source: FileSource::S3, contents: "".to_string() };
    assert_eq!(file.parse(), Vec::<String>::new());
}

#[test]
fn csv_lone_carriage_return_stays() {
    let file = CSVFile { source: FileSource::S3, contents: "a\rb\nc".to_string() };
    assert_eq!(file.parse(), vec!["a\rb".to_string(), "c".to_string()]);
}

#[test]
fn paragraph_splitter_splits_at_its_delimiter() {
    let file = ParagraphTextSplitter {
        source: FileSource::Filepath("notes.txt".to_string()),
        contents: "one/n/ntwo/n/n".to_string(),
    };
    assert_eq!(file.parse(), vec!["one".to_string(), "two".to_string(), "".to_string()]);
}

#[test]
fn paragraph_splitter_without_delimiter_keeps_the_text() {
    let file = ParagraphTextSplitter {
        source: FileSource::S3,
        contents: "just one passage\nacross lines".to_string(),
    };
    assert_eq!(file.contents(), "just one passage\nacross lines");
    assert_eq!(file.parse(), vec!["just one passage\nacross lines".to_string()]);
}

#[test]
fn markdown_parse_chunks_sentences_and_code() {
    let file = MarkdownFile {
        source: FileSource::Filepath("doc.md".to_string()),
        contents: "# Title\n\nfirst para\nsecond line\n\n```\ncode\n```\n---\nhidden\n---\nlast para\n\n"
            .to_string(),
    };
    assert_eq!(
        file.parse(),
        vec![
            "first para\nsecond line\n".to_string(),
            "```\ncode```".to_string(),
            "last para\n".to_string(),
        ]
    );
}

#[test]
fn markdown_unfinished_chunk_is_dropped() {
    let file = MarkdownFile {
        source: FileSource::S3,
        contents: "started but never closed".to_string(),
    };
    assert_eq!(file.parse(), Vec::<String>::new());
}

#[test]
fn markdown_headings_and_blanks_emit_nothing() {
    let file = MarkdownFile {
        source: FileSource::S3,
        contents: "# one\n## two\n\n# three\n".to_string(),
    };
    assert_eq!(file.parse(), Vec::<String>::new());
}

#[test]
fn article_writer_defaults() {
    let agent = ArticleWriter::new();
    assert_eq!(agent.target_audience(), "software developers");
    assert_eq!(agent.tone(), "concise");
    assert_eq!(agent.name(), "ArticleWriter");
}

#[test]
fn article_writer_builders_replace_fields() {
    let agent = ArticleWriter::new().with_target_audience("chefs").with_tone("playful");
    assert_eq!(agent.target_audience(), "chefs");
    assert_eq!(agent.tone(), "playful");
    assert_eq!(
        agent.system_message(),
        "You are an AI agent.\n\n         Your job is to write an article that involves the data \
         (or summary) that you've been given. Your target audience is chefs.\n\n        When \
         answering, your tone should be: playful."
    );
}

#[test]
fn article_writer_default_matches_new() {
    let agent = ArticleWriter::default();
    assert_eq!(agent.target_audience(), "software developers");
    assert_eq!(agent.tone(), "concise");
}

#[test]
fn researcher_identity() {
    let agent = Researcher::new();
    assert_eq!(agent.name(), "Researcher");
    assert_eq!(
        agent.system_message(),
        "You are an AI agent.\n\n         Your job is to research whatever query the user gives \
         you, with the provided context.\n\n        When answering, your summary should be concise."
    );
    let _ = Researcher::default();
}
