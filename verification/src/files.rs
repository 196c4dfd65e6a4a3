use crate::text::{
    all_from_chars, extend_chars, has_prefix, spec_lines, spec_split, split_lines, split_on,
    starts_with_chars, to_chars,
};
use vstd::prelude::*;

verus! {

/// Where a file's text came from.
pub enum FileSource {
    /// A path on the local filesystem.
    Filepath(String),
    /// An object in a remote blob store.
    S3,
}

/// A chunkable file: it carries its whole text and can split it into the
/// passages an embedding model is fed with.
pub trait File: Sized {
    /// The file's whole text.
    spec fn spec_contents(&self) -> Seq<char>;

    /// The passages `parse` splits the text into.
    spec fn spec_parse(&self) -> Seq<Seq<char>>;

    /// The file's whole text.
    fn contents(&self) -> (r: String)
        ensures
            r@ == self.spec_contents(),
    ;

    /// Splits the text into passages.
    fn parse(&self) -> (r: Vec<String>)
        ensures
            r.deep_view() == self.spec_parse(),
    ;
}

/// The delimiter a `ParagraphTextSplitter` splits at.
pub open spec fn paragraph_delimiter() -> Seq<char> {
    seq!['/', 'n', '/', 'n']
}

/// A plain text file split into passages at every `/n/n`.
pub struct ParagraphTextSplitter {
    /// Where the text came from.
    pub source: FileSource,
    /// The whole text.
    pub contents: String,
}

impl File for ParagraphTextSplitter {
    open spec fn spec_contents(&self) -> Seq<char> {
        self.contents@
    }

    open spec fn spec_parse(&self) -> Seq<Seq<char>> {
        spec_split(self.contents@, paragraph_delimiter())
    }

    fn contents(&self) -> (r: String) {
        self.contents.clone()
    }

    fn parse(&self) -> (r: Vec<String>) {
        let mut delim: Vec<char> = Vec::new();
        delim.push('/');
        delim.push('n');
        delim.push('/');
        delim.push('n');
        proof {
            assert(delim@ =~= paragraph_delimiter());
        }
        let chars = to_chars(self.contents.as_str());
        all_from_chars(split_on(&chars, &delim))
    }
}

/// A file split into passages line by line.
pub struct CSVFile {
    /// Where the text came from.
    pub source: FileSource,
    /// The whole text.
    pub contents: String,
}

impl File for CSVFile {
    open spec fn spec_contents(&self) -> Seq<char> {
        self.contents@
    }

    open spec fn spec_parse(&self) -> Seq<Seq<char>> {
        spec_lines(self.contents@)
    }

    fn contents(&self) -> (r: String) {
        self.contents.clone()
    }

    fn parse(&self) -> (r: Vec<String>) {
        let chars = to_chars(self.contents.as_str());
        all_from_chars(split_lines(&chars))
    }
}

/// Where the markdown chunker stands between lines.
pub enum MdState {
    /// Between chunks.
    Idle,
    /// Inside a fenced code block.
    CodeBlock,
    /// Inside a comment block fenced by `---` lines.
    Comments,
    /// Inside a running sentence block.
    Sentence,
}

/// The chunker's whole standing: its state, the chunk being gathered, and
/// the chunks already emitted.
pub ghost struct MdAcc {
    pub state: MdState,
    pub sentence: Seq<char>,
    pub chunks: Seq<Seq<char>>,
}

/// The fence that opens and closes a code block.
pub open spec fn code_fence() -> Seq<char> {
    seq!['`', '`', '`']
}

/// The fence that opens and closes a comment block.
pub open spec fn comment_fence() -> Seq<char> {
    seq!['-', '-', '-']
}

/// The mark that opens a heading line.
pub open spec fn heading_mark() -> Seq<char> {
    seq!['#']
}

/// Where the chunker starts: between chunks, with nothing gathered.
pub open spec fn md_init() -> MdAcc {
    MdAcc { state: MdState::Idle, sentence: Seq::empty(), chunks: Seq::empty() }
}

/// One line of markdown chunking. Between chunks, a code fence opens a code
/// block, a comment fence opens a comment block, and any other non-heading,
/// non-empty line opens a sentence block. A code block gathers its lines
/// (fences included) until the closing fence emits it. A comment block is
/// skipped until its closing fence. A sentence block gathers lines until an
/// empty line emits it.
pub open spec fn md_step(acc: MdAcc, line: Seq<char>) -> MdAcc {
    match acc.state {
        MdState::Idle => {
            if has_prefix(line, code_fence()) {
                MdAcc { state: MdState::CodeBlock, sentence: line.push('\n'), chunks: acc.chunks }
            } else if has_prefix(line, comment_fence()) {
                MdAcc { state: MdState::Comments, sentence: acc.sentence, chunks: acc.chunks }
            } else if !has_prefix(line, heading_mark()) && line.len() > 0 {
                MdAcc { state: MdState::Sentence, sentence: line.push('\n'), chunks: acc.chunks }
            } else {
                acc
            }
        },
        MdState::CodeBlock => {
            if has_prefix(line, code_fence()) {
                MdAcc {
                    state: MdState::Idle,
                    sentence: Seq::empty(),
                    chunks: acc.chunks.push(acc.sentence + line),
                }
            } else {
                MdAcc { state: MdState::CodeBlock, sentence: acc.sentence + line, chunks: acc.chunks }
            }
        },
        MdState::Comments => {
            if has_prefix(line, comment_fence()) {
                MdAcc { state: MdState::Idle, sentence: acc.sentence, chunks: acc.chunks }
            } else {
                acc
            }
        },
        MdState::Sentence => {
            if line.len() == 0 {
                MdAcc {
                    state: MdState::Idle,
                    sentence: Seq::empty(),
                    chunks: acc.chunks.push(acc.sentence),
                }
            } else {
                MdAcc {
                    state: MdState::Sentence,
                    sentence: (acc.sentence + line).push('\n'),
                    chunks: acc.chunks,
                }
            }
        },
    }
}

/// The chunker run over every line in order.
pub open spec fn md_run(lines: Seq<Seq<char>>) -> MdAcc
    decreases lines.len(),
{
    if lines.len() == 0 {
        md_init()
    } else {
        md_step(md_run(lines.drop_last()), lines.last())
    }
}

/// The chunks of a markdown text: its lines run through the chunker; an
/// unfinished last chunk is dropped.
pub open spec fn spec_markdown_chunks(s: Seq<char>) -> Seq<Seq<char>> {
    md_run(spec_lines(s)).chunks
}

/// Runs the chunker over the lines of `chars`.
#[verifier::loop_isolation(false)]
fn markdown_chunks(chars: &Vec<char>) -> (r: Vec<Vec<char>>)
    ensures
        r.deep_view() == spec_markdown_chunks(chars@),
{
    let lines = split_lines(chars);
    let ghost lv = lines.deep_view();
    let mut fence: Vec<char> = Vec::new();
    fence.push('`');
    fence.push('`');
    fence.push('`');
    let mut dashes: Vec<char> = Vec::new();
    dashes.push('-');
    dashes.push('-');
    dashes.push('-');
    let mut hash: Vec<char> = Vec::new();
    hash.push('#');
    proof {
        assert(fence@ =~= code_fence());
        assert(dashes@ =~= comment_fence());
        assert(hash@ =~= heading_mark());
    }
    let mut state = MdState::Idle;
    let mut sentence: Vec<char> = Vec::new();
    let mut chunks: Vec<Vec<char>> = Vec::new();
    let mut i: usize = 0;
    proof {
        assert(lv.take(0) =~= Seq::<Seq<char>>::empty());
        assert(sentence@ =~= Seq::<char>::empty());
        assert(chunks.deep_view() =~= Seq::<Seq<char>>::empty());
    }
    while i < lines.len()
        invariant
            i <= lines.len(),
            state == md_run(lv.take(i as int)).state,
            sentence@ == md_run(lv.take(i as int)).sentence,
            chunks.deep_view() == md_run(lv.take(i as int)).chunks,
        decreases lines.len() - i,
    {
        let line = &lines[i];
        let ghost acc = md_run(lv.take(i as int));
        let ghost chunks0 = chunks.deep_view();
        proof {
            assert(lv.take(i + 1).drop_last() =~= lv.take(i as int));
            assert(lv.take(i + 1).last() == lv[i as int]);
            assert(line.deep_view() =~= line@);
            assert(lv[i as int] == line@);
            assert(md_run(lv.take(i + 1)) == md_step(acc, line@));
        }
        match state {
            MdState::Idle => {
                if starts_with_chars(line, &fence) {
                    state = MdState::CodeBlock;
                    sentence = Vec::new();
                    extend_chars(&mut sentence, line);
                    sentence.push('\n');
                    proof {
                        assert(sentence@ =~= line@.push('\n'));
                    }
                } else if starts_with_chars(line, &dashes) {
                    state = MdState::Comments;
                } else if !starts_with_chars(line, &hash) && line.len() > 0 {
                    state = MdState::Sentence;
                    sentence = Vec::new();
                    extend_chars(&mut sentence, line);
                    sentence.push('\n');
                    proof {
                        assert(sentence@ =~= line@.push('\n'));
                    }
                }
            },
            MdState::CodeBlock => {
                extend_chars(&mut sentence, line);
                if starts_with_chars(line, &fence) {
                    proof {
                        assert(sentence.deep_view() =~= sentence@);
                    }
                    chunks.push(sentence);
                    sentence = Vec::new();
                    state = MdState::Idle;
                    proof {
                        assert(chunks.deep_view() =~= chunks0.push(acc.sentence + line@));
                    }
                }
            },
            MdState::Comments => {
                if starts_with_chars(line, &dashes) {
                    state = MdState::Idle;
                }
            },
            MdState::Sentence => {
                if line.len() == 0 {
                    state = MdState::Idle;
                    proof {
                        assert(sentence.deep_view() =~= sentence@);
                    }
                    chunks.push(sentence);
                    sentence = Vec::new();
                    proof {
                        assert(chunks.deep_view() =~= chunks0.push(acc.sentence));
                    }
                } else {
                    extend_chars(&mut sentence, line);
                    sentence.push('\n');
                    proof {
                        assert(sentence@ =~= (acc.sentence + line@).push('\n'));
                    }
                }
            },
        }
        i = i + 1;
    }
    proof {
        assert(lv.take(lines.len() as int) =~= lv);
    }
    chunks
}

/// A markdown file split into chunks: fenced code blocks and sentence
/// paragraphs, with headings, blank lines and `---` comment blocks left out.
pub struct MarkdownFile {
    /// Where the text came from.
    pub source: FileSource,
    /// The whole text.
    pub contents: String,
}

impl File for MarkdownFile {
    open spec fn spec_contents(&self) -> Seq<char> {
        self.contents@
    }

    open spec fn spec_parse(&self) -> Seq<Seq<char>> {
        spec_markdown_chunks(self.contents@)
    }

    fn contents(&self) -> (r: String) {
        self.contents.clone()
    }

    fn parse(&self) -> (r: Vec<String>) {
        let chars = to_chars(self.contents.as_str());
        all_from_chars(markdown_chunks(&chars))
    }
}

} // verus!
