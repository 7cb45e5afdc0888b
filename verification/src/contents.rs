//! Documents and the segmenter that cuts their text into chunks.
//!
//! A text is read line by line. A fenced code block becomes one chunk, fences
//! included; a paragraph becomes one chunk; front matter, headings and blank lines
//! between chunks are left out. Every line of a chunk is written with a line feed
//! behind it.

use crate::text::{lines, split_lines, starts_with};
use vstd::prelude::*;
use vstd::string::StringExecFns;

verus! {

/// What the segmenter is in the middle of.
#[derive(Clone, Copy, PartialEq, Eq, Debug, Structural)]
pub enum FileState {
    /// Between chunks.
    Idle,
    /// Inside a fenced code block.
    CodeBlock,
    /// Inside a paragraph.
    Prose,
    /// Inside front matter.
    FrontMatter,
}

/// The segmenter as a mathematical value: its state, the chunk in progress, and the
/// chunks completed so far.
pub struct Scan {
    pub state: FileState,
    pub buffer: Seq<char>,
    pub chunks: Seq<Seq<char>>,
}

/// The marker that opens and closes a code block.
pub open spec fn code_fence() -> Seq<char> {
    seq!['`', '`', '`']
}

/// The marker that opens and closes front matter.
pub open spec fn front_matter_fence() -> Seq<char> {
    seq!['-', '-', '-']
}

/// The marker that a heading begins with.
pub open spec fn heading_mark() -> Seq<char> {
    seq!['#']
}

/// A line as it is written into a chunk.
pub open spec fn written(line: Seq<char>) -> Seq<char> {
    line.push('\n')
}

/// The segmenter before the first line.
pub open spec fn start() -> Scan {
    Scan { state: FileState::Idle, buffer: Seq::empty(), chunks: Seq::empty() }
}

/// The segmenter after one more line.
pub open spec fn step(scan: Scan, line: Seq<char>) -> Scan {
    match scan.state {
        FileState::Idle => {
            if code_fence().is_prefix_of(line) {
                Scan { state: FileState::CodeBlock, buffer: written(line), chunks: scan.chunks }
            } else if front_matter_fence().is_prefix_of(line) {
                Scan { state: FileState::FrontMatter, buffer: scan.buffer, chunks: scan.chunks }
            } else if !heading_mark().is_prefix_of(line) && line.len() > 0 {
                Scan { state: FileState::Prose, buffer: written(line), chunks: scan.chunks }
            } else {
                scan
            }
        },
        FileState::CodeBlock => {
            if code_fence().is_prefix_of(line) {
                Scan {
                    state: FileState::Idle,
                    buffer: Seq::empty(),
                    chunks: scan.chunks.push(scan.buffer + written(line)),
                }
            } else {
                Scan {
                    state: FileState::CodeBlock,
                    buffer: scan.buffer + written(line),
                    chunks: scan.chunks,
                }
            }
        },
        FileState::FrontMatter => {
            if front_matter_fence().is_prefix_of(line) {
                Scan { state: FileState::Idle, buffer: scan.buffer, chunks: scan.chunks }
            } else {
                scan
            }
        },
        FileState::Prose => {
            if line.len() == 0 {
                Scan {
                    state: FileState::Idle,
                    buffer: Seq::empty(),
                    chunks: scan.chunks.push(scan.buffer),
                }
            } else {
                Scan {
                    state: FileState::Prose,
                    buffer: scan.buffer + written(line),
                    chunks: scan.chunks,
                }
            }
        },
    }
}

/// The segmenter after a run of lines.
pub open spec fn scan_lines(from: Scan, lines: Seq<Seq<char>>) -> Scan
    decreases lines.len(),
{
    if lines.len() == 0 {
        from
    } else {
        step(scan_lines(from, lines.drop_last()), lines.last())
    }
}

/// The chunks once the input has ended: a chunk in progress is completed.
pub open spec fn flush(scan: Scan) -> Seq<Seq<char>> {
    if scan.buffer.len() > 0 {
        scan.chunks.push(scan.buffer)
    } else {
        scan.chunks
    }
}

/// The chunks of a text given as lines.
pub open spec fn chunks_of_lines(lines: Seq<Seq<char>>) -> Seq<Seq<char>> {
    flush(scan_lines(start(), lines))
}

/// The chunks of a text.
pub open spec fn chunks(text: Seq<char>) -> Seq<Seq<char>> {
    chunks_of_lines(split_lines(text))
}

/// The segmenter, fed one line at a time.
pub struct Segmenter {
    state: FileState,
    sentence: String,
    sentences: Vec<String>,
}

impl View for Segmenter {
    type V = Scan;

    closed spec fn view(&self) -> Scan {
        Scan {
            state: self.state,
            buffer: self.sentence@,
            chunks: self.sentences.deep_view(),
        }
    }
}

impl Segmenter {
    /// A segmenter that has read nothing.
    pub fn new() -> (segmenter: Self)
        ensures
            segmenter@ == start(),
            well_formed(segmenter@),
    {
        let segmenter = Segmenter {
            state: FileState::Idle,
            sentence: String::new(),
            sentences: Vec::new(),
        };
        assert(segmenter.sentences.deep_view() == Seq::<Seq<char>>::empty());
        segmenter
    }

    /// The state the segmenter is in.
    pub fn state(&self) -> (state: FileState)
        ensures
            state == self@.state,
    {
        self.state
    }

    /// Reads one line.
    pub fn feed(&mut self, line: &str)
        ensures
            final(self)@ == step(old(self)@, line@),
            well_formed(old(self)@) ==> well_formed(final(self)@),
    {
        proof {
            reveal_strlit("```");
            reveal_strlit("---");
            reveal_strlit("#");
            reveal_strlit("\n");
            assert("```"@ == code_fence());
            assert("---"@ == front_matter_fence());
            assert("#"@ == heading_mark());
            assert(line@ + "\n"@ == written(line@));
        }
        match self.state {
            FileState::Idle => {
                if starts_with(line, "```") {
                    self.state = FileState::CodeBlock;
                    self.sentence = String::new();
                    self.sentence.append(line);
                    self.sentence.append("\n");
                    assert(self.sentence@ == written(line@));
                } else if starts_with(line, "---") {
                    self.state = FileState::FrontMatter;
                } else if !starts_with(line, "#") && !line.is_empty() {
                    self.state = FileState::Prose;
                    self.sentence = String::new();
                    self.sentence.append(line);
                    self.sentence.append("\n");
                    assert(self.sentence@ == written(line@));
                }
            },
            FileState::CodeBlock => {
                self.sentence.append(line);
                self.sentence.append("\n");
                assert(self.sentence@ == old(self).sentence@ + written(line@));
                if starts_with(line, "```") {
                    self.complete();
                }
            },
            FileState::FrontMatter => {
                if starts_with(line, "---") {
                    self.state = FileState::Idle;
                }
            },
            FileState::Prose => {
                if line.is_empty() {
                    self.complete();
                } else {
                    self.sentence.append(line);
                    self.sentence.append("\n");
                    assert(self.sentence@ == old(self).sentence@ + written(line@));
                }
            },
        }
    }

    /// Moves the chunk in progress to the completed ones and goes back to idle.
    fn complete(&mut self)
        ensures
            final(self).state == FileState::Idle,
            final(self).sentence@ == Seq::<char>::empty(),
            final(self).sentences.deep_view() == old(self).sentences.deep_view().push(
                old(self).sentence@,
            ),
    {
        let ghost before = self.sentences.deep_view();
        let mut sentence = String::new();
        std::mem::swap(&mut self.sentence, &mut sentence);
        self.sentences.push(sentence);
        self.state = FileState::Idle;
        assert(self.sentences.deep_view() == before.push(old(self).sentence@));
    }

    /// Ends the input and hands out the chunks.
    pub fn finish(self) -> (found: Vec<String>)
        ensures
            found.deep_view() == flush(self@),
            well_formed(self@) ==> forall|i: int|
                0 <= i < found@.len() ==> (#[trigger] found[i])@.len() > 0,
    {
        let mut segmenter = self;
        if !segmenter.sentence.as_str().is_empty() {
            segmenter.complete();
        }
        let found = segmenter.sentences;
        proof {
            let chunks = flush(self@);
            assert(found.deep_view() == chunks);
            assert forall|i: int|
                well_formed(self@) && 0 <= i < found@.len() implies (#[trigger] found[i])@.len()
                > 0 by {
                assert(chunks[i] == found[i]@);
                if i < self@.chunks.len() {
                    assert(chunks[i] == self@.chunks[i]);
                } else {
                    assert(chunks[i] == self@.buffer);
                }
            }
        }
        found
    }
}

/// Cuts a text into its chunks.
pub fn segment(text: &str) -> (found: Vec<String>)
    ensures
        found.deep_view() == chunks(text@),
        forall|i: int| 0 <= i < found@.len() ==> (#[trigger] found[i])@.len() > 0,
{
    let all = lines(text);
    let mut segmenter = Segmenter::new();
    let mut at: usize = 0;
    while at < all.len()
        invariant
            at <= all.len(),
            all.deep_view() == split_lines(text@),
            segmenter@ == scan_lines(start(), all.deep_view().take(at as int)),
        decreases all.len() - at,
    {
        proof {
            let read = all.deep_view().take(at + 1);
            assert(read.drop_last() == all.deep_view().take(at as int));
            assert(read.last() == all[at as int]@);
        }
        segmenter.feed(all[at].as_str());
        at += 1;
    }
    assert(all.deep_view().take(at as int) == all.deep_view());
    proof {
        lemma_scan_well_formed(start(), split_lines(text@));
    }
    segmenter.finish()
}

/// One loaded document: where it came from, its raw text, and the chunks cut from it.
pub struct File {
    pub path: String,
    pub contents: String,
    pub sentences: Vec<String>,
}

impl File {
    /// A document that has not been segmented yet.
    pub fn new(path: String, contents: String) -> (file: Self)
        ensures
            file.path == path,
            file.contents == contents,
            file.sentences@ == Seq::<String>::empty(),
    {
        Self { path, contents, sentences: Vec::new() }
    }

    /// Cuts the document's text into chunks, in place of any it held before.
    pub fn parse(&mut self)
        ensures
            final(self).path == old(self).path,
            final(self).contents == old(self).contents,
            final(self).sentences.deep_view() == chunks(old(self).contents@),
            forall|i: int|
                0 <= i < final(self).sentences@.len()
                    ==> (#[trigger] final(self).sentences[i])@.len() > 0,
    {
        self.sentences = segment(self.contents.as_str());
    }
}

/// The lines of a chunk, each written with its line feed, one after the other.
pub open spec fn join_lines(lines: Seq<Seq<char>>) -> Seq<char>
    decreases lines.len(),
{
    if lines.len() == 0 {
        Seq::empty()
    } else {
        join_lines(lines.drop_last()) + written(lines.last())
    }
}

/// What holds of every segmenter that started from `start`: a chunk is in progress
/// exactly inside a code block or a paragraph, and no chunk is empty.
pub open spec fn well_formed(scan: Scan) -> bool {
    &&& (scan.state is Idle || scan.state is FrontMatter) ==> scan.buffer.len() == 0
    &&& (scan.state is CodeBlock || scan.state is Prose) ==> scan.buffer.len() > 0
    &&& forall|i: int| 0 <= i < scan.chunks.len() ==> (#[trigger] scan.chunks[i]).len() > 0
}

/// One line keeps a segmenter well formed.
pub proof fn lemma_step_well_formed(scan: Scan, line: Seq<char>)
    requires
        well_formed(scan),
    ensures
        well_formed(step(scan, line)),
{
}

/// A run of lines keeps a segmenter well formed.
pub proof fn lemma_scan_well_formed(from: Scan, lines: Seq<Seq<char>>)
    requires
        well_formed(from),
    ensures
        well_formed(scan_lines(from, lines)),
    decreases lines.len(),
{
    if lines.len() > 0 {
        lemma_scan_well_formed(from, lines.drop_last());
        lemma_step_well_formed(scan_lines(from, lines.drop_last()), lines.last());
    }
}

/// No chunk of a text is empty.
pub proof fn lemma_no_empty_chunk(text: Seq<char>)
    ensures
        forall|i: int| 0 <= i < chunks(text).len() ==> (#[trigger] chunks(text)[i]).len() > 0,
{
    lemma_scan_well_formed(start(), split_lines(text));
}

/// Reading two runs of lines one after the other is reading them as one run.
pub proof fn lemma_scan_append(from: Scan, first: Seq<Seq<char>>, second: Seq<Seq<char>>)
    ensures
        scan_lines(from, first + second) == scan_lines(scan_lines(from, first), second),
    decreases second.len(),
{
    if second.len() == 0 {
        assert(first + second == first);
    } else {
        assert((first + second).drop_last() == first + second.drop_last());
        lemma_scan_append(from, first, second.drop_last());
    }
}

/// Reading a single line is one step.
pub proof fn lemma_scan_one(from: Scan, line: Seq<char>)
    ensures
        scan_lines(from, seq![line]) == step(from, line),
{
    reveal_with_fuel(scan_lines, 2);
    assert(seq![line].drop_last() == Seq::<Seq<char>>::empty());
}

/// Completed chunks stay: reading on only adds chunks behind them.
pub proof fn lemma_chunks_stay(from: Scan, lines: Seq<Seq<char>>)
    ensures
        from.chunks.is_prefix_of(scan_lines(from, lines).chunks),
        from.chunks.is_prefix_of(flush(scan_lines(from, lines))),
    decreases lines.len(),
{
    if lines.len() > 0 {
        lemma_chunks_stay(from, lines.drop_last());
    }
}

/// A marker that a line begins with gives the line its first character.
proof fn lemma_first_char(marker: Seq<char>, line: Seq<char>)
    requires
        marker.len() > 0,
        marker.is_prefix_of(line),
    ensures
        line.len() > 0,
        line[0] == marker[0],
{
    assert(line.subrange(0, marker.len() as int)[0] == marker[0]);
}

/// A run of lines that leaves the segmenter as it found it can be taken out of the
/// input without changing the chunks.
proof fn lemma_idle_run(lines: Seq<Seq<char>>, from: int, to: int)
    requires
        0 <= from <= to <= lines.len(),
        scan_lines(scan_lines(start(), lines.take(from)), lines.subrange(from, to)) == scan_lines(
            start(),
            lines.take(from),
        ),
    ensures
        chunks_of_lines(lines) == chunks_of_lines(lines.take(from) + lines.skip(to)),
{
    let head = lines.take(from);
    let run = lines.subrange(from, to);
    let tail = lines.skip(to);
    assert(lines == head + run + tail);
    lemma_scan_append(start(), head + run, tail);
    lemma_scan_append(start(), head, run);
    lemma_scan_append(start(), head, tail);
}

/// Inside a code block every line that is no fence is added to the chunk in progress.
proof fn lemma_code_block_body(from: Scan, inner: Seq<Seq<char>>)
    requires
        from.state is CodeBlock,
        forall|k: int| 0 <= k < inner.len() ==> !code_fence().is_prefix_of(#[trigger] inner[k]),
    ensures
        scan_lines(from, inner) == (Scan {
            state: FileState::CodeBlock,
            buffer: from.buffer + join_lines(inner),
            chunks: from.chunks,
        }),
    decreases inner.len(),
{
    if inner.len() == 0 {
        assert(from.buffer + join_lines(inner) == from.buffer);
    } else {
        lemma_code_block_body(from, inner.drop_last());
        assert(from.buffer + join_lines(inner.drop_last()) + written(inner.last())
            == from.buffer + join_lines(inner));
    }
}

/// Joining a first line and the lines behind it.
proof fn lemma_join_first(first: Seq<char>, others: Seq<Seq<char>>)
    ensures
        join_lines(seq![first] + others) == written(first) + join_lines(others),
    decreases others.len(),
{
    let all = seq![first] + others;
    if others.len() == 0 {
        reveal_with_fuel(join_lines, 2);
        assert(all.drop_last() == Seq::<Seq<char>>::empty());
        assert(join_lines(all) == Seq::<char>::empty() + written(first));
        assert(written(first) + join_lines(others) == written(first));
        assert(Seq::<char>::empty() + written(first) == written(first));
    } else {
        lemma_join_first(first, others.drop_last());
        assert(all.drop_last() == seq![first] + others.drop_last());
        assert(written(first) + join_lines(others.drop_last()) + written(others.last())
            == written(first) + join_lines(others));
    }
}

/// Inside front matter every line that is no marker is dropped.
proof fn lemma_front_matter_body(from: Scan, inner: Seq<Seq<char>>)
    requires
        from.state is FrontMatter,
        forall|k: int|
            0 <= k < inner.len() ==> !front_matter_fence().is_prefix_of(#[trigger] inner[k]),
    ensures
        scan_lines(from, inner) == from,
    decreases inner.len(),
{
    if inner.len() > 0 {
        lemma_front_matter_body(from, inner.drop_last());
    }
}

/// A fenced code block is one chunk. When a line that begins with the code fence is
/// met while the segmenter is idle, and `close` is the next line that begins with the
/// fence, the lines from the first to the second, both included, make up one chunk, in
/// their order and unchanged, each with a line feed behind it.
pub proof fn lemma_code_block_is_one_chunk(text: Seq<char>, open: int, close: int)
    requires
        0 <= open < close < split_lines(text).len(),
        scan_lines(start(), split_lines(text).take(open)).state is Idle,
        code_fence().is_prefix_of(split_lines(text)[open]),
        code_fence().is_prefix_of(split_lines(text)[close]),
        forall|k: int|
            open < k < close ==> !code_fence().is_prefix_of(#[trigger] split_lines(text)[k]),
    ensures
        scan_lines(start(), split_lines(text).take(open)).chunks.len() < chunks(text).len(),
        chunks(text)[scan_lines(start(), split_lines(text).take(open)).chunks.len() as int]
            == join_lines(split_lines(text).subrange(open, close + 1)),
{
    let lines = split_lines(text);
    let head = lines.take(open);
    let before = scan_lines(start(), head);
    let inner = lines.subrange(open + 1, close);
    let block = lines.subrange(open, close + 1);
    let opened = step(before, lines[open]);
    assert(forall|k: int| 0 <= k < inner.len() ==> inner[k] == lines[open + 1 + k]);
    lemma_code_block_body(opened, inner);
    // The segmenter after the opening fence and the lines inside the block.
    let upto = lines.take(close);
    assert(upto == head + (seq![lines[open]] + inner));
    lemma_scan_append(start(), head, seq![lines[open]] + inner);
    lemma_scan_append(before, seq![lines[open]], inner);
    lemma_scan_one(before, lines[open]);
    assert(scan_lines(start(), upto).buffer == written(lines[open]) + join_lines(inner));
    // The closing fence completes the chunk.
    let closed = lines.take(close + 1);
    assert(closed.drop_last() == upto);
    assert(closed.last() == lines[close]);
    lemma_join_first(lines[open], inner);
    assert(block.drop_last() == seq![lines[open]] + inner);
    assert(block.last() == lines[close]);
    let chunk = join_lines(block);
    assert(scan_lines(start(), closed).chunks == before.chunks.push(chunk));
    // What follows leaves the chunk where it is.
    assert(lines == closed + lines.skip(close + 1));
    lemma_scan_append(start(), closed, lines.skip(close + 1));
    lemma_chunks_stay(scan_lines(start(), closed), lines.skip(close + 1));
    let at = before.chunks.len() as int;
    assert(before.chunks.push(chunk)[at] == chunk);
    assert(chunks(text).subrange(0, at + 1)[at] == chunk);
}

/// Front matter leaves no trace. When a line that begins with the front-matter marker
/// is met while the segmenter is idle, and `close` is the next line that begins with
/// the marker, the chunks are those of the text without the lines from the first to the
/// second: no line between the two markers, nor a marker line, reaches any chunk.
pub proof fn lemma_front_matter_is_dropped(text: Seq<char>, open: int, close: int)
    requires
        0 <= open < close < split_lines(text).len(),
        scan_lines(start(), split_lines(text).take(open)).state is Idle,
        front_matter_fence().is_prefix_of(split_lines(text)[open]),
        front_matter_fence().is_prefix_of(split_lines(text)[close]),
        forall|k: int|
            open < k < close ==> !front_matter_fence().is_prefix_of(
                #[trigger] split_lines(text)[k],
            ),
    ensures
        chunks(text) == chunks_of_lines(
            split_lines(text).take(open) + split_lines(text).skip(close + 1),
        ),
{
    let lines = split_lines(text);
    let before = scan_lines(start(), lines.take(open));
    let inner = lines.subrange(open + 1, close);
    let block = lines.subrange(open, close + 1);
    lemma_first_char(front_matter_fence(), lines[open]);
    if code_fence().is_prefix_of(lines[open]) {
        lemma_first_char(code_fence(), lines[open]);
    }
    let opened = step(before, lines[open]);
    assert(opened.state is FrontMatter);
    assert(forall|k: int| 0 <= k < inner.len() ==> inner[k] == lines[open + 1 + k]);
    lemma_front_matter_body(opened, inner);
    assert(block.drop_last() == seq![lines[open]] + inner);
    assert(block.last() == lines[close]);
    lemma_scan_append(before, seq![lines[open]], inner);
    lemma_scan_one(before, lines[open]);
    assert(scan_lines(before, block) == before);
    lemma_idle_run(lines, open, close + 1);
}

/// A heading between chunks is skipped. When a line that begins with the heading
/// marker is met while the segmenter is idle, it starts no chunk and is part of none:
/// the chunks are those of the text without that line.
pub proof fn lemma_heading_is_skipped(text: Seq<char>, at: int)
    requires
        0 <= at < split_lines(text).len(),
        scan_lines(start(), split_lines(text).take(at)).state is Idle,
        heading_mark().is_prefix_of(split_lines(text)[at]),
    ensures
        step(scan_lines(start(), split_lines(text).take(at)), split_lines(text)[at]) == scan_lines(
            start(),
            split_lines(text).take(at),
        ),
        chunks(text) == chunks_of_lines(split_lines(text).remove(at)),
{
    let lines = split_lines(text);
    let before = scan_lines(start(), lines.take(at));
    lemma_first_char(heading_mark(), lines[at]);
    if code_fence().is_prefix_of(lines[at]) {
        lemma_first_char(code_fence(), lines[at]);
    }
    if front_matter_fence().is_prefix_of(lines[at]) {
        lemma_first_char(front_matter_fence(), lines[at]);
    }
    assert(step(before, lines[at]) == before);
    assert(lines.subrange(at, at + 1) == seq![lines[at]]);
    lemma_scan_one(before, lines[at]);
    lemma_idle_run(lines, at, at + 1);
    assert(lines.remove(at) == lines.take(at) + lines.skip(at + 1));
}

} // verus!
