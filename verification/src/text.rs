//! Character-level helpers on string slices: prefix and suffix tests, and line splitting.

use vstd::prelude::*;
use vstd::std_specs::iter::IteratorSpec;

verus! {

/// Whether `text` begins with `marker`, compared character by character.
pub fn starts_with(text: &str, marker: &str) -> (found: bool)
    ensures
        found == marker@.is_prefix_of(text@),
{
    let mut rest = text.chars();
    let mut wanted = marker.chars();
    let ghost mut seen: int = 0;
    loop
        invariant
            0 <= seen <= marker@.len(),
            seen <= text@.len(),
            wanted.remaining() == marker@.skip(seen),
            rest.remaining() == text@.skip(seen),
            text@.take(seen) == marker@.take(seen),
            wanted.obeys_prophetic_iter_laws(),
            rest.obeys_prophetic_iter_laws(),
        decreases marker@.len() - seen,
    {
        match wanted.next() {
            None => {
                assert(marker@.take(seen) == marker@);
                return true;
            },
            Some(expected) => {
                match rest.next() {
                    None => {
                        return false;
                    },
                    Some(actual) => {
                        if actual != expected {
                            assert(marker@.len() <= text@.len() ==> text@.subrange(
                                0,
                                marker@.len() as int,
                            )[seen] != marker@[seen]);
                            return false;
                        }
                        proof {
                            assert(text@.take(seen + 1) == text@.take(seen).push(text@[seen]));
                            assert(marker@.take(seen + 1) == marker@.take(seen).push(marker@[seen]));
                            assert(marker@.skip(seen).drop_first() == marker@.skip(seen + 1));
                            assert(text@.skip(seen).drop_first() == text@.skip(seen + 1));
                            seen = seen + 1;
                        }
                    },
                }
            },
        }
    }
}

/// Whether `text` ends with `ending`, compared character by character.
pub fn ends_with(text: &str, ending: &str) -> (found: bool)
    ensures
        found == ending@.is_suffix_of(text@),
{
    let length: usize = text.unicode_len();
    let wanted_length: usize = ending.unicode_len();
    if wanted_length > length {
        return false;
    }
    let start: usize = length - wanted_length;
    let mut rest = text.chars();
    let mut skipped: usize = 0;
    while skipped < start
        invariant
            skipped <= start,
            start + wanted_length == text@.len(),
            rest.remaining() == text@.skip(skipped as int),
            rest.obeys_prophetic_iter_laws(),
        decreases start - skipped,
    {
        let _ = rest.next();
        assert(text@.skip(skipped as int).drop_first() == text@.skip(skipped + 1));
        skipped += 1;
    }
    let ghost tail = text@.subrange(text@.len() - ending@.len(), text@.len() as int);
    assert(tail == text@.skip(start as int));
    let mut wanted = ending.chars();
    let ghost mut seen: int = 0;
    loop
        invariant
            0 <= seen <= ending@.len(),
            tail.len() == ending@.len(),
            tail == text@.subrange(text@.len() - ending@.len(), text@.len() as int),
            ending@.len() <= text@.len(),
            wanted.remaining() == ending@.skip(seen),
            rest.remaining() == tail.skip(seen),
            tail.take(seen) == ending@.take(seen),
            wanted.obeys_prophetic_iter_laws(),
            rest.obeys_prophetic_iter_laws(),
        decreases ending@.len() - seen,
    {
        match wanted.next() {
            None => {
                assert(ending@.take(seen) == ending@);
                assert(tail.take(seen) == tail);
                return true;
            },
            Some(expected) => {
                let actual = rest.next();
                if actual != Some(expected) {
                    assert(tail[seen] != ending@[seen]);
                    return false;
                }
                proof {
                    assert(tail.take(seen + 1) == tail.take(seen).push(tail[seen]));
                    assert(ending@.take(seen + 1) == ending@.take(seen).push(ending@[seen]));
                    assert(ending@.skip(seen).drop_first() == ending@.skip(seen + 1));
                    assert(tail.skip(seen).drop_first() == tail.skip(seen + 1));
                    seen = seen + 1;
                }
            },
        }
    }
}

/// `String::push` puts one character at the end of the string and changes nothing else.
pub assume_specification[ String::push ](text: &mut String, ch: char)
    ensures
        final(text)@ == old(text)@.push(ch),
;

/// Position of the first line feed in `text`, or its length when it holds none.
pub open spec fn first_break(text: Seq<char>) -> int
    decreases text.len(),
{
    if text.len() == 0 || text[0] == '\n' {
        0
    } else {
        1 + first_break(text.drop_first())
    }
}

/// A line without the carriage return that stood before its line feed.
pub open spec fn trim_return(line: Seq<char>) -> Seq<char> {
    if line.len() > 0 && line.last() == '\r' {
        line.drop_last()
    } else {
        line
    }
}

/// The lines of a text. A line ends at a line feed; the line feed, and a carriage
/// return directly before it, belong to no line. What follows the last line feed is
/// a line of its own, kept as it stands, unless nothing follows it.
pub open spec fn split_lines(text: Seq<char>) -> Seq<Seq<char>>
    decreases text.len(),
    via split_lines_decreases
{
    if text.len() == 0 {
        Seq::empty()
    } else {
        let end = first_break(text);
        if end == text.len() {
            seq![text]
        } else {
            seq![trim_return(text.take(end))] + split_lines(text.skip(end + 1))
        }
    }
}

#[via_fn]
proof fn split_lines_decreases(text: Seq<char>) {
    lemma_first_break(text);
}

/// `first_break` lies within the text, no line feed stands before it, and one stands
/// at it unless it is the end of the text.
pub proof fn lemma_first_break(text: Seq<char>)
    ensures
        0 <= first_break(text) <= text.len(),
        forall|i: int| 0 <= i < first_break(text) ==> text[i] != '\n',
        first_break(text) < text.len() ==> text[first_break(text)] == '\n',
    decreases text.len(),
{
    if text.len() != 0 && text[0] != '\n' {
        let rest = text.drop_first();
        lemma_first_break(rest);
        assert forall|i: int| 0 <= i < first_break(text) implies text[i] != '\n' by {
            if i > 0 {
                assert(text[i] == rest[i - 1]);
            }
        }
        assert(first_break(text) < text.len() ==> text[first_break(text)] == rest[first_break(
            rest,
        )]);
    }
}

/// A text without line feeds, followed by anything, breaks where what follows breaks.
proof fn lemma_first_break_after(head: Seq<char>, tail: Seq<char>)
    requires
        forall|i: int| 0 <= i < head.len() ==> head[i] != '\n',
    ensures
        first_break(head + tail) == head.len() + first_break(tail),
    decreases head.len(),
{
    if head.len() == 0 {
        assert(head + tail == tail);
    } else {
        assert((head + tail)[0] == head[0]);
        assert((head + tail).drop_first() == head.drop_first() + tail);
        lemma_first_break_after(head.drop_first(), tail);
    }
}

/// Cuts `text` into its lines.
pub fn lines(text: &str) -> (found: Vec<String>)
    ensures
        found.deep_view() == split_lines(text@),
{
    let mut found: Vec<String> = Vec::new();
    let mut line = String::new();
    // A carriage return that was read and is written only once it turns out not to end the line.
    let mut held = false;
    let mut open = false;
    proof {
        assert(line@ + text@.skip(0) == text@);
        assert(found.deep_view() + split_lines(text@) == split_lines(text@));
    }
    for ch in iter: text.chars()
        invariant
            iter.seq() == text@,
            open == (current(line@, held).len() > 0),
            forall|i: int| 0 <= i < line@.len() ==> line@[i] != '\n',
            !held ==> trim_return(line@) == line@,
            split_lines(text@) == found.deep_view() + split_lines(
                current(line@, held) + text@.skip(iter.index()),
            ),
    {
        let ghost before = current(line@, held);
        let ghost rest = text@.skip(iter.index());
        assert(rest.len() > 0 && rest[0] == ch);
        assert(rest.drop_first() == text@.skip(iter.index() + 1));
        if ch == '\n' {
            proof {
                let whole = before + rest;
                lemma_first_break_after(before, rest);
                assert(first_break(rest) == 0);
                assert(whole.take(before.len() as int) == before);
                assert(whole.skip(before.len() as int + 1) == rest.drop_first());
                assert(trim_return(before) == line@);
                assert(found.deep_view().push(line@) + split_lines(rest.drop_first())
                    == found.deep_view() + (seq![line@] + split_lines(rest.drop_first())));
                assert(Seq::<char>::empty() + rest.drop_first() == rest.drop_first());
            }
            let ghost done = found.deep_view();
            let ghost ended = line@;
            found.push(line);
            line = String::new();
            held = false;
            open = false;
            assert(found.deep_view() == done.push(ended));
        } else {
            if held {
                line.push('\r');
            }
            held = ch == '\r';
            if !held {
                line.push(ch);
            }
            open = true;
            proof {
                assert(current(line@, held) == before.push(ch));
                assert(before.push(ch) + rest.drop_first() == before + rest);
            }
        }
    }
    if open {
        if held {
            line.push('\r');
        }
        proof {
            assert(text@.skip(text@.len() as int) == Seq::<char>::empty());
            assert(line@ + Seq::<char>::empty() == line@);
            lemma_first_break_after(line@, Seq::empty());
        }
        let ghost done = found.deep_view();
        let ghost ended = line@;
        found.push(line);
        assert(found.deep_view() == done.push(ended));
        assert(done.push(ended) == done + seq![ended]);
    }
    found
}

/// What has been read of the line in progress: what is written, and the carriage
/// return that is held back, if one is.
spec fn current(written: Seq<char>, held: bool) -> Seq<char> {
    if held {
        written.push('\r')
    } else {
        written
    }
}

} // verus!
